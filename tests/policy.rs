use tag_rename::policy::{
    decide, is_audio_extension, plan_rename, screen_extension, Action, Batch, FileOutcome,
    SkipReason,
};
use tag_rename::template::{default_format, FormatError, Metadata};

fn track_and_title() -> Metadata {
    let mut tag = Metadata::new();
    tag.track_number = Some(1);
    tag.title = Some("Cool music".to_string());
    tag
}

#[test]
fn default_template() {
    assert_eq!(default_format(), "%n - %t".to_string());
}

#[test]
fn audio_extensions() {
    for e in ["mp3", "m4a", "mp4", "flac"] {
        assert!(is_audio_extension(e));
    }
    for e in ["MP3", "wav", "", "mp", "flac2", "ogg"] {
        assert!(!is_audio_extension(e));
    }
}

#[test]
fn extension_screening() {
    assert_eq!(screen_extension(None), Some(SkipReason::MissingExtension));
    assert_eq!(screen_extension(Some("txt")), Some(SkipReason::UnsupportedExtension));
    assert_eq!(screen_extension(Some("Flac")), Some(SkipReason::UnsupportedExtension));
    assert_eq!(screen_extension(Some("flac")), None);
}

#[test]
fn rename_keeps_extension() {
    assert_eq!(
        plan_rename("track", "mp3", "01 - Cool music".to_string()),
        Action::Rename("01 - Cool music.mp3".to_string())
    );
}

#[test]
fn already_named_file_is_skipped() {
    assert_eq!(
        plan_rename("01 - Cool music", "mp3", "01 - Cool music".to_string()),
        Action::Skip(SkipReason::AlreadyNamed)
    );
    assert_eq!(
        decide("%n - %t", &track_and_title(), "01 - Cool music", "flac"),
        Ok(Action::Skip(SkipReason::AlreadyNamed))
    );
}

#[test]
fn decide_renders_then_plans() {
    assert_eq!(
        decide("%n - %t", &track_and_title(), "old", "m4a"),
        Ok(Action::Rename("01 - Cool music.m4a".to_string()))
    );
}

#[test]
fn decide_reports_missing_title() {
    let mut tag = Metadata::new();
    tag.track_number = Some(1);
    assert_eq!(
        decide("%n - %t", &tag, "old", "mp3"),
        Err(FormatError::AttributeMissing("Title".to_string()))
    );
}

#[test]
fn decide_reports_invalid_template() {
    assert_eq!(
        decide("%q", &track_and_title(), "old", "mp3"),
        Err(FormatError::InvalidFormat)
    );
}

#[test]
fn batch_stops_at_first_failure() {
    let first = decide("%n - %t", &track_and_title(), "f1", "mp3");
    let mut second_tag = Metadata::new();
    second_tag.track_number = Some(2);
    let second = decide("%n - %t", &second_tag, "f2", "mp3");
    assert!(matches!(first, Ok(Action::Rename(_))));
    assert!(second.is_err());

    let mut batch = Batch::new();
    assert!(!batch.is_stopped());
    assert!(batch.record(FileOutcome::Renamed));
    assert!(batch.record(FileOutcome::Skipped(SkipReason::AlreadyNamed)));
    assert!(!batch.record(FileOutcome::Failed));
    assert!(batch.is_stopped());
    assert_eq!(batch.attempted(), 3);
    assert_eq!(batch.renamed(), 1);
}
