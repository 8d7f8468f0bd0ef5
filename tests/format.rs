use tag_rename::template::{format_name, Attribute, FormatError, Metadata};

fn track_and_title() -> Metadata {
    let mut tag = Metadata::new();
    tag.track_number = Some(1);
    tag.title = Some("Cool music".to_string());
    tag
}

#[test]
fn title_and_track_number() {
    let tag = track_and_title();
    let result = format_name(&tag, "%n - %t").unwrap();
    assert_eq!(result, "01 - Cool music".to_string());
}

#[test]
fn tag_missing_result_to_error() {
    let tag = Metadata::new();
    assert_eq!(
        format_name(&tag, "%n - %t"),
        Err(FormatError::AttributeMissing("Track number".to_string()))
    );
}

#[test]
fn trailing_percentage() {
    let tag = track_and_title();
    let result = format_name(&tag, "%n - %t &").unwrap();
    assert_eq!(result, "01 - Cool music &".to_string());
}

#[test]
fn double_percentage() {
    let tag = track_and_title();
    let result = format_name(&tag, "%n %% %t").unwrap();
    assert_eq!(result, "01 % Cool music".to_string());
}

#[test]
fn single_percentage_with_space() {
    let tag = track_and_title();
    let result = format_name(&tag, "%n % %t").unwrap();
    assert_eq!(result, "01 % Cool music".to_string());
}

#[test]
fn plain_template_is_unchanged() {
    let tag = track_and_title();
    assert_eq!(format_name(&tag, "just a name"), Ok("just a name".to_string()));
    assert_eq!(format_name(&Metadata::new(), ""), Ok("".to_string()));
}

#[test]
fn escaped_percent_alone() {
    assert_eq!(format_name(&Metadata::new(), "%%"), Ok("%".to_string()));
}

#[test]
fn percent_space_alone() {
    assert_eq!(format_name(&Metadata::new(), "% "), Ok("% ".to_string()));
}

#[test]
fn lone_trailing_percent_becomes_ampersand() {
    let tag = track_and_title();
    assert_eq!(format_name(&tag, "%n - %t %"), Ok("01 - Cool music &".to_string()));
    assert_eq!(format_name(&Metadata::new(), "%"), Ok("&".to_string()));
    assert_eq!(format_name(&Metadata::new(), "%%%"), Ok("%&".to_string()));
}

#[test]
fn each_missing_attribute_has_its_label() {
    let cases = [
        ("%a", "Artist"),
        ("%A", "Album artists"),
        ("%t", "Title"),
        ("%b", "Album"),
        ("%y", "Date"),
        ("%n", "Track number"),
        ("%g", "Genre"),
        ("%c", "Composer"),
        ("%d", "Disc"),
    ];
    for (template, label) in cases {
        assert_eq!(
            format_name(&Metadata::new(), template),
            Err(FormatError::AttributeMissing(label.to_string()))
        );
    }
}

#[test]
fn attribute_labels() {
    assert_eq!(Attribute::AlbumArtists.label(), "Album artists".to_string());
    assert_eq!(Attribute::Year.label(), "Date".to_string());
}

#[test]
fn missing_attribute_discards_earlier_output() {
    let tag = track_and_title();
    assert_eq!(
        format_name(&tag, "%n - %t - %b"),
        Err(FormatError::AttributeMissing("Album".to_string()))
    );
}

#[test]
fn unknown_key_is_invalid() {
    let tag = track_and_title();
    assert_eq!(format_name(&tag, "%n %x"), Err(FormatError::InvalidFormat));
    assert_eq!(format_name(&tag, "%T"), Err(FormatError::InvalidFormat));
    assert_eq!(format_name(&tag, "%5"), Err(FormatError::InvalidFormat));
}

#[test]
fn first_failing_placeholder_decides() {
    assert_eq!(format_name(&Metadata::new(), "%x%t"), Err(FormatError::InvalidFormat));
    assert_eq!(
        format_name(&Metadata::new(), "%t%x"),
        Err(FormatError::AttributeMissing("Title".to_string()))
    );
}

#[test]
fn track_number_padding() {
    let mut tag = Metadata::new();
    tag.track_number = Some(1);
    assert_eq!(format_name(&tag, "%n"), Ok("01".to_string()));
    tag.track_number = Some(12);
    assert_eq!(format_name(&tag, "%n"), Ok("12".to_string()));
    tag.track_number = Some(123);
    assert_eq!(format_name(&tag, "%n"), Ok("123".to_string()));
    tag.track_number = Some(0);
    assert_eq!(format_name(&tag, "%n"), Ok("00".to_string()));
    tag.track_number = Some(65535);
    assert_eq!(format_name(&tag, "%n"), Ok("65535".to_string()));
}

#[test]
fn disc_and_year_in_decimal() {
    let mut tag = Metadata::new();
    tag.disc_number = Some(1);
    tag.year = Some(1999);
    assert_eq!(format_name(&tag, "%d/%y"), Ok("1/1999".to_string()));
    tag.disc_number = Some(123);
    tag.year = Some(-44);
    assert_eq!(format_name(&tag, "%d %y"), Ok("123 -44".to_string()));
    tag.year = Some(i32::MIN);
    assert_eq!(format_name(&tag, "%y"), Ok("-2147483648".to_string()));
}

#[test]
fn artists_are_joined() {
    let mut tag = Metadata::new();
    tag.artists = Some(vec!["Ann".to_string(), "Bo".to_string(), "Cy".to_string()]);
    tag.album_artists = Some(vec!["Solo".to_string()]);
    assert_eq!(format_name(&tag, "%a | %A"), Ok("Ann, Bo, Cy | Solo".to_string()));
    tag.artists = Some(vec![]);
    assert_eq!(format_name(&tag, "[%a]"), Ok("[]".to_string()));
}

#[test]
fn empty_value_is_not_missing() {
    let mut tag = Metadata::new();
    tag.title = Some(String::new());
    tag.genre = Some("Jazz".to_string());
    tag.composer = Some("Ellington".to_string());
    tag.album_title = Some("Live".to_string());
    assert_eq!(format_name(&tag, "[%t] %g %c %b"), Ok("[] Jazz Ellington Live".to_string()));
}

#[test]
fn non_ascii_text_is_kept() {
    let mut tag = Metadata::new();
    tag.title = Some("Café ♫".to_string());
    assert_eq!(format_name(&tag, "é %t ü"), Ok("é Café ♫ ü".to_string()));
}
