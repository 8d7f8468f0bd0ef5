//! What to do with one file, given its name and its rendered template, and
//! the bookkeeping of a batch that stops at the first failure.
use vstd::prelude::*;
use crate::template::{FormatError, Metadata, format_name, outcome_is, render};
use crate::text::same_text;

verus! {

/// Why a file is left as it is. None of these is an error.
#[derive(Clone, Copy, Debug, PartialEq, Eq, Structural)]
pub enum SkipReason {
    /// The file name has no extension.
    MissingExtension,
    /// The extension is not one of the audio formats handled.
    UnsupportedExtension,
    /// The file already has the name that the template gives.
    AlreadyNamed,
}

/// What to do with one file.
#[derive(Clone, Debug, PartialEq, Eq)]
pub enum Action {
    Skip(SkipReason),
    /// Rename the file to this name, extension included, in its directory.
    Rename(String),
}

/// The extensions of the audio files handled, compared case-sensitively:
/// `mp3`, `m4a`, `mp4` and `flac`.
pub open spec fn audio_extension(e: Seq<char>) -> bool {
    e == seq!['m', 'p', '3'] || e == seq!['m', '4', 'a'] || e == seq!['m', 'p', '4'] || e
        == seq!['f', 'l', 'a', 'c']
}

/// The skip, if any, that a file's extension alone decides.
pub open spec fn extension_skip(extension: Option<Seq<char>>) -> Option<SkipReason> {
    match extension {
        None => Some(SkipReason::MissingExtension),
        Some(e) => if audio_extension(e) {
            None
        } else {
            Some(SkipReason::UnsupportedExtension)
        },
    }
}

/// The file name `name.extension`.
pub open spec fn file_name(name: Seq<char>, extension: Seq<char>) -> Seq<char> {
    name + seq!['.'] + extension
}

/// `a` is the action for a file of stem `stem` and extension `extension`
/// whose template rendered as `rendered`.
pub open spec fn planned(a: Action, stem: Seq<char>, extension: Seq<char>, rendered: Seq<char>) -> bool {
    if rendered == stem {
        a == Action::Skip(SkipReason::AlreadyNamed)
    } else {
        a is Rename && a->Rename_0@ == file_name(rendered, extension)
    }
}

/// Whether `extension` is that of an audio file handled.
pub fn is_audio_extension(extension: &str) -> (r: bool)
    ensures
        r == audio_extension(extension@),
{
    proof {
        reveal_strlit("mp3");
        reveal_strlit("m4a");
        reveal_strlit("mp4");
        reveal_strlit("flac");
    }
    let r = same_text(extension, "mp3") || same_text(extension, "m4a") || same_text(
        extension,
        "mp4",
    ) || same_text(extension, "flac");
    assert("mp3"@ =~= seq!['m', 'p', '3']);
    assert("m4a"@ =~= seq!['m', '4', 'a']);
    assert("mp4"@ =~= seq!['m', 'p', '4']);
    assert("flac"@ =~= seq!['f', 'l', 'a', 'c']);
    r
}

/// The skip, if any, that a file's extension alone decides, before its tags
/// are read.
pub fn screen_extension(extension: Option<&str>) -> (r: Option<SkipReason>)
    ensures
        r == extension_skip(
            match extension {
                Some(e) => Some(e@),
                None => None,
            },
        ),
{
    match extension {
        None => Some(SkipReason::MissingExtension),
        Some(e) => if is_audio_extension(e) {
            None
        } else {
            Some(SkipReason::UnsupportedExtension)
        },
    }
}

/// The action for a file of stem `stem` and extension `extension` whose
/// template rendered as `rendered`: nothing if the name is already right,
/// else a rename that keeps the extension.
pub fn plan_rename(stem: &str, extension: &str, rendered: String) -> (a: Action)
    ensures
        planned(a, stem@, extension@, rendered@),
{
    if same_text(rendered.as_str(), stem) {
        Action::Skip(SkipReason::AlreadyNamed)
    } else {
        proof {
            reveal_strlit(".");
        }
        let mut name = rendered;
        name.append(".");
        name.append(extension);
        assert(name@ =~= file_name(rendered@, extension@));
        Action::Rename(name)
    }
}

/// The action for a file with an audio extension, once its tags are read:
/// the template is rendered against them, and a failure to render is the
/// file's failure.
pub fn decide(template: &str, tags: &Metadata, stem: &str, extension: &str) -> (r: Result<
    Action,
    FormatError,
>)
    ensures
        match render(template@, *tags) {
            Ok(t) => r is Ok && planned(r->Ok_0, stem@, extension@, t),
            Err(f) => r is Err && outcome_is(Err(r->Err_0), Err(f)),
        },
        render(template@, *tags) == Ok::<Seq<char>, crate::template::Fault>(stem@) ==> r == Ok::<
            Action,
            FormatError,
        >(Action::Skip(SkipReason::AlreadyNamed)),
{
    match format_name(tags, template) {
        Ok(name) => Ok(plan_rename(stem, extension, name)),
        Err(e) => Err(e),
    }
}

/// How the handling of one file of a batch ended.
#[derive(Clone, Copy, Debug, PartialEq, Eq, Structural)]
pub enum FileOutcome {
    Renamed,
    Skipped(SkipReason),
    /// Reading the tags, rendering the template or renaming failed.
    Failed,
}

/// The state of a batch of files handled one after the other. The first
/// failure stops the batch: no file after it is attempted, and the files
/// renamed before it stay renamed.
pub struct Batch {
    attempted: u64,
    renamed: u64,
    stopped: bool,
}

impl Batch {
    pub closed spec fn spec_attempted(&self) -> nat {
        self.attempted as nat
    }

    pub closed spec fn spec_renamed(&self) -> nat {
        self.renamed as nat
    }

    pub closed spec fn spec_stopped(&self) -> bool {
        self.stopped
    }

    /// A batch before its first file.
    pub fn new() -> (r: Batch)
        ensures
            r.spec_attempted() == 0,
            r.spec_renamed() == 0,
            !r.spec_stopped(),
    {
        Batch { attempted: 0, renamed: 0, stopped: false }
    }

    /// Whether a failure has stopped the batch.
    pub fn is_stopped(&self) -> (r: bool)
        ensures
            r == self.spec_stopped(),
    {
        self.stopped
    }

    /// How many files were attempted, the failed one included.
    pub fn attempted(&self) -> (r: u64)
        ensures
            r == self.spec_attempted(),
    {
        self.attempted
    }

    /// How many files were renamed.
    pub fn renamed(&self) -> (r: u64)
        ensures
            r == self.spec_renamed(),
    {
        self.renamed
    }

    /// Records how the next file ended, and answers whether the batch goes
    /// on to the file after it. Counts stop growing at `u64::MAX`.
    pub fn record(&mut self, outcome: FileOutcome) -> (go_on: bool)
        requires
            !old(self).spec_stopped(),
        ensures
            go_on == !(outcome is Failed),
            final(self).spec_stopped() == !go_on,
            final(self).spec_attempted() == if old(self).spec_attempted() < u64::MAX {
                old(self).spec_attempted() + 1
            } else {
                old(self).spec_attempted()
            },
            final(self).spec_renamed() == if outcome is Renamed && old(self).spec_renamed()
                < u64::MAX {
                old(self).spec_renamed() + 1
            } else {
                old(self).spec_renamed()
            },
    {
        self.attempted = self.attempted.saturating_add(1);
        match outcome {
            FileOutcome::Renamed => {
                self.renamed = self.renamed.saturating_add(1);
                true
            },
            FileOutcome::Skipped(_) => true,
            FileOutcome::Failed => {
                self.stopped = true;
                false
            },
        }
    }
}

} // verus!
