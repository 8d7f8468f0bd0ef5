//! The filename template: `%` followed by one key character stands for a tag
//! of the record, `%%` for a percent sign and `% ` for a percent sign and a
//! space; every other character is copied as it is.
use vstd::prelude::*;
use crate::text::{
    decimal, digits, join_names, joined, name_separator, padded_decimal, padded_digits,
    signed_decimal, signed_digits, texts,
};

verus! {

/// The tags of an audio file that a template can name. `None` means that the
/// file does not carry the tag, which is not the same as an empty value.
pub struct Metadata {
    pub artists: Option<Vec<String>>,
    pub album_artists: Option<Vec<String>>,
    pub title: Option<String>,
    pub album_title: Option<String>,
    pub year: Option<i32>,
    pub track_number: Option<u16>,
    pub genre: Option<String>,
    pub composer: Option<String>,
    pub disc_number: Option<u16>,
}

/// A tag that a placeholder stands for.
#[derive(Clone, Copy, Debug, PartialEq, Eq, Structural)]
pub enum Attribute {
    Artist,
    AlbumArtists,
    Title,
    Album,
    Year,
    TrackNumber,
    Genre,
    Composer,
    Disc,
}

/// What the character after a `%` asks for.
#[derive(Clone, Copy, Debug, PartialEq, Eq, Structural)]
pub enum Placeholder {
    Tag(Attribute),
    /// `% `: a percent sign and a space.
    PercentSpace,
    /// `%%`: a percent sign.
    Percent,
    /// Any other character.
    Invalid,
}

/// Why a template could not be rendered.
#[derive(Clone, Debug, PartialEq, Eq)]
pub enum FormatError {
    /// The record lacks the tag with this label.
    AttributeMissing(String),
    /// The template holds a `%` followed by a character that is no key.
    InvalidFormat,
}

/// Why rendering stopped, in terms of the template's model.
pub enum Fault {
    Missing(Attribute),
    Invalid,
}

pub open spec fn placeholder_of(key: char) -> Placeholder {
    if key == 'a' {
        Placeholder::Tag(Attribute::Artist)
    } else if key == 'A' {
        Placeholder::Tag(Attribute::AlbumArtists)
    } else if key == 't' {
        Placeholder::Tag(Attribute::Title)
    } else if key == 'b' {
        Placeholder::Tag(Attribute::Album)
    } else if key == 'y' {
        Placeholder::Tag(Attribute::Year)
    } else if key == 'n' {
        Placeholder::Tag(Attribute::TrackNumber)
    } else if key == 'g' {
        Placeholder::Tag(Attribute::Genre)
    } else if key == 'c' {
        Placeholder::Tag(Attribute::Composer)
    } else if key == 'd' {
        Placeholder::Tag(Attribute::Disc)
    } else if key == ' ' {
        Placeholder::PercentSpace
    } else if key == '%' {
        Placeholder::Percent
    } else {
        Placeholder::Invalid
    }
}

/// The human-readable name of a tag, as errors report it.
pub open spec fn label(a: Attribute) -> Seq<char> {
    match a {
        Attribute::Artist => seq!['A', 'r', 't', 'i', 's', 't'],
        Attribute::AlbumArtists => seq![
            'A', 'l', 'b', 'u', 'm', ' ', 'a', 'r', 't', 'i', 's', 't', 's'
        ],
        Attribute::Title => seq!['T', 'i', 't', 'l', 'e'],
        Attribute::Album => seq!['A', 'l', 'b', 'u', 'm'],
        Attribute::Year => seq!['D', 'a', 't', 'e'],
        Attribute::TrackNumber => seq![
            'T', 'r', 'a', 'c', 'k', ' ', 'n', 'u', 'm', 'b', 'e', 'r'
        ],
        Attribute::Genre => seq!['G', 'e', 'n', 'r', 'e'],
        Attribute::Composer => seq!['C', 'o', 'm', 'p', 'o', 's', 'e', 'r'],
        Attribute::Disc => seq!['D', 'i', 's', 'c'],
    }
}

pub open spec fn text_of(s: Option<String>) -> Option<Seq<char>> {
    match s {
        Some(v) => Some(v@),
        None => None,
    }
}

pub open spec fn names_of(v: Option<Vec<String>>) -> Option<Seq<char>> {
    match v {
        Some(names) => Some(joined(texts(names@), name_separator())),
        None => None,
    }
}

/// How the record's value of a tag is written into a name, if it has one.
pub open spec fn attribute_text(m: Metadata, a: Attribute) -> Option<Seq<char>> {
    match a {
        Attribute::Artist => names_of(m.artists),
        Attribute::AlbumArtists => names_of(m.album_artists),
        Attribute::Title => text_of(m.title),
        Attribute::Album => text_of(m.album_title),
        Attribute::Year => match m.year {
            Some(y) => Some(signed_digits(y as int)),
            None => None,
        },
        Attribute::TrackNumber => match m.track_number {
            Some(n) => Some(padded_digits(n as nat)),
            None => None,
        },
        Attribute::Genre => text_of(m.genre),
        Attribute::Composer => text_of(m.composer),
        Attribute::Disc => match m.disc_number {
            Some(n) => Some(digits(n as nat)),
            None => None,
        },
    }
}

/// What `%` followed by `key` becomes.
pub open spec fn part(key: char, m: Metadata) -> Result<Seq<char>, Fault> {
    match placeholder_of(key) {
        Placeholder::Tag(a) => match attribute_text(m, a) {
            Some(t) => Ok(t),
            None => Err(Fault::Missing(a)),
        },
        Placeholder::PercentSpace => Ok(seq!['%', ' ']),
        Placeholder::Percent => Ok(seq!['%']),
        Placeholder::Invalid => Err(Fault::Invalid),
    }
}

/// `head` put in front of a successful rendering; a fault stays as it is.
pub open spec fn prefixed(head: Seq<char>, rest: Result<Seq<char>, Fault>) -> Result<Seq<char>, Fault> {
    match rest {
        Ok(r) => Ok(head + r),
        Err(f) => Err(f),
    }
}

/// The rendering of template `t` against record `m`, read from the left: the
/// first placeholder that fails decides the fault. A `%` that ends the template
/// becomes `&`.
pub open spec fn render(t: Seq<char>, m: Metadata) -> Result<Seq<char>, Fault>
    decreases t.len(),
{
    if t.len() == 0 {
        Ok(Seq::empty())
    } else if t[0] != '%' {
        prefixed(seq![t[0]], render(t.drop_first(), m))
    } else if t.len() == 1 {
        Ok(seq!['&'])
    } else {
        match part(t[1], m) {
            Ok(p) => prefixed(p, render(t.skip(2), m)),
            Err(f) => Err(f),
        }
    }
}

/// The executable outcome `r` is the modelled outcome `s`.
pub open spec fn outcome_is(r: Result<String, FormatError>, s: Result<Seq<char>, Fault>) -> bool {
    match s {
        Ok(t) => r is Ok && r->Ok_0@ == t,
        Err(Fault::Missing(a)) => r is Err && r->Err_0 is AttributeMissing
            && r->Err_0->AttributeMissing_0@ == label(a),
        Err(Fault::Invalid) => r is Err && r->Err_0 is InvalidFormat,
    }
}

/// Reads the character after a `%`.
pub fn parse_key(key: char) -> (p: Placeholder)
    ensures
        p == placeholder_of(key),
{
    match key {
        'a' => Placeholder::Tag(Attribute::Artist),
        'A' => Placeholder::Tag(Attribute::AlbumArtists),
        't' => Placeholder::Tag(Attribute::Title),
        'b' => Placeholder::Tag(Attribute::Album),
        'y' => Placeholder::Tag(Attribute::Year),
        'n' => Placeholder::Tag(Attribute::TrackNumber),
        'g' => Placeholder::Tag(Attribute::Genre),
        'c' => Placeholder::Tag(Attribute::Composer),
        'd' => Placeholder::Tag(Attribute::Disc),
        ' ' => Placeholder::PercentSpace,
        '%' => Placeholder::Percent,
        _ => Placeholder::Invalid,
    }
}

impl Attribute {
    /// The human-readable name of the tag.
    pub fn label(&self) -> (r: String)
        ensures
            r@ == label(*self),
    {
        let r = match self {
            Attribute::Artist => {
                proof {
                    reveal_strlit("Artist");
                }
                String::from_str("Artist")
            },
            Attribute::AlbumArtists => {
                proof {
                    reveal_strlit("Album artists");
                }
                String::from_str("Album artists")
            },
            Attribute::Title => {
                proof {
                    reveal_strlit("Title");
                }
                String::from_str("Title")
            },
            Attribute::Album => {
                proof {
                    reveal_strlit("Album");
                }
                String::from_str("Album")
            },
            Attribute::Year => {
                proof {
                    reveal_strlit("Date");
                }
                String::from_str("Date")
            },
            Attribute::TrackNumber => {
                proof {
                    reveal_strlit("Track number");
                }
                String::from_str("Track number")
            },
            Attribute::Genre => {
                proof {
                    reveal_strlit("Genre");
                }
                String::from_str("Genre")
            },
            Attribute::Composer => {
                proof {
                    reveal_strlit("Composer");
                }
                String::from_str("Composer")
            },
            Attribute::Disc => {
                proof {
                    reveal_strlit("Disc");
                }
                String::from_str("Disc")
            },
        };
        assert(r@ =~= label(*self));
        r
    }
}

fn copy_text(s: &Option<String>) -> (r: Option<String>)
    ensures
        text_of(r) == text_of(*s),
{
    match s {
        Some(v) => Some(String::from_str(v.as_str())),
        None => None,
    }
}

fn copy_names(v: &Option<Vec<String>>) -> (r: Option<String>)
    ensures
        text_of(r) == names_of(*v),
{
    match v {
        Some(names) => Some(join_names(names)),
        None => None,
    }
}

impl Metadata {
    /// A record without any tag.
    pub fn new() -> (r: Metadata)
        ensures
            r.artists is None && r.album_artists is None && r.title is None && r.album_title is None
                && r.year is None && r.track_number is None && r.genre is None && r.composer is None
                && r.disc_number is None,
    {
        Metadata {
            artists: None,
            album_artists: None,
            title: None,
            album_title: None,
            year: None,
            track_number: None,
            genre: None,
            composer: None,
            disc_number: None,
        }
    }

    /// How the record's value of tag `a` is written into a name, if it has one.
    pub fn attribute(&self, a: Attribute) -> (r: Option<String>)
        ensures
            text_of(r) == attribute_text(*self, a),
    {
        match a {
            Attribute::Artist => copy_names(&self.artists),
            Attribute::AlbumArtists => copy_names(&self.album_artists),
            Attribute::Title => copy_text(&self.title),
            Attribute::Album => copy_text(&self.album_title),
            Attribute::Year => match self.year {
                Some(y) => Some(signed_decimal(y as i64)),
                None => None,
            },
            Attribute::TrackNumber => match self.track_number {
                Some(n) => Some(padded_decimal(n as u64)),
                None => None,
            },
            Attribute::Genre => copy_text(&self.genre),
            Attribute::Composer => copy_text(&self.composer),
            Attribute::Disc => match self.disc_number {
                Some(n) => Some(decimal(n as u64)),
                None => None,
            },
        }
    }
}

/// What `%` followed by `key` becomes for record `tags`.
pub fn parse_part(key: char, tags: &Metadata) -> (r: Result<String, FormatError>)
    ensures
        outcome_is(r, part(key, *tags)),
{
    match parse_key(key) {
        Placeholder::Tag(a) => match tags.attribute(a) {
            Some(v) => Ok(v),
            None => Err(FormatError::AttributeMissing(a.label())),
        },
        Placeholder::PercentSpace => {
            proof {
                reveal_strlit("% ");
            }
            let r = String::from_str("% ");
            assert(r@ =~= seq!['%', ' ']);
            Ok(r)
        },
        Placeholder::Percent => {
            proof {
                reveal_strlit("%");
            }
            let r = String::from_str("%");
            assert(r@ =~= seq!['%']);
            Ok(r)
        },
        Placeholder::Invalid => Err(FormatError::InvalidFormat),
    }
}

/// Putting `a`, then `b`, in front of a rendering is putting `a + b` there.
pub proof fn lemma_prefixed_twice(a: Seq<char>, b: Seq<char>, rest: Result<Seq<char>, Fault>)
    ensures
        prefixed(a, prefixed(b, rest)) == prefixed(a + b, rest),
{
    if let Ok(r) = rest {
        assert(a + (b + r) =~= (a + b) + r);
    }
}

/// The template used when none is given: track number, then title.
pub open spec fn default_template() -> Seq<char> {
    seq!['%', 'n', ' ', '-', ' ', '%', 't']
}

/// The template used when none is given: `%n - %t`.
pub fn default_format() -> (r: String)
    ensures
        r@ == default_template(),
{
    proof {
        reveal_strlit("%n - %t");
    }
    let r = String::from_str("%n - %t");
    assert(r@ =~= default_template());
    r
}

/// Renders template `format` against record `tags`: every placeholder is
/// replaced by what it stands for, and the first one that cannot be filled
/// makes the whole rendering fail.
pub fn format_name(tags: &Metadata, format: &str) -> (r: Result<String, FormatError>)
    ensures
        outcome_is(r, render(format@, *tags)),
{
    let t = Ghost(format@);
    let n = format.unicode_len();
    let mut name = String::new();
    let mut i: usize = 0;
    proof {
        assert(t@.skip(0) =~= t@);
        if let Ok(r) = render(t@, *tags) {
            assert(name@ + r =~= r);
        }
    }
    while i < n
        invariant
            n == t@.len(),
            t@ == format@,
            i <= n,
            render(t@, *tags) == prefixed(name@, render(t@.skip(i as int), *tags)),
        decreases n - i,
    {
        let next = format.get_char(i);
        let ghost rest = t@.skip(i as int);
        assert(rest[0] == next);
        if next == '%' {
            if i + 1 < n {
                let key = format.get_char(i + 1);
                assert(rest[1] == key);
                assert(rest.skip(2) =~= t@.skip(i + 2));
                match parse_part(key, tags) {
                    Ok(value) => {
                        proof {
                            lemma_prefixed_twice(name@, value@, render(t@.skip(i + 2), *tags));
                        }
                        name.append(value.as_str());
                        i = i + 2;
                    },
                    Err(e) => {
                        assert(render(t@, *tags) == render(rest, *tags));
                        return Err(e);
                    },
                }
            } else {
                proof {
                    reveal_strlit("&");
                }
                name.append("&");
                assert(name@ =~= render(t@, *tags)->Ok_0);
                return Ok(name);
            }
        } else {
            let one = format.substring_char(i, i + 1);
            assert(one@ =~= seq![next]);
            assert(rest.drop_first() =~= t@.skip(i + 1));
            proof {
                lemma_prefixed_twice(name@, one@, render(t@.skip(i + 1), *tags));
            }
            name.append(one);
            i = i + 1;
        }
    }
    assert(t@.skip(i as int) =~= Seq::<char>::empty());
    assert(name@ + Seq::<char>::empty() =~= name@);
    Ok(name)
}

} // verus!
