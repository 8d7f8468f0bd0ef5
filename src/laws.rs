//! Facts about template rendering that hold for every template and record.
use vstd::prelude::*;
use crate::text::{digit_char, digits, padded_digits};
use crate::template::{
    Attribute, Fault, Metadata, Placeholder, attribute_text, lemma_prefixed_twice, placeholder_of,
    prefixed, render,
};

verus! {

/// The scan of `t` ends between placeholders: no `%` at its end waits for a key.
pub open spec fn complete(t: Seq<char>) -> bool
    decreases t.len(),
{
    if t.len() == 0 {
        true
    } else if t[0] != '%' {
        complete(t.drop_first())
    } else if t.len() == 1 {
        false
    } else {
        complete(t.skip(2))
    }
}

/// The rendering of `q` after a first part rendered as `first`.
pub open spec fn then_render(first: Result<Seq<char>, Fault>, q: Seq<char>, m: Metadata) -> Result<
    Seq<char>,
    Fault,
> {
    match first {
        Ok(x) => prefixed(x, render(q, m)),
        Err(f) => Err(f),
    }
}

/// A template whose scan ends between placeholders renders as itself
/// followed by whatever comes after it: the rendering of `p + q` is that of
/// `p`, then that of `q`, and the first fault from the left wins.
pub proof fn lemma_render_concat(p: Seq<char>, q: Seq<char>, m: Metadata)
    requires
        complete(p),
    ensures
        render(p + q, m) == then_render(render(p, m), q, m),
    decreases p.len(),
{
    if p.len() == 0 {
        assert(p + q =~= q);
        if let Ok(r) = render(q, m) {
            assert(p + r =~= r);
        }
    } else if p[0] != '%' {
        let tail = p.drop_first();
        assert((p + q).drop_first() =~= tail + q);
        assert((p + q)[0] == p[0]);
        lemma_render_concat(tail, q, m);
        if let Ok(x) = render(tail, m) {
            lemma_prefixed_twice(seq![p[0]], x, render(q, m));
        }
    } else {
        let tail = p.skip(2);
        assert((p + q).skip(2) =~= tail + q);
        assert((p + q)[0] == p[0]);
        assert((p + q)[1] == p[1]);
        lemma_render_concat(tail, q, m);
        if let Ok(x) = render(tail, m) {
            if let Ok(v) = crate::template::part(p[1], m) {
                lemma_prefixed_twice(v, x, render(q, m));
            }
        }
    }
}

/// A template without `%` renders as itself, whatever the record.
pub proof fn lemma_plain_text_unchanged(t: Seq<char>, m: Metadata)
    requires
        !t.contains('%'),
    ensures
        render(t, m) == Ok::<Seq<char>, Fault>(t),
    decreases t.len(),
{
    if t.len() > 0 {
        assert(t[0] != '%');
        let tail = t.drop_first();
        assert forall|c: char| tail.contains(c) implies c != '%' by {
            let j = choose|j: int| 0 <= j < tail.len() && tail[j] == c;
            assert(t[j + 1] == c);
        }
        lemma_plain_text_unchanged(tail, m);
        assert(seq![t[0]] + tail =~= t);
    } else {
        assert(t =~= Seq::<char>::empty());
    }
}

/// `%%` renders as a single percent sign, whatever the record.
pub proof fn lemma_double_percent(m: Metadata)
    ensures
        render(seq!['%', '%'], m) == Ok::<Seq<char>, Fault>(seq!['%']),
{
    let t = seq!['%', '%'];
    assert(t.skip(2) =~= Seq::<char>::empty());
    assert(render(Seq::<char>::empty(), m) == Ok::<Seq<char>, Fault>(Seq::empty()));
    assert(t[0] == '%' && t[1] == '%');
    assert(seq!['%'] + Seq::<char>::empty() =~= seq!['%']);
}

/// `% ` renders as a percent sign and a space, whatever the record.
pub proof fn lemma_percent_space(m: Metadata)
    ensures
        render(seq!['%', ' '], m) == Ok::<Seq<char>, Fault>(seq!['%', ' ']),
{
    let t = seq!['%', ' '];
    assert(t.skip(2) =~= Seq::<char>::empty());
    assert(render(Seq::<char>::empty(), m) == Ok::<Seq<char>, Fault>(Seq::empty()));
    assert(t[0] == '%' && t[1] == ' ');
    assert(seq!['%', ' '] + Seq::<char>::empty() =~= seq!['%', ' ']);
}

/// A `%` that ends the template, with no key after it, renders as `&` after
/// the rendering of what precedes it.
pub proof fn lemma_trailing_percent(p: Seq<char>, m: Metadata)
    requires
        complete(p),
    ensures
        render(p.push('%'), m) == then_render(render(p, m), seq!['%'], m),
        render(seq!['%'], m) == Ok::<Seq<char>, Fault>(seq!['&']),
{
    assert(p.push('%') =~= p + seq!['%']);
    lemma_render_concat(p, seq!['%'], m);
}

/// A placeholder for a tag that the record lacks makes the whole rendering
/// fail with that tag, whatever follows it, once what precedes it rendered.
pub proof fn lemma_missing_attribute_fails(
    p: Seq<char>,
    key: char,
    q: Seq<char>,
    m: Metadata,
    a: Attribute,
)
    requires
        complete(p),
        render(p, m) is Ok,
        placeholder_of(key) == Placeholder::Tag(a),
        attribute_text(m, a) is None,
    ensures
        render(p + seq!['%', key] + q, m) == Err::<Seq<char>, Fault>(Fault::Missing(a)),
{
    assert(p + seq!['%', key] + q =~= p + (seq!['%', key] + q));
    lemma_render_concat(p, seq!['%', key] + q, m);
    let r = seq!['%', key] + q;
    assert(r[0] == '%');
    assert(r[1] == key);
}

/// A `%` followed by a character that is no key makes the whole rendering
/// fail as malformed, whatever follows it, once what precedes it rendered.
pub proof fn lemma_invalid_key_fails(p: Seq<char>, key: char, q: Seq<char>, m: Metadata)
    requires
        complete(p),
        render(p, m) is Ok,
        key != 'a' && key != 'A' && key != 't' && key != 'b' && key != 'y' && key != 'n'
            && key != 'g' && key != 'c' && key != 'd' && key != ' ' && key != '%',
    ensures
        render(p + seq!['%', key] + q, m) == Err::<Seq<char>, Fault>(Fault::Invalid),
{
    assert(p + seq!['%', key] + q =~= p + (seq!['%', key] + q));
    lemma_render_concat(p, seq!['%', key] + q, m);
    let r = seq!['%', key] + q;
    assert(r[0] == '%');
    assert(r[1] == key);
}

/// A track number is written with at least two digits: one below ten gets a
/// leading zero, and a larger one is written in full, never cut.
pub proof fn lemma_track_number_width(n: nat)
    ensures
        padded_digits(n).len() >= 2,
        n < 10 ==> padded_digits(n) == seq!['0', digit_char(n)],
        n >= 10 ==> padded_digits(n) == digits(n),
{
    if n < 10 {
        assert(seq!['0'] + seq![digit_char(n)] =~= seq!['0', digit_char(n)]);
    } else {
        assert(digits(n) == digits(n / 10) + seq![digit_char(n % 10)]);
        lemma_digits_nonempty(n / 10);
    }
}

proof fn lemma_digits_nonempty(n: nat)
    ensures
        digits(n).len() >= 1,
    decreases n,
{
    if n >= 10 {
        lemma_digits_nonempty(n / 10);
    }
}

} // verus!
