//! Decimal rendering of integers and joining of names, on `String`.
use vstd::prelude::*;

verus! {

/// The ASCII digit for `d`, which is below ten.
pub open spec fn digit_char(d: nat) -> char {
    (48 + d) as char
}

/// Decimal digits of `n`, most significant first, without leading zeros.
pub open spec fn digits(n: nat) -> Seq<char>
    decreases n,
{
    if n < 10 {
        seq![digit_char(n)]
    } else {
        digits(n / 10) + seq![digit_char(n % 10)]
    }
}

/// `n` in decimal, with a leading `-` when it is negative.
pub open spec fn signed_digits(n: int) -> Seq<char> {
    if n < 0 {
        seq!['-'] + digits((-n) as nat)
    } else {
        digits(n as nat)
    }
}

/// `n` in decimal, padded with a leading zero to at least two digits.
pub open spec fn padded_digits(n: nat) -> Seq<char> {
    if n < 10 {
        seq!['0'] + digits(n)
    } else {
        digits(n)
    }
}

/// The one-character string for the digit `d`.
fn digit_string(d: u64) -> (r: String)
    requires
        d < 10,
    ensures
        r@ == seq![digit_char(d as nat)],
{
    let all = "0123456789";
    proof {
        reveal_strlit("0123456789");
    }
    let one = all.substring_char(d as usize, d as usize + 1);
    assert(one@ =~= seq![digit_char(d as nat)]);
    String::from_str(one)
}

/// `n` in decimal.
pub fn decimal(n: u64) -> (r: String)
    ensures
        r@ == digits(n as nat),
    decreases n,
{
    if n < 10 {
        digit_string(n)
    } else {
        let mut s = decimal(n / 10);
        let last = digit_string(n % 10);
        s.append(last.as_str());
        s
    }
}

/// `n` in decimal, with a leading `-` when it is negative.
pub fn signed_decimal(n: i64) -> (r: String)
    ensures
        r@ == signed_digits(n as int),
{
    if n < 0 {
        let magnitude: u64 = if n == i64::MIN {
            9223372036854775808u64
        } else {
            (-n) as u64
        };
        let tail = decimal(magnitude);
        let minus = "-";
        proof {
            reveal_strlit("-");
        }
        String::from_str(minus).concat(tail.as_str())
    } else {
        decimal(n as u64)
    }
}

/// `n` in decimal, padded with a leading zero to at least two digits.
pub fn padded_decimal(n: u64) -> (r: String)
    ensures
        r@ == padded_digits(n as nat),
{
    let s = decimal(n);
    if n < 10 {
        let zero = "0";
        proof {
            reveal_strlit("0");
        }
        String::from_str(zero).concat(s.as_str())
    } else {
        s
    }
}

/// The characters of each string, in order.
pub open spec fn texts(v: Seq<String>) -> Seq<Seq<char>> {
    v.map_values(|s: String| s@)
}

/// The separator between joined names.
pub open spec fn name_separator() -> Seq<char> {
    seq![',', ' ']
}

/// `parts` joined, with `sep` between each two neighbours.
pub open spec fn joined(parts: Seq<Seq<char>>, sep: Seq<char>) -> Seq<char>
    decreases parts.len(),
{
    if parts.len() == 0 {
        Seq::empty()
    } else if parts.len() == 1 {
        parts[0]
    } else {
        joined(parts.drop_last(), sep) + sep + parts.last()
    }
}

/// The names joined with `", "` between each two neighbours.
pub fn join_names(names: &Vec<String>) -> (r: String)
    ensures
        r@ == joined(texts(names@), name_separator()),
{
    let mut out = String::new();
    let sep = ", ";
    proof {
        reveal_strlit(", ");
    }
    let mut i: usize = 0;
    while i < names.len()
        invariant
            i <= names@.len(),
            sep@ == name_separator(),
            out@ == joined(texts(names@.subrange(0, i as int)), name_separator()),
        decreases names@.len() - i,
    {
        proof {
            let done = texts(names@.subrange(0, i as int));
            let next = texts(names@.subrange(0, i as int + 1));
            assert(next.drop_last() =~= done);
            assert(next.last() == names@[i as int]@);
        }
        if i > 0 {
            out.append(sep);
        }
        out.append(names[i].as_str());
        i = i + 1;
    }
    assert(names@.subrange(0, i as int) =~= names@);
    out
}

/// Whether the two strings hold the same characters.
pub fn same_text(a: &str, b: &str) -> (r: bool)
    ensures
        r == (a@ == b@),
{
    let n = a.unicode_len();
    if n != b.unicode_len() {
        return false;
    }
    let mut i: usize = 0;
    while i < n
        invariant
            n == a@.len(),
            n == b@.len(),
            i <= n,
            forall|j: int| 0 <= j < i ==> a@[j] == b@[j],
        decreases n - i,
    {
        if a.get_char(i) != b.get_char(i) {
            return false;
        }
        i = i + 1;
    }
    assert(a@ =~= b@);
    true
}

} // verus!
