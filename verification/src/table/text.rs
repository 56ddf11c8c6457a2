//! Text helpers for row types: the characters of a string, ASCII case
//! folding, substring containment, and decimal rendering of integers.

use vstd::prelude::*;

verus! {

/// Relies on str::chars: yields exactly the characters of the string,
/// in order; collecting them is a plain conversion.
#[verifier::external_body]
pub(crate) fn str_chars(s: &str) -> (r: Vec<char>)
    ensures
        r@ == s@,
{
    s.chars().collect()
}

/// Relies on String's FromIterator: builds the string holding exactly
/// these characters, in order.
#[verifier::external_body]
pub(crate) fn chars_string(v: &Vec<char>) -> (r: String)
    ensures
        r@ == v@,
{
    v.iter().collect()
}

/// Decides equality of two string slices.
pub fn str_eq(a: &str, b: &str) -> (r: bool)
    ensures
        r == (a@ == b@),
{
    let a_owned: String = a.to_owned();
    let b_owned: String = b.to_owned();
    a_owned == b_owned
}

/// ASCII case folding of one character: 'A'..'Z' fold to 'a'..'z',
/// every other character is unchanged.
pub open spec fn fold_char(c: char) -> char {
    if 'A' <= c && c <= 'Z' {
        (((c as u8) + 32) as char)
    } else {
        c
    }
}

/// ASCII case folding of a character sequence.
pub open spec fn fold_seq(s: Seq<char>) -> Seq<char> {
    s.map_values(|c: char| fold_char(c))
}

/// Folds every character of a vector to its ASCII lower case.
pub fn fold_chars(v: &Vec<char>) -> (r: Vec<char>)
    ensures
        r@ == fold_seq(v@),
{
    let mut out: Vec<char> = Vec::new();
    let mut i: usize = 0;
    while i < v.len()
        invariant
            0 <= i <= v@.len(),
            out@.len() == i,
            forall|j: int| 0 <= j < i ==> out@[j] == fold_char(v@[j]),
        decreases v@.len() - i,
    {
        let c = v[i];
        if c >= 'A' && c <= 'Z' {
            out.push((((c as u8) + 32) as char));
        } else {
            out.push(c);
        }
        i = i + 1;
    }
    proof {
        assert(out@ =~= fold_seq(v@));
    }
    out
}

/// Whether `sub` occurs contiguously inside `s`; the empty sequence
/// occurs in every sequence.
pub open spec fn contains_sub(s: Seq<char>, sub: Seq<char>) -> bool {
    exists|i: int|
        0 <= i && i + sub.len() <= s.len() && #[trigger] s.subrange(i, i + sub.len()) == sub
}

/// The empty sequence occurs in every sequence, at its start.
pub proof fn lemma_contains_empty(s: Seq<char>, sub: Seq<char>)
    requires
        sub.len() == 0,
    ensures
        contains_sub(s, sub),
{
    assert(s.subrange(0, 0 + sub.len() as int) =~= sub);
}

/// Whether `sub` occurs in `s` starting at index `i`.
fn match_at(s: &Vec<char>, sub: &Vec<char>, i: usize) -> (r: bool)
    requires
        i + sub@.len() <= s@.len(),
    ensures
        r == (s@.subrange(i as int, i + sub@.len()) == sub@),
{
    let n = s.len();
    let mut k: usize = 0;
    while k < sub.len()
        invariant
            0 <= k <= sub@.len(),
            i + sub@.len() <= s@.len(),
            n == s@.len(),
            forall|j: int| 0 <= j < k ==> s@[i + j] == sub@[j],
        decreases sub@.len() - k,
    {
        if s[i + k] != sub[k] {
            proof {
                assert(s@.subrange(i as int, i + sub@.len())[k as int] != sub@[k as int]);
            }
            return false;
        }
        k = k + 1;
    }
    proof {
        assert(s@.subrange(i as int, i + sub@.len()) =~= sub@);
    }
    true
}

/// Decides whether `sub` occurs contiguously inside `s`.
pub fn contains_chars(s: &Vec<char>, sub: &Vec<char>) -> (r: bool)
    ensures
        r == contains_sub(s@, sub@),
{
    if sub.len() > s.len() {
        return false;
    }
    if sub.len() == 0 {
        proof {
            lemma_contains_empty(s@, sub@);
        }
        return true;
    }
    let last: usize = s.len() - sub.len();
    let mut i: usize = 0;
    while i <= last
        invariant
            0 <= i <= last + 1,
            last == s@.len() - sub@.len(),
            last < usize::MAX,
            sub@.len() >= 1,
            forall|j: int| 0 <= j < i ==> #[trigger] s@.subrange(j, j + sub@.len()) != sub@,
        decreases last + 1 - i,
    {
        if match_at(s, sub, i) {
            return true;
        }
        i = i + 1;
    }
    return false;
}

/// The decimal digits of a non-negative number, most significant first;
/// zero renders as no digits at all.
pub open spec fn dec_digits(n: int) -> Seq<char>
    decreases n,
{
    if n <= 0 {
        Seq::empty()
    } else {
        dec_digits(n / 10).push((((n % 10) + 48) as char))
    }
}

/// The decimal rendering of an integer: a minus sign for negative
/// numbers, and zero renders as "0".
pub open spec fn dec_str(n: int) -> Seq<char> {
    if n == 0 {
        seq!['0']
    } else if n < 0 {
        seq!['-'] + dec_digits(-n)
    } else {
        dec_digits(n)
    }
}

/// Appends the decimal digits of a positive number to the vector.
fn push_dec_digits(n: u64, out: &mut Vec<char>)
    requires
        n > 0,
    ensures
        final(out)@ == old(out)@ + dec_digits(n as int),
    decreases n,
{
    if n >= 10 {
        push_dec_digits(n / 10, out);
    }
    let digit: u8 = (n % 10) as u8;
    out.push(((digit + 48) as char));
    proof {
        reveal_with_fuel(dec_digits, 3);
        assert(out@ =~= old(out)@ + dec_digits(n as int));
    }
}

/// Renders an integer in decimal.
pub fn int_to_chars(n: i64) -> (r: Vec<char>)
    ensures
        r@ == dec_str(n as int),
{
    let mut out: Vec<char> = Vec::new();
    if n == 0 {
        out.push('0');
        proof {
            assert(out@ =~= dec_str(0));
        }
        return out;
    }
    let magnitude: u64 = if n < 0 {
        if n == i64::MIN {
            9223372036854775808u64
        } else {
            (-n) as u64
        }
    } else {
        n as u64
    };
    if n < 0 {
        out.push('-');
    }
    push_dec_digits(magnitude, &mut out);
    proof {
        assert(out@ =~= dec_str(n as int));
    }
    out
}

} // verus!
