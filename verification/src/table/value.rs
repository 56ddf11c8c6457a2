//! Type-erased sort keys and their total order.
//!
//! A row projects each sortable field to a [`CellValue`]: a plain,
//! comparable value. Heterogeneous kinds are ordered deterministically:
//! every integer sorts before every text, integers sort numerically,
//! texts sort lexicographically by character.

use vstd::prelude::*;

verus! {

/// A type-erased, orderable field value used as a sorting key.
#[derive(Debug, Clone)]
pub enum CellValue {
    /// An integer key.
    Int(i64),
    /// A text key, as a sequence of characters.
    Text(Vec<char>),
}

/// Ghost image of a [`CellValue`].
pub ghost enum KeyVal {
    /// An integer key.
    Int(int),
    /// A text key.
    Text(Seq<char>),
}

impl View for CellValue {
    type V = KeyVal;

    open spec fn view(&self) -> KeyVal {
        match self {
            CellValue::Int(i) => KeyVal::Int(*i as int),
            CellValue::Text(s) => KeyVal::Text(s@),
        }
    }
}

/// Strict lexicographic order on character sequences: the empty sequence
/// comes first, otherwise the first differing character decides.
pub open spec fn lex_lt(a: Seq<char>, b: Seq<char>) -> bool
    decreases a.len(),
{
    if b.len() == 0 {
        false
    } else if a.len() == 0 {
        true
    } else if a[0] != b[0] {
        a[0] < b[0]
    } else {
        lex_lt(a.drop_first(), b.drop_first())
    }
}

/// Strict order on keys: integers before texts, integers numerically,
/// texts lexicographically.
pub open spec fn key_lt(a: KeyVal, b: KeyVal) -> bool {
    match (a, b) {
        (KeyVal::Int(x), KeyVal::Int(y)) => x < y,
        (KeyVal::Int(_), KeyVal::Text(_)) => true,
        (KeyVal::Text(_), KeyVal::Int(_)) => false,
        (KeyVal::Text(s), KeyVal::Text(t)) => lex_lt(s, t),
    }
}

/// At most one of `lex_lt(a, b)` and `lex_lt(b, a)` holds.
pub proof fn lemma_lex_lt_asymmetric(a: Seq<char>, b: Seq<char>)
    ensures
        lex_lt(a, b) ==> !lex_lt(b, a),
    decreases a.len(),
{
    if a.len() > 0 && b.len() > 0 && a[0] == b[0] {
        lemma_lex_lt_asymmetric(a.drop_first(), b.drop_first());
    }
}

/// If neither sequence is lexicographically below the other, they are equal.
pub proof fn lemma_lex_lt_connected(a: Seq<char>, b: Seq<char>)
    ensures
        !lex_lt(a, b) && !lex_lt(b, a) ==> a == b,
    decreases a.len(),
{
    if a.len() > 0 && b.len() > 0 && !lex_lt(a, b) && !lex_lt(b, a) {
        if a[0] == b[0] {
            lemma_lex_lt_connected(a.drop_first(), b.drop_first());
            assert(a.drop_first() == b.drop_first());
            assert(a =~= b) by {
                assert(a.len() == b.len());
                assert forall|i: int| 0 <= i < a.len() implies a[i] == b[i] by {
                    if i > 0 {
                        assert(a[i] == a.drop_first()[i - 1]);
                        assert(b[i] == b.drop_first()[i - 1]);
                    }
                }
            }
        }
    }
}

/// Lexicographic order is transitive.
pub proof fn lemma_lex_lt_transitive(a: Seq<char>, b: Seq<char>, c: Seq<char>)
    ensures
        lex_lt(a, b) && lex_lt(b, c) ==> lex_lt(a, c),
    decreases a.len(),
{
    if a.len() > 0 && b.len() > 0 && c.len() > 0 {
        if a[0] == b[0] && b[0] == c[0] {
            lemma_lex_lt_transitive(a.drop_first(), b.drop_first(), c.drop_first());
        }
    }
}

/// `key_lt` is a strict order: asymmetric, transitive, and total in the
/// sense that incomparable keys are equal.
pub proof fn lemma_key_lt_properties(a: KeyVal, b: KeyVal, c: KeyVal)
    ensures
        key_lt(a, b) ==> !key_lt(b, a),
        !key_lt(a, b) && !key_lt(b, a) ==> a == b,
        key_lt(a, b) && key_lt(b, c) ==> key_lt(a, c),
{
    match (a, b) {
        (KeyVal::Text(s), KeyVal::Text(t)) => {
            lemma_lex_lt_asymmetric(s, t);
            lemma_lex_lt_connected(s, t);
        },
        _ => {},
    }
    match (a, b, c) {
        (KeyVal::Text(s), KeyVal::Text(t), KeyVal::Text(u)) => {
            lemma_lex_lt_transitive(s, t, u);
        },
        _ => {},
    }
}

/// Decides `key_lt` on two key values.
pub fn cell_lt(a: &CellValue, b: &CellValue) -> (r: bool)
    ensures
        r == key_lt(a@, b@),
{
    match (a, b) {
        (CellValue::Int(x), CellValue::Int(y)) => *x < *y,
        (CellValue::Int(_), CellValue::Text(_)) => true,
        (CellValue::Text(_), CellValue::Int(_)) => false,
        (CellValue::Text(s), CellValue::Text(t)) => text_lt(s, t),
    }
}

/// Decides whether two key values are equal.
pub fn cell_eq(a: &CellValue, b: &CellValue) -> (r: bool)
    ensures
        r == (a@ == b@),
{
    match (a, b) {
        (CellValue::Int(x), CellValue::Int(y)) => *x == *y,
        (CellValue::Text(s), CellValue::Text(t)) => text_eq(s, t),
        _ => false,
    }
}

/// Peeling equal leading characters off both sequences does not change
/// how they compare.
proof fn lemma_lex_lt_skip(a: Seq<char>, b: Seq<char>, i: int)
    requires
        0 <= i <= a.len(),
        i <= b.len(),
        forall|j: int| 0 <= j < i ==> a[j] == b[j],
    ensures
        lex_lt(a, b) == lex_lt(a.skip(i), b.skip(i)),
    decreases i,
{
    if i > 0 {
        assert(a.drop_first().skip(i - 1) =~= a.skip(i));
        assert(b.drop_first().skip(i - 1) =~= b.skip(i));
        lemma_lex_lt_skip(a.drop_first(), b.drop_first(), i - 1);
    } else {
        assert(a.skip(0) =~= a);
        assert(b.skip(0) =~= b);
    }
}

/// Decides lexicographic order on two character vectors.
fn text_lt(s: &Vec<char>, t: &Vec<char>) -> (r: bool)
    ensures
        r == lex_lt(s@, t@),
{
    let mut i: usize = 0;
    loop
        invariant
            0 <= i <= s.len(),
            i <= t.len(),
            forall|j: int| 0 <= j < i ==> s@[j] == t@[j],
        ensures
            lex_lt(s@, t@) == lex_lt(s@.skip(i as int), t@.skip(i as int)),
            i <= s.len() && i <= t.len(),
            i < s.len() && i < t.len() ==> s@[i as int] != t@[i as int],
            i == s.len() || i == t.len() || s@[i as int] != t@[i as int],
        decreases s.len() - i,
    {
        proof {
            lemma_lex_lt_skip(s@, t@, i as int);
        }
        if i == s.len() || i == t.len() {
            break;
        }
        if s[i] != t[i] {
            break;
        }
        i = i + 1;
    }
    proof {
        lemma_lex_lt_skip(s@, t@, i as int);
    }
    if i == t.len() {
        // t is exhausted: s is not below t.
        false
    } else if i == s.len() {
        // s is exhausted but t goes on: s is below t.
        true
    } else {
        s[i] < t[i]
    }
}

/// Decides equality of two character vectors.
fn text_eq(s: &Vec<char>, t: &Vec<char>) -> (r: bool)
    ensures
        r == (s@ == t@),
{
    if s.len() != t.len() {
        return false;
    }
    let mut i: usize = 0;
    while i < s.len()
        invariant
            0 <= i <= s.len(),
            s.len() == t.len(),
            forall|j: int| 0 <= j < i ==> s@[j] == t@[j],
        decreases s.len() - i,
    {
        if s[i] != t[i] {
            return false;
        }
        i = i + 1;
    }
    proof {
        assert(s@ =~= t@);
    }
    true
}

} // verus!
