//! Engine-wide laws, stated and proved over the engine's spec functions.

use vstd::prelude::*;

use crate::pagination::spec_total_pages;
use crate::table::DataV;
use crate::table::MsgV;
use crate::table::at_most_one_active;
use crate::table::body::entry_leq;
use crate::table::body::filter_spec;
use crate::table::body::keyed;
use crate::table::body::lemma_entry_leq_total;
use crate::table::body::page_spec;
use crate::table::body::sort_rows_spec;
use crate::table::body::sorted_entries;
use crate::table::dispatch_spec;
use crate::table::toggle_spec;
use crate::table::types::TableData;
use crate::table::types::TableOrder;
use crate::table::value::KeyVal;
use crate::table::value::key_lt;

verus! {

/// After toggling any column index, at most one entry is actively
/// ordered, whatever the previous state was: every entry but the
/// toggled one is forced to unordered.
pub proof fn lemma_toggle_single_active(order: Seq<TableOrder>, i: int)
    ensures
        at_most_one_active(toggle_spec(order, i)),
{
}

/// A snapshot image after a sequence of actions, applied left to right.
pub open spec fn apply_actions<T>(d: DataV<T>, actions: Seq<MsgV<T>>) -> DataV<T>
    decreases actions.len(),
{
    if actions.len() == 0 {
        d
    } else {
        apply_actions(dispatch_spec(d, actions[0]), actions.drop_first())
    }
}

/// Single-active-column invariant: starting from a snapshot with at most
/// one actively ordered column (the initial all-unordered state in
/// particular), any sequence of actions — toggles and row replacements
/// alike — leaves at most one column actively ordered.
pub proof fn lemma_actions_single_active<T>(d: DataV<T>, actions: Seq<MsgV<T>>)
    requires
        at_most_one_active(d.order),
    ensures
        at_most_one_active(apply_actions(d, actions).order),
    decreases actions.len(),
{
    if actions.len() > 0 {
        let d1 = dispatch_spec(d, actions[0]);
        match actions[0] {
            MsgV::SortColumn(i) => {
                lemma_toggle_single_active(d.order, i);
            },
            MsgV::SetData(_) => {},
        }
        lemma_actions_single_active(d1, actions.drop_first());
    }
}

/// Round trip: replacing the rows and then toggling a column leaves the
/// new rows in the snapshot — never a stale prior row set — with the
/// columns unchanged and the toggled sort state.
pub proof fn lemma_set_rows_then_toggle<T>(d: DataV<T>, rows: Seq<T>, i: int)
    ensures
        ({
            let d2 = dispatch_spec(dispatch_spec(d, MsgV::SetData(rows)), MsgV::SortColumn(i));
            &&& d2.rows == rows
            &&& d2.columns == d.columns
            &&& d2.orderable == d.orderable
            &&& d2.order == toggle_spec(d.order, i)
        }),
{
}

/// Every element of a filtered sequence satisfies the filter predicate,
/// so filtering a sequence whose elements all satisfy the predicate
/// changes nothing.
proof fn lemma_filter_all_matching<T>(s: Seq<T>, pred: spec_fn(T) -> bool)
    requires
        forall|i: int| 0 <= i < s.len() ==> #[trigger] pred(s[i]),
    ensures
        s.filter(pred) == s,
    decreases s.len(),
{
    reveal(Seq::filter);
    if s.len() > 0 {
        assert(forall|i: int| 0 <= i < s.drop_last().len() ==> #[trigger] pred(s.drop_last()[i]));
        lemma_filter_all_matching(s.drop_last(), pred);
        assert(s.filter(pred) =~= s);
    }
}

/// The filter stage is idempotent: filtering an already filtered row
/// sequence by the same needle returns it unchanged. (It is also
/// order-preserving by construction: the result is a subsequence.)
pub proof fn lemma_filter_idempotent<T: TableData>(rows: Seq<T>, needle: Option<Seq<char>>)
    ensures
        filter_spec(filter_spec(rows, needle), needle) == filter_spec(rows, needle),
{
    let pred = |r: T| r.matches_of(needle);
    let once = rows.filter(pred);
    assert forall|i: int| 0 <= i < once.len() implies #[trigger] pred(once[i]) by {
        rows.lemma_filter_pred(pred, i);
    }
    lemma_filter_all_matching(once, pred);
}

/// An absent or empty needle filters nothing: every row matches, so the
/// filter stage returns the rows unchanged.
pub proof fn lemma_empty_needle_keeps_all<T: TableData>(rows: Seq<T>, needle: Option<Seq<char>>)
    requires
        (needle matches Some(s) ==> s.len() == 0),
    ensures
        filter_spec(rows, needle) == rows,
{
    let pred = |r: T| r.matches_of(needle);
    assert forall|i: int| 0 <= i < rows.len() implies #[trigger] pred(rows[i]) by {
        rows[i].lemma_empty_needle_matches(needle);
    }
    lemma_filter_all_matching(rows, pred);
}

/// The first `n` pages of the sequence, concatenated in page order.
pub open spec fn concat_pages<T>(s: Seq<T>, limit: usize, n: int) -> Seq<T>
    decreases n,
{
    if n <= 0 {
        Seq::empty()
    } else {
        concat_pages(s, limit, n - 1) + page_spec(s, Some(limit), n - 1)
    }
}

/// The first `n` pages together are exactly the first `n * limit`
/// elements of the sequence (or all of it, once past the end).
proof fn lemma_concat_pages_take<T>(s: Seq<T>, limit: usize, n: int)
    requires
        limit > 0,
        n >= 0,
    ensures
        concat_pages(s, limit, n) == s.take(
            if n * (limit as int) <= s.len() {
                n * (limit as int)
            } else {
                s.len() as int
            },
        ),
    decreases n,
{
    let l = limit as int;
    if n == 0 {
        assert(n * l == 0) by (nonlinear_arith)
            requires
                n == 0,
        {
        }
        assert(concat_pages(s, limit, 0) =~= s.take(0));
    } else {
        lemma_concat_pages_take(s, limit, n - 1);
        let lo = (n - 1) * l;
        assert(n * l == lo + l && lo >= 0) by (nonlinear_arith)
            requires
                n >= 1,
                l > 0,
                lo == (n - 1) * l,
        {
        }
        let len = s.len() as int;
        let cap = if n * l <= len {
            n * l
        } else {
            len
        };
        let prev_cap = if lo <= len {
            lo
        } else {
            len
        };
        assert(concat_pages(s, limit, n - 1) == s.take(prev_cap));
        let pg = page_spec(s, Some(limit), n - 1);
        assert(concat_pages(s, limit, n) == s.take(prev_cap) + pg);
        if lo >= len {
            assert(pg =~= Seq::<T>::empty());
            assert(s.take(prev_cap) + pg =~= s.take(cap));
        } else if lo + l <= len {
            assert(pg == s.subrange(lo, lo + l));
            assert(s.take(prev_cap) + pg =~= s.take(cap));
        } else {
            assert(pg == s.subrange(lo, len));
            assert(s.take(prev_cap) + pg =~= s.take(cap));
        }
        assert(concat_pages(s, limit, n) == s.take(cap));
    }
}

/// Pagination covers the sequence exactly: concatenating all pages, in
/// order, over any positive limit reconstructs the whole sequence with
/// no gaps and no duplicates; an empty sequence has zero pages.
pub proof fn lemma_pages_cover<T>(s: Seq<T>, limit: usize)
    requires
        limit > 0,
    ensures
        concat_pages(s, limit, spec_total_pages(s.len() as int, limit as int)) == s,
        s.len() == 0 ==> spec_total_pages(s.len() as int, limit as int) == 0,
{
    let l = limit as int;
    let total = s.len() as int;
    let pages = spec_total_pages(total, l);
    assert(pages >= 0 && pages * l >= total) by (nonlinear_arith)
        requires
            l > 0,
            total >= 0,
            pages == if total % l == 0 {
                total / l
            } else {
                total / l + 1
            },
    {
    }
    lemma_concat_pages_take(s, limit, pages);
    if pages * l <= total {
        assert(concat_pages(s, limit, pages) == s.take(pages * l));
        assert(pages * l == total);
        assert(s.take(total) =~= s);
    } else {
        assert(s.take(total) =~= s);
    }
}

/// Stable sort, both directions. The sorted entry sequence is a
/// permutation of the keyed input: same multiset, same length, every
/// entry carrying an in-range input position, and row `j` of the sorted
/// rows is the input row at entry `j`'s position. Along the sorted
/// sequence, distinct keys are strictly ordered — ascending or
/// descending as asked — while rows with equal keys keep their input
/// order in both directions: their input positions increase strictly.
/// Descending order is thus the reversal of the ascending order on
/// distinct keys only, never of the tie order.
pub proof fn lemma_sort_stable<T: TableData>(rows: Seq<T>, field: Seq<char>, asc: bool)
    ensures
        ({
            let sorted = sorted_entries(rows, field, asc);
            &&& sorted.to_multiset() == keyed(rows, field).to_multiset()
            &&& sorted.len() == rows.len()
            &&& (forall|j: int|
                0 <= j < sorted.len() ==> 0 <= (#[trigger] sorted[j]).1 < rows.len())
            &&& (forall|j: int|
                0 <= j < sorted.len() ==> sort_rows_spec(rows, field, asc)[j] == rows[(
                #[trigger] sorted[j]).1])
            &&& (forall|p: int, q: int|
                0 <= p < q < sorted.len() && (#[trigger] sorted[p]).0 == (#[trigger] sorted[q]).0
                    ==> sorted[p].1 < sorted[q].1)
            &&& (asc ==> forall|p: int, q: int|
                0 <= p < q < sorted.len() && (#[trigger] sorted[p]).0 != (#[trigger] sorted[q]).0
                    ==> key_lt(sorted[p].0, sorted[q].0))
            &&& (!asc ==> forall|p: int, q: int|
                0 <= p < q < sorted.len() && (#[trigger] sorted[p]).0 != (#[trigger] sorted[q]).0
                    ==> key_lt(sorted[q].0, sorted[p].0))
        }),
{
    broadcast use vstd::seq_lib::group_to_multiset_ensures;

    let leq = entry_leq(asc);
    lemma_entry_leq_total(asc);
    let k = keyed(rows, field);
    k.lemma_sort_by_ensures(leq);
    let sorted = sorted_entries(rows, field, asc);
    assert(sorted.len() == k.len()) by {
        vstd::seq_lib::to_multiset_len(sorted);
        vstd::seq_lib::to_multiset_len(k);
    }
    assert(k.no_duplicates()) by {
        assert forall|i: int, j: int|
            0 <= i < k.len() && 0 <= j < k.len() && i != j implies k[i] != k[j] by {
            assert(k[i].1 == i && k[j].1 == j);
        }
    }
    k.lemma_multiset_has_no_duplicates();
    assert forall|x: (KeyVal, int)|
        sorted.to_multiset().contains(x) implies sorted.to_multiset().count(x) == 1 by {
        assert(k.to_multiset().contains(x));
    }
    sorted.lemma_multiset_has_no_duplicates_conv();
    assert forall|j: int| 0 <= j < sorted.len() implies 0 <= (#[trigger] sorted[j]).1
        < rows.len() by {
        assert(sorted.contains(sorted[j]));
        assert(sorted.to_multiset().count(sorted[j]) > 0);
        assert(k.to_multiset().count(sorted[j]) > 0);
        assert(k.contains(sorted[j]));
        let i0 = choose|i0: int| 0 <= i0 < k.len() && k[i0] == sorted[j];
        assert(k[i0].1 == i0);
    }
    assert forall|p: int, q: int|
        0 <= p < q < sorted.len() && (#[trigger] sorted[p]).0 == (#[trigger] sorted[q]).0
        implies sorted[p].1 < sorted[q].1 by {
        assert(leq(sorted[p], sorted[q]));
        assert(sorted[p].1 <= sorted[q].1);
        if sorted[p].1 == sorted[q].1 {
            assert(sorted[p] == sorted[q]);
            assert(false);
        }
    }
    if asc {
        assert forall|p: int, q: int|
            0 <= p < q < sorted.len() && (#[trigger] sorted[p]).0 != (#[trigger] sorted[q]).0
            implies key_lt(sorted[p].0, sorted[q].0) by {
            assert(leq(sorted[p], sorted[q]));
        }
    } else {
        assert forall|p: int, q: int|
            0 <= p < q < sorted.len() && (#[trigger] sorted[p]).0 != (#[trigger] sorted[q]).0
            implies key_lt(sorted[q].0, sorted[p].0) by {
            assert(leq(sorted[p], sorted[q]));
        }
    }
}

} // verus!
