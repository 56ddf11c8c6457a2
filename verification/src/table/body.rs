//! The view pipeline: search filter, stable sort, pagination.
//!
//! Each stage is a pure function on the row sequence. Sorting pairs
//! every row's key with the row's input position and orders the pairs
//! by key, then by position; since positions are distinct the order is
//! total and the sorted sequence is unique, which makes the sort
//! deterministic and stable by construction.

use vstd::prelude::*;
use vstd::multiset::Multiset;
use vstd::relations::sorted_by;
use vstd::relations::total_ordering;
use vstd::seq_lib::lemma_sorted_unique;

use crate::table::types::Column;
use crate::table::types::TableData;
use crate::table::types::TableOrder;
use crate::table::types::needle_view;
use crate::table::value::CellValue;
use crate::table::value::KeyVal;
use crate::table::value::cell_eq;
use crate::table::value::cell_lt;
use crate::table::value::key_lt;
use crate::table::value::lemma_key_lt_properties;

verus! {

/// One row's sort key paired with the row's position in the input.
pub struct SortEntry {
    /// The extracted key.
    pub key: CellValue,
    /// The row's index in the sequence being sorted.
    pub pos: usize,
}

impl View for SortEntry {
    type V = (KeyVal, int);

    open spec fn view(&self) -> (KeyVal, int) {
        (self.key@, self.pos as int)
    }
}

/// Ghost image of a sequence of sort entries.
pub open spec fn entries_view(s: Seq<SortEntry>) -> Seq<(KeyVal, int)> {
    s.map_values(|x: SortEntry| x@)
}

/// Non-strict order on keyed entries: by key first (ascending when
/// `asc`, else descending), then by input position. Equal keys thus
/// keep their input order, and distinct positions make the order total.
pub open spec fn entry_le(asc: bool, a: (KeyVal, int), b: (KeyVal, int)) -> bool {
    if a.0 == b.0 {
        a.1 <= b.1
    } else if asc {
        key_lt(a.0, b.0)
    } else {
        key_lt(b.0, a.0)
    }
}

/// The entry order as a binary relation value.
pub open spec fn entry_leq(asc: bool) -> spec_fn((KeyVal, int), (KeyVal, int)) -> bool {
    |a: (KeyVal, int), b: (KeyVal, int)| entry_le(asc, a, b)
}

/// The entry order is a total ordering, in both directions.
pub proof fn lemma_entry_leq_total(asc: bool)
    ensures
        total_ordering(entry_leq(asc)),
{
    let leq = entry_leq(asc);
    assert forall|a: (KeyVal, int), b: (KeyVal, int)| #[trigger] leq(a, b) && #[trigger] leq(b, a)
        implies a == b by {
        lemma_key_lt_properties(a.0, b.0, b.0);
    }
    assert forall|a: (KeyVal, int), b: (KeyVal, int), c: (KeyVal, int)|
        #[trigger] leq(a, b) && #[trigger] leq(b, c) implies leq(a, c) by {
        lemma_key_lt_properties(a.0, b.0, c.0);
        lemma_key_lt_properties(b.0, c.0, a.0);
        lemma_key_lt_properties(c.0, a.0, b.0);
        lemma_key_lt_properties(c.0, b.0, a.0);
        lemma_key_lt_properties(b.0, a.0, c.0);
        lemma_key_lt_properties(a.0, c.0, b.0);
    }
    assert forall|a: (KeyVal, int), b: (KeyVal, int)| #[trigger] leq(a, b) || #[trigger] leq(b, a) by {
        lemma_key_lt_properties(a.0, b.0, b.0);
        lemma_key_lt_properties(b.0, a.0, a.0);
    }
}

/// Any two entries are comparable in the entry order.
pub proof fn lemma_entry_le_total_pair(asc: bool, a: (KeyVal, int), b: (KeyVal, int))
    ensures
        entry_le(asc, a, b) || entry_le(asc, b, a),
{
    lemma_key_lt_properties(a.0, b.0, a.0);
    lemma_key_lt_properties(b.0, a.0, b.0);
}

/// Decides the entry order on two entries.
fn entry_le_exec(asc: bool, a: &SortEntry, b: &SortEntry) -> (r: bool)
    ensures
        r == entry_le(asc, a@, b@),
{
    if cell_eq(&a.key, &b.key) {
        a.pos <= b.pos
    } else if asc {
        cell_lt(&a.key, &b.key)
    } else {
        cell_lt(&b.key, &a.key)
    }
}

/// Inserts one entry into an already ordered vector, keeping it ordered
/// and adding exactly that entry to its contents.
fn insert_entry(v: &mut Vec<SortEntry>, e: SortEntry, asc: bool)
    requires
        sorted_by(entries_view(old(v)@), entry_leq(asc)),
    ensures
        sorted_by(entries_view(final(v)@), entry_leq(asc)),
        entries_view(final(v)@).to_multiset() == entries_view(old(v)@).to_multiset().insert(e@),
        final(v)@.len() == old(v)@.len() + 1,
{
    let ghost leq = entry_leq(asc);
    let ghost e_at = e@;
    let mut idx: usize = 0;
    while idx < v.len()
        invariant
            0 <= idx <= v@.len(),
            v@ == old(v)@,
            e_at == e@,
            sorted_by(entries_view(v@), entry_leq(asc)),
            forall|j: int| 0 <= j < idx ==> entry_le(asc, entries_view(v@)[j], e_at),
        ensures
            v@ == old(v)@,
            0 <= idx <= v@.len(),
            forall|j: int| 0 <= j < idx ==> entry_le(asc, entries_view(v@)[j], e_at),
            idx < v@.len() ==> !entry_le(asc, entries_view(v@)[idx as int], e_at),
        decreases v@.len() - idx,
    {
        proof {
            assert(entries_view(v@)[idx as int] == v@[idx as int]@);
        }
        if !entry_le_exec(asc, &v[idx], &e) {
            break;
        }
        idx = idx + 1;
    }
    proof {
        lemma_entry_leq_total(asc);
    }
    let ghost old_entries = entries_view(v@);
    v.insert(idx, e);
    proof {
        let new_entries = entries_view(v@);
        let n = old_entries.len();
        assert(new_entries =~= old_entries.insert(idx as int, e_at)) by {
            old_entries.insert_ensures(idx as int, e_at);
        }
        vstd::seq_lib::to_multiset_insert(old_entries, idx as int, e_at);
        assert forall|i: int, j: int| 0 <= i < j < new_entries.len()
            implies #[trigger] leq(new_entries[i], new_entries[j]) by {
            old_entries.insert_ensures(idx as int, e_at);
            if j < idx {
                assert(leq(old_entries[i], old_entries[j]));
            } else if j == idx {
                assert(new_entries[j] == e_at);
                assert(leq(old_entries[i], e_at));
            } else {
                // j lands past the insertion point, so it reads old index j - 1,
                // and the loop stopped because the entry at idx is above e.
                assert(new_entries[j] == old_entries[j - 1]);
                assert(idx < n);
                assert(!entry_le(asc, old_entries[idx as int], e_at));
                assert(leq(e_at, old_entries[idx as int])) by {
                    lemma_entry_le_total_pair(asc, e_at, old_entries[idx as int]);
                }
                if i < idx {
                    assert(new_entries[i] == old_entries[i]);
                    assert(leq(old_entries[i], old_entries[j - 1]));
                } else if i == idx {
                    if j - 1 > idx {
                        assert(leq(old_entries[idx as int], old_entries[j - 1]));
                    }
                } else {
                    assert(new_entries[i] == old_entries[i - 1]);
                    assert(leq(old_entries[i - 1], old_entries[j - 1]));
                }
            }
        }
    }
}

/// Orders a vector of keyed entries by the entry order: the result is
/// sorted and holds exactly the input entries.
#[verifier::loop_isolation(false)]
fn sort_entries_exec(entries: Vec<SortEntry>, asc: bool) -> (r: Vec<SortEntry>)
    ensures
        sorted_by(entries_view(r@), entry_leq(asc)),
        entries_view(r@).to_multiset() == entries_view(entries@).to_multiset(),
        r@.len() == entries@.len(),
{
    let ghost all = entries_view(entries@);
    let mut input = entries;
    let mut out: Vec<SortEntry> = Vec::new();
    proof {
        assert(entries_view(out@).to_multiset().add(entries_view(input@).to_multiset())
            =~= all.to_multiset()) by {
            assert(entries_view(out@) =~= Seq::<(KeyVal, int)>::empty());
            vstd::seq_lib::lemma_multiset_commutative(entries_view(out@), entries_view(input@));
            assert(entries_view(out@) + entries_view(input@) =~= entries_view(input@));
        }
    }
    while input.len() > 0
        invariant
            sorted_by(entries_view(out@), entry_leq(asc)),
            entries_view(out@).to_multiset().add(entries_view(input@).to_multiset())
                == all.to_multiset(),
            out@.len() + input@.len() == all.len(),
        decreases input@.len(),
    {
        let ghost in_before = entries_view(input@);
        let e = input.pop().unwrap();
        proof {
            let in_after = entries_view(input@);
            assert(in_after =~= in_before.drop_last());
            vstd::seq_lib::to_multiset_build(in_before.drop_last(), in_before.last());
            assert(in_before.drop_last().push(in_before.last()) =~= in_before);
            assert(in_before.to_multiset() == in_after.to_multiset().insert(e@));
        }
        let ghost out_before = entries_view(out@);
        insert_entry(&mut out, e, asc);
        proof {
            let out_after = entries_view(out@);
            let in_after = entries_view(input@);
            assert(out_after.to_multiset().add(in_after.to_multiset()) =~= all.to_multiset()) by {
                assert(out_after.to_multiset() == out_before.to_multiset().insert(e@));
                assert(in_before.to_multiset() == in_after.to_multiset().insert(e@));
            }
        }
    }
    proof {
        broadcast use vstd::seq_lib::group_to_multiset_ensures;
        broadcast use vstd::multiset::group_multiset_axioms;

        let in_mset = entries_view(input@).to_multiset();
        assert(in_mset.len() == 0);
        assert(in_mset =~= Multiset::<(KeyVal, int)>::empty());
        assert(entries_view(out@).to_multiset() =~= all.to_multiset());
    }
    out
}

/// The keys of a row sequence for one field, each paired with its row's
/// position. Meaningful when every extraction succeeds.
pub open spec fn keyed<T: TableData>(rows: Seq<T>, field: Seq<char>) -> Seq<(KeyVal, int)> {
    Seq::new(rows.len(), |i: int| (rows[i].key_of(field)->Ok_0, i))
}

/// Whether every row of the sequence yields a sort key for the field.
pub open spec fn keys_ok<T: TableData>(rows: Seq<T>, field: Seq<char>) -> bool {
    forall|i: int| 0 <= i < rows.len() ==> (#[trigger] rows[i].key_of(field)) is Ok
}

/// The keyed entries of the rows, ordered by the entry order.
pub open spec fn sorted_entries<T: TableData>(rows: Seq<T>, field: Seq<char>, asc: bool) -> Seq<
    (KeyVal, int),
> {
    keyed(rows, field).sort_by(entry_leq(asc))
}

/// The rows in stable sorted order for one field: the unique permutation
/// that orders the key-position pairs.
pub open spec fn sort_rows_spec<T: TableData>(rows: Seq<T>, field: Seq<char>, asc: bool) -> Seq<
    T,
> {
    sorted_entries(rows, field, asc).map_values(|e: (KeyVal, int)| rows[e.1])
}

/// Whether every row yields a sort key for the field. When this is
/// false, a read that sorts by the field falls back to the input order:
/// the reportable configuration error of an orderable column bound to a
/// field the row type does not recognise.
pub fn can_sort_by<T: TableData>(rows: &Vec<T>, field: &str) -> (r: bool)
    ensures
        r == keys_ok(rows@, field@),
{
    let mut i: usize = 0;
    while i < rows.len()
        invariant
            0 <= i <= rows@.len(),
            forall|j: int| 0 <= j < i ==> (#[trigger] rows@[j].key_of(field@)) is Ok,
        decreases rows@.len() - i,
    {
        if rows[i].get_field_as_value(field).is_err() {
            proof {
                assert(!(rows@[i as int].key_of(field@) is Ok));
            }
            return false;
        }
        i = i + 1;
    }
    true
}

/// Copies a row vector, row by row.
fn clone_rows<T: TableData>(rows: &Vec<T>) -> (r: Vec<T>)
    ensures
        r@ == rows@,
{
    let mut out: Vec<T> = Vec::new();
    let mut i: usize = 0;
    while i < rows.len()
        invariant
            0 <= i <= rows@.len(),
            out@ =~= rows@.take(i as int),
        decreases rows@.len() - i,
    {
        out.push(rows[i].clone_row());
        i = i + 1;
    }
    proof {
        assert(out@ =~= rows@);
    }
    out
}

/// Sorts the rows stably by the sort key each row yields for `field`,
/// ascending when `asc`, descending otherwise, with equal keys keeping
/// their input order either way. If any row fails to yield a key for
/// the field, the rows come back in their input order unchanged.
pub fn sort_rows<T: TableData>(rows: &Vec<T>, field: &str, asc: bool) -> (r: Vec<T>)
    ensures
        keys_ok(rows@, field@) ==> r@ == sort_rows_spec(rows@, field@, asc),
        !keys_ok(rows@, field@) ==> r@ == rows@,
{
    let ghost gfield = field@;
    let mut entries: Vec<SortEntry> = Vec::new();
    let mut i: usize = 0;
    while i < rows.len()
        invariant
            0 <= i <= rows@.len(),
            gfield == field@,
            entries@.len() == i,
            forall|j: int| 0 <= j < i ==> (#[trigger] rows@[j].key_of(gfield)) is Ok,
            forall|j: int|
                0 <= j < i ==> (#[trigger] entries@[j]@) == (rows@[j].key_of(gfield)->Ok_0, j),
        decreases rows@.len() - i,
    {
        match rows[i].get_field_as_value(field) {
            Ok(key) => {
                entries.push(SortEntry { key, pos: i });
            },
            Err(_) => {
                proof {
                    assert(!keys_ok(rows@, gfield)) by {
                        assert(!(rows@[i as int].key_of(gfield) is Ok));
                    }
                }
                return clone_rows(rows);
            },
        }
        i = i + 1;
    }
    proof {
        assert(keys_ok(rows@, gfield));
        assert(entries_view(entries@) =~= keyed(rows@, gfield));
    }
    let sorted = sort_entries_exec(entries, asc);
    proof {
        lemma_entry_leq_total(asc);
        keyed(rows@, gfield).lemma_sort_by_ensures(entry_leq(asc));
        lemma_sorted_unique(
            entries_view(sorted@),
            keyed(rows@, gfield).sort_by(entry_leq(asc)),
            entry_leq(asc),
        );
        assert(entries_view(sorted@) == sorted_entries(rows@, gfield, asc));
    }
    let mut out: Vec<T> = Vec::new();
    let mut j: usize = 0;
    while j < sorted.len()
        invariant
            0 <= j <= sorted@.len(),
            gfield == field@,
            entries_view(sorted@) == sorted_entries(rows@, gfield, asc),
            sorted@.len() == rows@.len(),
            keys_ok(rows@, gfield),
            out@.len() == j,
            forall|k: int|
                0 <= k < j ==> (#[trigger] out@[k]) == rows@[sorted_entries(
                    rows@,
                    gfield,
                    asc,
                )[k].1],
        decreases sorted@.len() - j,
    {
        proof {
            let e_at = entries_view(sorted@)[j as int];
            assert(e_at == sorted@[j as int]@);
            assert(sorted_entries(rows@, gfield, asc).contains(e_at));
            assert(keyed(rows@, gfield).contains(e_at)) by {
                lemma_entry_leq_total(asc);
                keyed(rows@, gfield).lemma_sort_by_ensures(entry_leq(asc));
            }
            let i0 = choose|i0: int|
                0 <= i0 < keyed(rows@, gfield).len() && keyed(rows@, gfield)[i0] == e_at;
            assert(e_at.1 == i0);
            assert(0 <= sorted@[j as int].pos < rows@.len());
        }
        let pos = sorted[j].pos;
        out.push(rows[pos].clone_row());
        j = j + 1;
    }
    proof {
        assert(out@ =~= sort_rows_spec(rows@, gfield, asc));
    }
    out
}

/// The rows that match the needle, in their input order.
pub open spec fn filter_spec<T: TableData>(rows: Seq<T>, needle: Option<Seq<char>>) -> Seq<T> {
    rows.filter(|r: T| r.matches_of(needle))
}

/// Keeps the rows that match the search, in their input order.
pub fn filter_rows<T: TableData>(rows: &Vec<T>, search: &Option<String>) -> (r: Vec<T>)
    ensures
        r@ == filter_spec(rows@, needle_view(*search)),
{
    let ghost needle = needle_view(*search);
    let mut out: Vec<T> = Vec::new();
    let mut i: usize = 0;
    while i < rows.len()
        invariant
            0 <= i <= rows@.len(),
            needle == needle_view(*search),
            out@ == filter_spec(rows@.take(i as int), needle),
        decreases rows@.len() - i,
    {
        let this_needle: Option<String> = match search {
            Some(s) => Some(s.clone()),
            None => None,
        };
        proof {
            assert(needle_view(this_needle) == needle);
        }
        if rows[i].matches_search(this_needle) {
            out.push(rows[i].clone_row());
        }
        proof {
            reveal(Seq::filter);
            let pred = |r: T| r.matches_of(needle);
            let upto = rows@.take(i + 1);
            assert(upto.drop_last() =~= rows@.take(i as int));
            assert(upto.last() == rows@[i as int]);
            if pred(rows@[i as int]) {
                assert(out@ == upto.drop_last().filter(pred).push(rows@[i as int]));
            } else {
                assert(out@ == upto.drop_last().filter(pred));
            }
            assert(out@ == upto.filter(pred));
        }
        i = i + 1;
    }
    proof {
        assert(rows@.take(rows@.len() as int) =~= rows@);
    }
    out
}

/// The slice of the sequence that one page shows: without a limit the
/// whole sequence; with a limit, the window of `limit` rows starting at
/// `page * limit`, clamped to the sequence, and empty past its end.
pub open spec fn page_spec<T>(s: Seq<T>, limit: Option<usize>, page: int) -> Seq<T> {
    match limit {
        Option::None => s,
        Option::Some(l) => {
            let lo = page * (l as int);
            if lo >= s.len() {
                Seq::empty()
            } else if lo + (l as int) <= s.len() {
                s.subrange(lo, lo + (l as int))
            } else {
                s.subrange(lo, s.len() as int)
            }
        },
    }
}

/// Returns the rows of one page: all of them without a limit, else the
/// window of `limit` rows starting at `page * limit`. A page beyond the
/// end yields an empty vector, never an error.
pub fn paginate_rows<T: TableData>(rows: &Vec<T>, limit: Option<usize>, page: usize) -> (r: Vec<
    T,
>)
    ensures
        r@ == page_spec(rows@, limit, page as int),
{
    let l: usize = match limit {
        Some(l) => l,
        None => {
            return clone_rows(rows);
        },
    };
    if l == 0 {
        proof {
            if rows@.len() > 0 {
                assert(rows@.subrange(0, 0) =~= Seq::<T>::empty());
            }
        }
        return Vec::new();
    }
    if page > rows.len() / l {
        proof {
            assert(page * (l as int) >= rows@.len()) by (nonlinear_arith)
                requires
                    l > 0,
                    page > rows@.len() as int / l as int,
            {
            }
        }
        return Vec::new();
    }
    proof {
        assert(page * (l as int) <= rows@.len()) by (nonlinear_arith)
            requires
                l > 0,
                page <= rows@.len() as int / l as int,
        {
        }
    }
    let start: usize = page * l;
    if start >= rows.len() {
        return Vec::new();
    }
    let end: usize = if rows.len() - start < l {
        rows.len()
    } else {
        start + l
    };
    let mut out: Vec<T> = Vec::new();
    let mut k: usize = start;
    while k < end
        invariant
            start <= k <= end <= rows@.len(),
            out@ == rows@.subrange(start as int, k as int),
        decreases end - k,
    {
        out.push(rows[k].clone_row());
        proof {
            assert(out@ =~= rows@.subrange(start as int, k + 1));
        }
        k = k + 1;
    }
    out
}

/// The index of the first column whose order is not `Unordered`,
/// scanning from `k`; `None` when every entry from `k` on is unordered.
pub open spec fn first_active(order: Seq<TableOrder>, k: int) -> Option<int>
    decreases order.len() - k,
{
    if k < 0 || k >= order.len() {
        None
    } else if order[k] != TableOrder::Unordered {
        Some(k)
    } else {
        first_active(order, k + 1)
    }
}

/// A scan that saw only unordered entries before `i` and stopped at `i`
/// has found the first active index (or none, at the end).
pub proof fn lemma_first_active_scan(order: Seq<TableOrder>, k: int, i: int)
    requires
        0 <= k <= i <= order.len(),
        forall|j: int| k <= j < i ==> order[j] == TableOrder::Unordered,
        i == order.len() || order[i] != TableOrder::Unordered,
    ensures
        first_active(order, k) == if i == order.len() {
            None::<int>
        } else {
            Some(i)
        },
    decreases i - k,
{
    if k < i {
        lemma_first_active_scan(order, k + 1, i);
    }
}

/// The sort stage over already filtered rows: if some column is actively
/// ordered and carries a data property, and every row yields a key for
/// it, the rows are stably sorted by that key; in every other case the
/// rows keep their order.
pub open spec fn sort_stage_spec<T: TableData>(
    s: Seq<T>,
    columns: Seq<Column>,
    order: Seq<TableOrder>,
) -> Seq<T> {
    match first_active(order, 0) {
        Option::None => s,
        Option::Some(i) => {
            if i < columns.len() {
                match columns[i].data_property {
                    Option::Some(f) => {
                        if keys_ok(s, f@) {
                            sort_rows_spec(s, f@, order[i] is Ascending)
                        } else {
                            s
                        }
                    },
                    Option::None => s,
                }
            } else {
                s
            }
        },
    }
}

/// The whole view pipeline: filter by the search needle, sort by the
/// active column, then take one page.
pub open spec fn visible_spec<T: TableData>(
    rows: Seq<T>,
    columns: Seq<Column>,
    order: Seq<TableOrder>,
    needle: Option<Seq<char>>,
    limit: Option<usize>,
    page: int,
) -> Seq<T> {
    page_spec(sort_stage_spec(filter_spec(rows, needle), columns, order), limit, page)
}

/// Applies the sort stage: finds the first actively ordered column and
/// stably sorts the rows by its data property, leaving the order alone
/// when no column is active, the column has no data property, or some
/// row fails to yield a key.
pub fn sort_stage<T: TableData>(rows: Vec<T>, columns: &Vec<Column>, order: &Vec<TableOrder>) -> (r:
    Vec<T>)
    ensures
        r@ == sort_stage_spec(rows@, columns@, order@),
{
    let mut i: usize = 0;
    while i < order.len()
        invariant
            0 <= i <= order@.len(),
            forall|j: int| 0 <= j < i ==> order@[j] == TableOrder::Unordered,
        ensures
            0 <= i <= order@.len(),
            forall|j: int| 0 <= j < i ==> order@[j] == TableOrder::Unordered,
            i < order@.len() ==> order@[i as int] != TableOrder::Unordered,
        decreases order@.len() - i,
    {
        if !matches!(order[i], TableOrder::Unordered) {
            break;
        }
        i = i + 1;
    }
    proof {
        lemma_first_active_scan(order@, 0, i as int);
    }
    if i == order.len() {
        return rows;
    }
    if i >= columns.len() {
        return rows;
    }
    let column: &Column = &columns[i];
    let field: &String = match &column.data_property {
        Some(f) => f,
        None => {
            return rows;
        },
    };
    let asc = matches!(order[i], TableOrder::Ascending);
    sort_rows(&rows, field.as_str(), asc)
}

} // verus!
