//! Table engine: snapshot state, actions, and the view pipeline entry
//! points.
//!
//! A [`Data`] snapshot owns the column registry, the current row set,
//! and the per-column sort state. [`Data::dispatch`] is the pure
//! reducer over snapshots; [`visible_rows`] derives the visible,
//! ordered, paginated row sequence from a snapshot plus the transient
//! search and pagination inputs.

pub mod body;
pub mod error;
pub mod laws;
pub mod record;
pub mod text;
pub mod types;
pub mod value;

use vstd::prelude::*;
use vstd::pervasive::VecAdditionalExecFns;

use crate::table::body::filter_rows;
use crate::table::body::paginate_rows;
use crate::table::body::sort_stage;
use crate::table::body::visible_spec;
use crate::table::types::Column;
use crate::table::types::TableData;
use crate::table::types::TableOrder;
use crate::table::types::TableState;
use crate::table::types::needle_view;

verus! {

/// Display options for the table header: the presentation classes used
/// for each sort state and for orderable columns.
#[derive(Clone, Debug, PartialEq, Eq, Default)]
pub struct Options {
    /// Classes for the unordered state.
    pub unordered_class: Option<String>,
    /// Classes for the ascending state.
    pub ascending_class: Option<String>,
    /// Classes for the descending state.
    pub descending_class: Option<String>,
    /// Classes for the orderable state.
    pub orderable_classes: Vec<String>,
}

impl Options {
    /// The header class for a column in the given sort state.
    pub fn sorting_class(&self, order: TableOrder) -> (r: &Option<String>)
        ensures
            (match order {
                TableOrder::Unordered => r == &self.unordered_class,
                TableOrder::Ascending => r == &self.ascending_class,
                TableOrder::Descending => r == &self.descending_class,
            }),
    {
        match order {
            TableOrder::Unordered => &self.unordered_class,
            TableOrder::Ascending => &self.ascending_class,
            TableOrder::Descending => &self.descending_class,
        }
    }
}

/// Wrapper for the search string.
#[derive(Clone, Debug, PartialEq, Eq, Default)]
pub struct Search {
    /// The search string; `None` or empty means no filtering.
    pub search: Option<String>,
}

/// Pagination window: `limit` rows per page, zero-based `page` index.
#[derive(Clone, Debug, PartialEq, Eq, Default)]
pub struct Pagination {
    /// Rows shown per page; `None` means unpaginated.
    pub limit: Option<usize>,
    /// Zero-based page index; a page past the end yields no rows.
    pub page: usize,
}

/// Actions accepted by the engine's reducer.
#[derive(Debug)]
pub enum Msg<T> where T: TableData {
    /// Rotate the sort order of the column at this index and reset all
    /// other columns to unordered.
    SortColumn(usize),
    /// Replace the whole row set; columns and sort state are untouched.
    SetData(Vec<T>),
}

/// A point-in-time snapshot of the table engine: column registry, row
/// set, and sort state. Actions produce new snapshots and leave the old
/// one unchanged; structural equality makes change detection cheap for
/// callers.
#[derive(Debug, PartialEq, Eq)]
pub struct Data<T> where T: TableData {
    /// The column registry; fixed for the lifetime of the table.
    pub columns: Vec<Column>,
    /// The current full row set, unfiltered and unsorted.
    pub data: Vec<T>,
    /// Whether the table as a whole accepts sorting.
    pub orderable: bool,
    /// Per-column sort order, aligned with `columns` by index.
    pub state: TableState,
}

/// Ghost image of a [`Msg`] action.
pub ghost enum MsgV<T> {
    /// Rotate the sort order of the column at this index.
    SortColumn(int),
    /// Replace the whole row set.
    SetData(Seq<T>),
}

impl<T> View for Msg<T> where T: TableData {
    type V = MsgV<T>;

    open spec fn view(&self) -> MsgV<T> {
        match self {
            Msg::SortColumn(i) => MsgV::SortColumn(*i as int),
            Msg::SetData(rows) => MsgV::SetData(rows@),
        }
    }
}

/// Ghost image of a [`Data`] snapshot.
pub ghost struct DataV<T> {
    /// The column registry.
    pub columns: Seq<Column>,
    /// The current full row set.
    pub rows: Seq<T>,
    /// Whether the table as a whole accepts sorting.
    pub orderable: bool,
    /// Per-column sort order.
    pub order: Seq<TableOrder>,
}

impl<T> View for Data<T> where T: TableData {
    type V = DataV<T>;

    open spec fn view(&self) -> DataV<T> {
        DataV {
            columns: self.columns@,
            rows: self.data@,
            orderable: self.orderable,
            order: self.state.order@,
        }
    }
}

/// The reducer as a function on snapshot images: toggling a column
/// rotates its entry and resets the others; setting the rows replaces
/// the row set and touches nothing else.
pub open spec fn dispatch_spec<T>(d: DataV<T>, action: MsgV<T>) -> DataV<T> {
    match action {
        MsgV::SortColumn(i) => DataV { order: toggle_spec(d.order, i), ..d },
        MsgV::SetData(rows) => DataV { rows, ..d },
    }
}

/// At most one column is actively ordered.
pub open spec fn at_most_one_active(order: Seq<TableOrder>) -> bool {
    forall|i: int, j: int|
        0 <= i < j < order.len() ==> order[i] == TableOrder::Unordered || order[j]
            == TableOrder::Unordered
}

/// The sort state after toggling column `i`: entry `i` rotates one step,
/// every other entry is forced back to unordered.
pub open spec fn toggle_spec(order: Seq<TableOrder>, i: int) -> Seq<TableOrder> {
    Seq::new(
        order.len(),
        |j: int|
            if j == i {
                order[j].spec_rotate()
            } else {
                TableOrder::Unordered
            },
    )
}

impl<T> Data<T> where T: TableData {
    /// The snapshot is well formed when the sort state has exactly one
    /// entry per column and at most one column is actively ordered.
    pub open spec fn wf(self) -> bool {
        self.state.order@.len() == self.columns@.len() && at_most_one_active(self.state.order@)
    }

    /// The pure reducer: applies one action to this snapshot and returns
    /// the next one. Toggling any index, even one out of range or on a
    /// non-orderable column, is safe: out-of-range indices leave every
    /// entry unordered.
    pub fn dispatch(self, action: Msg<T>) -> (r: Data<T>)
        ensures
            r@ == dispatch_spec(self@, action@),
            r.columns == self.columns,
            r.orderable == self.orderable,
            (match action {
                Msg::SortColumn(i) => r.data == self.data && r.state.order@ == toggle_spec(
                    self.state.order@,
                    i as int,
                ),
                Msg::SetData(rows) => r.data == rows && r.state == self.state,
            }),
            self.wf() ==> r.wf(),
    {
        let ghost orig = self;
        let mut new = self;
        match action {
            Msg::SortColumn(i) => {
                let ghost order_before = new.state.order@;
                let n = new.state.order.len();
                let mut j: usize = 0;
                while j < n
                    invariant
                        0 <= j <= n,
                        n == new.state.order@.len(),
                        new.state.order@.len() == order_before.len(),
                        order_before == orig.state.order@,
                        new.columns == orig.columns,
                        new.data == orig.data,
                        new.orderable == orig.orderable,
                        forall|k: int|
                            0 <= k < j ==> new.state.order@[k] == toggle_spec(order_before, i as int)[k],
                        forall|k: int| j <= k < n ==> new.state.order@[k] == order_before[k],
                    decreases n - j,
                {
                    if j == i {
                        let rotated = new.state.order[j].rotate();
                        new.state.order.set(j, rotated);
                    } else {
                        new.state.order.set(j, TableOrder::Unordered);
                    }
                    j = j + 1;
                }
                proof {
                    assert(new.state.order@ =~= toggle_spec(order_before, i as int));
                    laws::lemma_toggle_single_active(order_before, i as int);
                }
            },
            Msg::SetData(rows) => {
                new.data = rows;
            },
        }
        new
    }
}

/// Builds the initial snapshot for a table: the given columns and rows,
/// with every column unordered.
pub fn new_table<T: TableData>(columns: Vec<Column>, data: Vec<T>, orderable: bool) -> (r: Data<
    T,
>)
    ensures
        r.columns == columns,
        r.data == data,
        r.orderable == orderable,
        r.state.order@.len() == columns@.len(),
        forall|j: int|
            0 <= j < r.state.order@.len() ==> r.state.order@[j] == TableOrder::Unordered,
        r.wf(),
{
    let n = columns.len();
    let mut order: Vec<TableOrder> = Vec::new();
    while order.len() < n
        invariant
            order@.len() <= n,
            forall|j: int| 0 <= j < order@.len() ==> order@[j] == TableOrder::Unordered,
        decreases n - order@.len(),
    {
        order.push(TableOrder::Unordered);
    }
    Data { columns, data, orderable, state: TableState { order } }
}

/// Derives the visible row sequence from a snapshot: filter by the
/// search, sort by the active column, then take one page. A pure read;
/// the snapshot is untouched.
pub fn visible_rows<T: TableData>(snapshot: &Data<T>, search: &Search, pagination: &Pagination) -> (r:
    Vec<T>)
    ensures
        r@ == visible_spec(
            snapshot.data@,
            snapshot.columns@,
            snapshot.state.order@,
            needle_view(search.search),
            pagination.limit,
            pagination.page as int,
        ),
{
    let filtered = filter_rows(&snapshot.data, &search.search);
    let sorted = sort_stage(filtered, &snapshot.columns, &snapshot.state.order);
    paginate_rows(&sorted, pagination.limit, pagination.page)
}

/// The field a column projects for display: its data property when set,
/// else its name.
pub open spec fn cell_field_spec(column: Column) -> Seq<char> {
    match column.data_property {
        Option::Some(p) => p@,
        Option::None => column.name@,
    }
}

/// Projects one cell of a row for display, or reports the row type's
/// projection error for that field.
pub fn render_cell<T: TableData>(row: &T, column: &Column) -> (r: error::Result<String>)
    ensures
        (match (r, row.display_of(cell_field_spec(*column))) {
            (Ok(text), Ok(d)) => text@ == d,
            (Err(e), Err(v)) => e@ == v,
            _ => false,
        }),
{
    let field: &String = match &column.data_property {
        Some(p) => p,
        None => &column.name,
    };
    row.get_field_as_html(field.as_str())
}

/// The text one cell shows: the display projection of the column's
/// field, or empty text when the projection fails.
pub open spec fn cell_text_spec<T: TableData>(row: T, column: Column) -> Seq<char> {
    match row.display_of(cell_field_spec(column)) {
        Result::Ok(d) => d,
        Result::Err(_) => Seq::empty(),
    }
}

/// Renders one row against the column registry: one text per column. A
/// cell whose projection fails renders as empty text; it never aborts
/// the rest of the row.
pub fn render_row<T: TableData>(row: &T, columns: &Vec<Column>) -> (r: Vec<String>)
    ensures
        r@.len() == columns@.len(),
        forall|i: int| 0 <= i < columns@.len() ==> r@[i]@ == cell_text_spec(*row, columns@[i]),
{
    let mut out: Vec<String> = Vec::new();
    let mut i: usize = 0;
    while i < columns.len()
        invariant
            0 <= i <= columns@.len(),
            out@.len() == i,
            forall|k: int| 0 <= k < i ==> out@[k]@ == cell_text_spec(*row, columns@[k]),
        decreases columns@.len() - i,
    {
        match render_cell(row, &columns[i]) {
            Ok(text) => out.push(text),
            Err(_) => out.push(String::new()),
        }
        i = i + 1;
    }
    out
}

} // verus!
