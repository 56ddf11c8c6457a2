//! Column descriptors, sort-order flags, and the sort-key value type.

use vstd::prelude::*;

use crate::table::error::ErrorV;
use crate::table::value::CellValue;
use crate::table::value::KeyVal;

verus! {

/// Ghost image of an optional search string.
pub open spec fn needle_view(n: Option<String>) -> Option<Seq<char>> {
    match n {
        Some(s) => Some(s@),
        None => None,
    }
}

/// The capability set a record type must provide to take part in a
/// table: field projection for display, sort-key extraction, search
/// matching, and cloning. All of them are pure functions of the row
/// and their arguments, described by the three ghost projections.
pub trait TableData: Sized {
    /// Ghost projection of a field to its display text, or to the error
    /// the row type reports for that field name.
    spec fn display_of(&self, field: Seq<char>) -> core::result::Result<Seq<char>, ErrorV>;

    /// Ghost projection of a field to its sort key, or to the error the
    /// row type reports for that field name.
    spec fn key_of(&self, field: Seq<char>) -> core::result::Result<KeyVal, ErrorV>;

    /// Ghost search predicate: whether the row matches the needle.
    spec fn matches_of(&self, needle: Option<Seq<char>>) -> bool;

    /// An absent or empty needle matches every row.
    proof fn lemma_empty_needle_matches(&self, needle: Option<Seq<char>>)
        requires
            (needle matches Some(s) ==> s.len() == 0),
        ensures
            self.matches_of(needle),
    ;

    /// Returns the display representation of the named field.
    fn get_field_as_html(&self, field_name: &str) -> (r: crate::table::error::Result<String>)
        ensures
            (match (r, self.display_of(field_name@)) {
                (Ok(text), Ok(d)) => text@ == d,
                (Err(e), Err(v)) => e@ == v,
                _ => false,
            }),
    ;

    /// Returns the named field as a type-erased value, used as the
    /// sorting key for the corresponding column.
    fn get_field_as_value(&self, field_name: &str) -> (r: crate::table::error::Result<CellValue>)
        ensures
            (match (r, self.key_of(field_name@)) {
                (Ok(v), Ok(k)) => v@ == k,
                (Err(e), Err(v)) => e@ == v,
                _ => false,
            }),
    ;

    /// Returns true if the row matches the search needle.
    fn matches_search(&self, needle: Option<String>) -> (r: bool)
        ensures
            r == self.matches_of(needle_view(needle)),
    ;

    /// Returns a row equal to this one.
    fn clone_row(&self) -> (r: Self)
        ensures
            r == *self,
    ;
}

/// Tri-state sort order of one column.
#[derive(Copy, Clone, Eq, PartialEq, Structural, Debug)]
pub enum TableOrder {
    /// The column is unordered.
    Unordered,
    /// The column is ordered in ascending order.
    Ascending,
    /// The column is ordered in descending order.
    Descending,
}

impl TableOrder {
    /// One step of the cyclic rotation:
    /// Unordered -> Ascending -> Descending -> Unordered.
    pub open spec fn spec_rotate(self) -> TableOrder {
        match self {
            TableOrder::Unordered => TableOrder::Ascending,
            TableOrder::Ascending => TableOrder::Descending,
            TableOrder::Descending => TableOrder::Unordered,
        }
    }

    /// Rotates the order: Unordered -> Ascending -> Descending -> Unordered.
    pub fn rotate(self) -> (r: Self)
        ensures
            r == self.spec_rotate(),
    {
        match self {
            TableOrder::Unordered => TableOrder::Ascending,
            TableOrder::Ascending => TableOrder::Descending,
            TableOrder::Descending => TableOrder::Unordered,
        }
    }
}

impl Default for TableOrder {
    /// A fresh column starts unordered.
    fn default() -> (r: Self)
        ensures
            r == TableOrder::Unordered,
    {
        TableOrder::Unordered
    }
}

/// Rotating three times returns to the starting order, so rotation is a
/// total cyclic function over the three sort states.
pub proof fn lemma_rotate_cycle(o: TableOrder)
    ensures
        o.spec_rotate().spec_rotate().spec_rotate() == o,
{
}

/// Order state of the table: one [`TableOrder`] per column, aligned with
/// the column registry by index.
#[derive(Clone, Debug, PartialEq, Eq, Default)]
pub struct TableState {
    /// The order of the columns.
    pub order: Vec<TableOrder>,
}

/// A column in a table: a named, displayable, optionally sortable field
/// descriptor. Immutable once built.
#[derive(Clone, Debug, PartialEq, Eq, Default)]
pub struct Column {
    /// The name of the column (its stable identity).
    pub name: String,
    /// An optional short display label; the display text falls back to
    /// `name` when absent.
    pub short_name: Option<String>,
    /// The key used to project a field off a row; a column without one
    /// is decorative and cannot be sorted by field.
    pub data_property: Option<String>,
    /// Whether the column may be sorted.
    pub orderable: bool,
    /// Presentation tags for the column header.
    pub header_classes: Vec<String>,
}

impl Column {
    /// The display text of the column: `short_name` if present, else `name`.
    pub fn display_name(&self) -> (r: &String)
        ensures
            (match self.short_name {
                Some(ref s) => r == s,
                None => r == &self.name,
            }),
    {
        match &self.short_name {
            Some(s) => s,
            None => &self.name,
        }
    }
}

/// A builder for a [`Column`].
#[derive(Default)]
pub struct ColumnBuilder {
    /// The name of the column under construction.
    pub name: String,
    /// The optional short display label.
    pub short_name: Option<String>,
    /// The optional field-projection key.
    pub data_property: Option<String>,
    /// Whether the column may be sorted.
    pub orderable: bool,
    /// Accumulated presentation tags for the header.
    pub header_classes: Vec<String>,
}

impl ColumnBuilder {
    /// Starts a column with the given name; everything else defaults to
    /// absent, not orderable, no header tags.
    pub fn new(name: &str) -> (r: Self)
        ensures
            r.name@ == name@,
            r.short_name is None,
            r.data_property is None,
            !r.orderable,
            r.header_classes@.len() == 0,
    {
        Self {
            name: name.to_owned(),
            short_name: None,
            data_property: None,
            orderable: false,
            header_classes: Vec::new(),
        }
    }

    /// Builds the column from the accumulated settings.
    pub fn build(self) -> (r: Column)
        ensures
            r.name == self.name,
            r.short_name == self.short_name,
            r.data_property == self.data_property,
            r.orderable == self.orderable,
            r.header_classes == self.header_classes,
    {
        Column {
            name: self.name,
            short_name: self.short_name,
            data_property: self.data_property,
            orderable: self.orderable,
            header_classes: self.header_classes,
        }
    }

    /// Sets whether the column is orderable.
    pub fn orderable(self, orderable: bool) -> (r: Self)
        ensures
            r == (ColumnBuilder { orderable, ..self }),
    {
        Self { orderable, ..self }
    }

    /// Sets the data property of the column.
    pub fn data_property(self, data_property: &str) -> (r: Self)
        ensures
            r.data_property matches Some(p) && p@ == data_property@,
            r.name == self.name,
            r.short_name == self.short_name,
            r.orderable == self.orderable,
            r.header_classes == self.header_classes,
    {
        Self { data_property: Some(data_property.to_owned()), ..self }
    }

    /// Sets the short display name of the column.
    pub fn short_name(self, short_name: &str) -> (r: Self)
        ensures
            r.short_name matches Some(s) && s@ == short_name@,
            r.name == self.name,
            r.data_property == self.data_property,
            r.orderable == self.orderable,
            r.header_classes == self.header_classes,
    {
        Self { short_name: Some(short_name.to_owned()), ..self }
    }

    /// Adds a presentation tag to the column header.
    pub fn header_class(self, class: &str) -> (r: Self)
        ensures
            r.header_classes@.len() == self.header_classes@.len() + 1,
            r.header_classes@.last()@ == class@,
            (forall|i: int| 0 <= i < self.header_classes@.len()
                ==> r.header_classes@[i] == self.header_classes@[i]),
            r.name == self.name,
            r.short_name == self.short_name,
            r.data_property == self.data_property,
            r.orderable == self.orderable,
    {
        let mut header_classes = self.header_classes;
        header_classes.push(class.to_owned());
        Self { header_classes, ..self }
    }
}

} // verus!
