//! A ready-made row type: integer id, text name, integer value.

use vstd::prelude::*;

use crate::table::error::Error;
use crate::table::error::ErrorV;
use crate::table::text::chars_string;
use crate::table::text::contains_chars;
use crate::table::text::contains_sub;
use crate::table::text::dec_str;
use crate::table::text::fold_chars;
use crate::table::text::fold_seq;
use crate::table::text::int_to_chars;
use crate::table::text::lemma_contains_empty;
use crate::table::text::str_chars;
use crate::table::text::str_eq;
use crate::table::types::TableData;
use crate::table::value::CellValue;
use crate::table::value::KeyVal;

verus! {

/// A simple row with three fields, projected under the names "id",
/// "name" and "value". It sorts by any of the three — the id and the
/// value as integers, the name as text — and matches a search needle
/// by ASCII-case-insensitive containment in its name.
#[derive(Clone, Debug, PartialEq, Eq)]
pub struct Record {
    /// An integer identity, shown in decimal.
    pub id: i64,
    /// A text name; the searchable field.
    pub name: String,
    /// An integer value, shown in decimal.
    pub value: i64,
}

impl Record {
    /// Builds a record from its three fields.
    pub fn new(id: i64, name: String, value: i64) -> (r: Record)
        ensures
            r.id == id,
            r.name == name,
            r.value == value,
    {
        Record { id, name, value }
    }
}

impl TableData for Record {
    open spec fn display_of(&self, field: Seq<char>) -> core::result::Result<Seq<char>, ErrorV> {
        if field == "id"@ {
            Ok(dec_str(self.id as int))
        } else if field == "name"@ {
            Ok(self.name@)
        } else if field == "value"@ {
            Ok(dec_str(self.value as int))
        } else {
            Err(ErrorV::InvalidFieldName(field))
        }
    }

    open spec fn key_of(&self, field: Seq<char>) -> core::result::Result<KeyVal, ErrorV> {
        if field == "id"@ {
            Ok(KeyVal::Int(self.id as int))
        } else if field == "name"@ {
            Ok(KeyVal::Text(self.name@))
        } else if field == "value"@ {
            Ok(KeyVal::Int(self.value as int))
        } else {
            Err(ErrorV::InvalidFieldName(field))
        }
    }

    open spec fn matches_of(&self, needle: Option<Seq<char>>) -> bool {
        match needle {
            Some(n) => contains_sub(fold_seq(self.name@), fold_seq(n)),
            None => true,
        }
    }

    proof fn lemma_empty_needle_matches(&self, needle: Option<Seq<char>>) {
        match needle {
            Some(s) => {
                assert(fold_seq(s).len() == 0);
                lemma_contains_empty(fold_seq(self.name@), fold_seq(s));
            },
            None => {},
        }
    }

    fn get_field_as_html(&self, field_name: &str) -> (r: crate::table::error::Result<String>) {
        if str_eq(field_name, "id") {
            Ok(chars_string(&int_to_chars(self.id)))
        } else if str_eq(field_name, "name") {
            Ok(self.name.clone())
        } else if str_eq(field_name, "value") {
            Ok(chars_string(&int_to_chars(self.value)))
        } else {
            Err(Error::InvalidFieldName(field_name.to_owned()))
        }
    }

    fn get_field_as_value(&self, field_name: &str) -> (r: crate::table::error::Result<CellValue>) {
        if str_eq(field_name, "id") {
            Ok(CellValue::Int(self.id))
        } else if str_eq(field_name, "name") {
            Ok(CellValue::Text(str_chars(self.name.as_str())))
        } else if str_eq(field_name, "value") {
            Ok(CellValue::Int(self.value))
        } else {
            Err(Error::InvalidFieldName(field_name.to_owned()))
        }
    }

    fn matches_search(&self, needle: Option<String>) -> (r: bool) {
        match needle {
            Some(n) => {
                let haystack = fold_chars(&str_chars(self.name.as_str()));
                let wanted = fold_chars(&str_chars(n.as_str()));
                contains_chars(&haystack, &wanted)
            },
            None => true,
        }
    }

    fn clone_row(&self) -> (r: Self) {
        Record { id: self.id, name: self.name.clone(), value: self.value }
    }
}

} // verus!
