//! Field-projection errors reported by row types.

use vstd::prelude::*;

verus! {

/// Failure to project a field off a row.
#[derive(Debug)]
pub enum Error {
    /// The field exists but has no display representation.
    NonRenderableField(String),
    /// The field name is unknown to the row type.
    InvalidFieldName(String),
}

/// Ghost image of an [`Error`]: the variant plus the field name it carries.
pub ghost enum ErrorV {
    /// The field exists but has no display representation.
    NonRenderableField(Seq<char>),
    /// The field name is unknown to the row type.
    InvalidFieldName(Seq<char>),
}

impl View for Error {
    type V = ErrorV;

    open spec fn view(&self) -> ErrorV {
        match self {
            Error::NonRenderableField(f) => ErrorV::NonRenderableField(f@),
            Error::InvalidFieldName(f) => ErrorV::InvalidFieldName(f@),
        }
    }
}

impl Error {
    /// The name of the field the projection failed on.
    pub fn field_name(&self) -> (r: &String)
        ensures
            (match self@ {
                ErrorV::NonRenderableField(f) => r@ == f,
                ErrorV::InvalidFieldName(f) => r@ == f,
            }),
    {
        match self {
            Error::NonRenderableField(f) => f,
            Error::InvalidFieldName(f) => f,
        }
    }

    /// A short, static description of the error kind.
    pub fn description(&self) -> (r: &'static str)
        ensures
            (self@ is InvalidFieldName ==> r@ == "Invalid field name given."@),
            (self@ is NonRenderableField ==> r@ == "Field has no HTML representation defined."@),
    {
        match self {
            Error::InvalidFieldName(_) => "Invalid field name given.",
            Error::NonRenderableField(_) => "Field has no HTML representation defined.",
        }
    }
}

/// Result alias used by the row-projection methods.
pub type Result<T> = core::result::Result<T, Error>;

} // verus!
