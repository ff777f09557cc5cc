//! The ways in which an operation of the library fails.

use crate::text::string_views;
use vstd::prelude::*;

verus! {

/// Why an operation gave no result.
#[derive(Debug, Clone, Copy, PartialEq, Eq, Structural)]
pub enum CargoError {
    /// The text is not a well-formed document, or a version in it is not
    /// three numbers.
    ParseError,
    /// A section that the operation works on is missing from the document,
    /// or is of another shape than the operation expects.
    SchemaError,
    /// The document does not hold the field that was asked for.
    NotFound,
    /// An argument is outside the values that the operation takes.
    InvalidArgument,
}

/// A result that carries text, by the characters of the text.
pub open spec fn text_result(result: Result<String, CargoError>) -> Result<Seq<char>, CargoError> {
    match result {
        Ok(text) => Ok(text@),
        Err(error) => Err(error),
    }
}

/// A result that carries a list of texts, by the characters of the texts.
pub open spec fn list_result(result: Result<Vec<String>, CargoError>) -> Result<
    Seq<Seq<char>>,
    CargoError,
> {
    match result {
        Ok(list) => Ok(string_views(list@)),
        Err(error) => Err(error),
    }
}

} // verus!
