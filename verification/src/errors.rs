//! The error taxonomy shared by every stage of the query-resolution
//! pipeline and by the measurement and currency engines.

use vstd::prelude::*;
use vstd::string::*;

verus! {

/// Everything that can go wrong while resolving a query.
///
/// - `EmptyUnit`: a measurement or currency literal had no unit token
///   after its numeric value run.
/// - `UnknownUnit`: the unit token did not match any catalog entry.
/// - `BadNumber`: a term of an arithmetic expression was not a plain
///   decimal literal.
/// - `CategoryMismatch`: arithmetic was attempted on two measurements of
///   different categories.
/// - `QueryFormat`: a conversion-shaped query did not split into exactly
///   two parts around one marker.
/// - `DivisionByZero`: a division's right operand had value zero; exact
///   rational arithmetic has no infinities to fall back on.
/// - `Overflow`: an exact result did not fit the rational value type.
/// - `Provider`: an external collaborator failed or returned an
///   unusable response.
/// - `NotUnderstood`: no pipeline stage produced a usable answer.
#[derive(Debug, Clone, Copy, PartialEq, Eq, Structural)]
pub enum ConvertError {
    EmptyUnit,
    UnknownUnit,
    BadNumber,
    CategoryMismatch,
    QueryFormat,
    DivisionByZero,
    Overflow,
    Provider,
    NotUnderstood,
}

/// The message each error is reported with.
pub open spec fn error_txt_s(e: ConvertError) -> Seq<char> {
    match e {
        ConvertError::EmptyUnit => "empty unit token"@,
        ConvertError::UnknownUnit => "unknown unit token"@,
        ConvertError::BadNumber => "malformed numeric literal"@,
        ConvertError::CategoryMismatch => "arithmetic across unit categories"@,
        ConvertError::QueryFormat => "wrong number of query parts"@,
        ConvertError::DivisionByZero => "division by zero"@,
        ConvertError::Overflow => "value out of range"@,
        ConvertError::Provider => "provider failure"@,
        ConvertError::NotUnderstood => "Sorry, I can't understand that query."@,
    }
}

impl ConvertError {
    /// A short human-readable description of the error.
    pub fn txt(&self) -> (r: String)
        ensures
            r@ == error_txt_s(*self),
    {
        match self {
            ConvertError::EmptyUnit => String::from_str("empty unit token"),
            ConvertError::UnknownUnit => String::from_str("unknown unit token"),
            ConvertError::BadNumber => String::from_str("malformed numeric literal"),
            ConvertError::CategoryMismatch => String::from_str(
                "arithmetic across unit categories",
            ),
            ConvertError::QueryFormat => String::from_str("wrong number of query parts"),
            ConvertError::DivisionByZero => String::from_str("division by zero"),
            ConvertError::Overflow => String::from_str("value out of range"),
            ConvertError::Provider => String::from_str("provider failure"),
            ConvertError::NotUnderstood => String::from_str(
                "Sorry, I can't understand that query.",
            ),
        }
    }
}

} // verus!
