//! Translate URL query strings into validated query models and
//! parameterized SQL statements.
//!
//! A raw query string such as `userId=bob&filter[]=price-ge-200&sort=price-desc`
//! is parsed, against a caller-supplied allow-list of field names, into a
//! [`UrlQuery`] model; a [`sql::QueryBuilder`] then renders that model as a
//! `SELECT` statement with numbered bind placeholders and an ordered list of
//! bind arguments.

use vstd::prelude::*;

pub mod casing;
pub mod filter;
pub mod query;
pub mod sort;
pub mod sql;
pub mod strings;
pub mod url_query;

pub use url_query::UrlQuery;

verus! {

/// The reasons a query string can fail to parse.
#[derive(Debug, PartialEq, Eq, Structural, Clone, Copy)]
pub enum ParseError {
    /// A sort token did not split into `field-direction`.
    InvalidSort,
    /// A sort direction was neither `asc` nor `desc`.
    InvalidSortBy,
    /// A filter token did not split into `field-condition-value`.
    InvalidFilter,
    /// A condition token was not one of the six comparison tokens.
    InvalidCondition,
    /// A field name was not in the caller's allow-list.
    InvalidField,
}

impl ParseError {
    /// A human-readable description of the error.
    pub fn message(&self) -> (r: &'static str)
        ensures
            r@ == error_text(*self),
    {
        match self {
            ParseError::InvalidSort => "invalid sort",
            ParseError::InvalidSortBy => "invalid sort by",
            ParseError::InvalidFilter => "invalid filter",
            ParseError::InvalidCondition => "invalid filter condition",
            ParseError::InvalidField => "invalid field",
        }
    }
}

/// The description that [`ParseError::message`] returns for each error.
pub open spec fn error_text(e: ParseError) -> Seq<char> {
    match e {
        ParseError::InvalidSort => "invalid sort"@,
        ParseError::InvalidSortBy => "invalid sort by"@,
        ParseError::InvalidFilter => "invalid filter"@,
        ParseError::InvalidCondition => "invalid filter condition"@,
        ParseError::InvalidField => "invalid field"@,
    }
}

} // verus!
