//! Sort fields and directions.

use vstd::prelude::*;

use crate::ParseError;
use crate::casing::FieldCase;
use crate::casing::apply_case;
use crate::casing::transform_case;
use crate::filter::opt_str_view;
use crate::filter::table_prefix;
use crate::strings::spec_split_once;
use crate::strings::split_once_at;
use crate::strings::str_eq;
use vstd::string::StringExecFns;

verus! {

/// The direction of a sort: its parse token is `asc` or `desc`, its
/// SQL rendering `ASC` or `DESC`.
#[derive(Debug, PartialEq, Eq, Structural, Clone, Copy)]
pub enum SortBy {
    ASC,
    DESC,
}

/// The direction, if any, that a parse token denotes.
pub open spec fn sortby_of_token(s: Seq<char>) -> Option<SortBy> {
    if s == "asc"@ {
        Some(SortBy::ASC)
    } else if s == "desc"@ {
        Some(SortBy::DESC)
    } else {
        None
    }
}

/// The SQL keyword that renders a direction.
pub open spec fn sortby_symbol(s: SortBy) -> Seq<char> {
    match s {
        SortBy::ASC => "ASC"@,
        SortBy::DESC => "DESC"@,
    }
}

impl SortBy {
    /// Parse a direction token; any token other than `asc` or `desc`
    /// is rejected with `InvalidSortBy`.
    pub fn from_str(s: &str) -> (r: Result<SortBy, ParseError>)
        ensures
            r == match sortby_of_token(s@) {
                Some(d) => Result::<SortBy, ParseError>::Ok(d),
                None => Result::<SortBy, ParseError>::Err(ParseError::InvalidSortBy),
            },
    {
        if str_eq(s, "asc") {
            Ok(SortBy::ASC)
        } else if str_eq(s, "desc") {
            Ok(SortBy::DESC)
        } else {
            Err(ParseError::InvalidSortBy)
        }
    }

    /// The SQL keyword of this direction.
    pub fn as_str(&self) -> (r: &'static str)
        ensures
            r@ == sortby_symbol(*self),
    {
        match self {
            SortBy::ASC => "ASC",
            SortBy::DESC => "DESC",
        }
    }
}

/// One `field direction` ordering. A query keeps at most one.
#[derive(Debug, PartialEq)]
pub struct Sort {
    pub field: String,
    pub sort_by: SortBy,
}

/// The mathematical content of a [`Sort`].
pub ghost struct SortView {
    pub field: Seq<char>,
    pub sort_by: SortBy,
}

impl View for Sort {
    type V = SortView;

    open spec fn view(&self) -> SortView {
        SortView { field: self.field@, sort_by: self.sort_by }
    }
}

/// Parse a `field-direction` token: the first `-` cuts the token
/// into field and direction.
pub open spec fn spec_parse_sort(s: Seq<char>) -> Result<SortView, ParseError> {
    match spec_split_once(s, '-') {
        None => Err(ParseError::InvalidSort),
        Some((field, dir)) => match sortby_of_token(dir) {
            None => Err(ParseError::InvalidSortBy),
            Some(d) => Ok(SortView { field, sort_by: d }),
        },
    }
}

/// The SQL rendering of one sort:
/// `[table.]field ASC|DESC`, the field under the case transform.
pub open spec fn sort_sql(s: SortView, table: Option<Seq<char>>, case: Option<FieldCase>) -> Seq<
    char,
> {
    table_prefix(table) + apply_case(case, s.field) + " "@ + sortby_symbol(s.sort_by)
}

impl Sort {
    /// Parse a `field-direction` token, as [`spec_parse_sort`]
    /// describes. No allow-list check happens here.
    pub fn new(str: &str) -> (r: Result<Sort, ParseError>)
        ensures
            match r {
                Ok(s) => spec_parse_sort(str@) == Ok::<SortView, ParseError>(s@),
                Err(e) => spec_parse_sort(str@) == Err::<SortView, ParseError>(e),
            },
    {
        let (field, dir) = match split_once_at(str, '-') {
            Some(s) => s,
            None => {
                return Err(ParseError::InvalidSort);
            },
        };

        let sort_by = match SortBy::from_str(dir) {
            Ok(d) => d,
            Err(e) => {
                return Err(e);
            },
        };

        Ok(Sort { field: field.to_owned(), sort_by })
    }

    /// The SQL rendering `[table.]field ASC|DESC`, as [`sort_sql`]
    /// describes.
    pub fn to_sql_map_table(&self, table: Option<&String>, case: Option<FieldCase>) -> (r: String)
        ensures
            r@ == sort_sql(self@, opt_str_view(table), case),
    {
        let mut sql = String::new();
        if let Some(table) = table {
            sql.append(table.as_str());
            sql.append(".");
        }
        let field = transform_case(case, self.field.as_str());
        sql.append(field.as_str());
        sql.append(" ");
        sql.append(self.sort_by.as_str());

        proof {
            assert(sql@ =~= sort_sql(self@, opt_str_view(table), case));
        }
        sql
    }
}

} // verus!
