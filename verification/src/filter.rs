//! Comparison conditions and single filters.

use vstd::prelude::*;

use crate::ParseError;
use crate::casing::FieldCase;
use crate::casing::apply_case;
use crate::casing::transform_case;
use crate::sql::Database;
use crate::strings::dec_str;
use crate::strings::spec_split_once;
use crate::strings::split_once_at;
use crate::strings::str_eq;
use crate::strings::usize_to_string;
use vstd::string::StringExecFns;

verus! {

/// A comparison operator of a filter: the closed set of six
/// two-letter parse tokens and their SQL symbols.
#[derive(Debug, PartialEq, Eq, Structural, Clone, Copy)]
pub enum Condition {
    EQ,
    NE,
    GT,
    GE,
    LT,
    LE,
}

/// The condition, if any, that a parse token denotes.
pub open spec fn cond_of_token(s: Seq<char>) -> Option<Condition> {
    if s == "eq"@ {
        Some(Condition::EQ)
    } else if s == "ne"@ {
        Some(Condition::NE)
    } else if s == "gt"@ {
        Some(Condition::GT)
    } else if s == "ge"@ {
        Some(Condition::GE)
    } else if s == "lt"@ {
        Some(Condition::LT)
    } else if s == "le"@ {
        Some(Condition::LE)
    } else {
        None
    }
}

/// The parse token of each condition.
pub open spec fn cond_token(c: Condition) -> Seq<char> {
    match c {
        Condition::EQ => "eq"@,
        Condition::NE => "ne"@,
        Condition::GT => "gt"@,
        Condition::GE => "ge"@,
        Condition::LT => "lt"@,
        Condition::LE => "le"@,
    }
}

/// The SQL symbol that renders a condition.
pub open spec fn cond_symbol(c: Condition) -> Seq<char> {
    match c {
        Condition::EQ => "="@,
        Condition::NE => "!="@,
        Condition::GT => ">"@,
        Condition::GE => ">="@,
        Condition::LT => "<"@,
        Condition::LE => "<="@,
    }
}

impl Condition {
    /// Parse a two-letter condition token; any other token is
    /// rejected with `InvalidCondition`.
    pub fn from_str(s: &str) -> (r: Result<Condition, ParseError>)
        ensures
            r == match cond_of_token(s@) {
                Some(c) => Result::<Condition, ParseError>::Ok(c),
                None => Result::<Condition, ParseError>::Err(ParseError::InvalidCondition),
            },
    {
        if str_eq(s, "eq") {
            Ok(Condition::EQ)
        } else if str_eq(s, "ne") {
            Ok(Condition::NE)
        } else if str_eq(s, "gt") {
            Ok(Condition::GT)
        } else if str_eq(s, "ge") {
            Ok(Condition::GE)
        } else if str_eq(s, "lt") {
            Ok(Condition::LT)
        } else if str_eq(s, "le") {
            Ok(Condition::LE)
        } else {
            Err(ParseError::InvalidCondition)
        }
    }

    /// The SQL symbol of this condition.
    pub fn as_str(&self) -> (r: &'static str)
        ensures
            r@ == cond_symbol(*self),
    {
        match self {
            Condition::EQ => "=",
            Condition::NE => "!=",
            Condition::GT => ">",
            Condition::GE => ">=",
            Condition::LT => "<",
            Condition::LE => "<=",
        }
    }
}

/// Parsing a condition token gives back exactly the variant whose
/// token it is: the token table is total and injective over the six
/// variants.
pub proof fn lemma_condition_round_trip(c: Condition)
    ensures
        cond_of_token(cond_token(c)) == Some(c),
{
    reveal_strlit("eq");
    reveal_strlit("ne");
    reveal_strlit("gt");
    reveal_strlit("ge");
    reveal_strlit("lt");
    reveal_strlit("le");
    assert("eq"@ =~= seq!['e', 'q']);
    assert("ne"@ =~= seq!['n', 'e']);
    assert("gt"@ =~= seq!['g', 't']);
    assert("ge"@ =~= seq!['g', 'e']);
    assert("lt"@ =~= seq!['l', 't']);
    assert("le"@ =~= seq!['l', 'e']);
}

/// One `field <condition> value` comparison. The value is an opaque
/// string; no coercion happens in this layer.
#[derive(Debug, PartialEq)]
pub struct Filter {
    pub field: String,
    pub condition: Condition,
    pub value: String,
}

/// The mathematical content of a [`Filter`].
pub ghost struct FilterView {
    pub field: Seq<char>,
    pub condition: Condition,
    pub value: Seq<char>,
}

impl View for Filter {
    type V = FilterView;

    open spec fn view(&self) -> FilterView {
        FilterView { field: self.field@, condition: self.condition, value: self.value@ }
    }
}

/// Parse a `field-condition-value` token: the first two `-`
/// occurrences cut the token, so the value may itself contain `-`.
pub open spec fn spec_parse_filter(s: Seq<char>) -> Result<FilterView, ParseError> {
    match spec_split_once(s, '-') {
        None => Err(ParseError::InvalidFilter),
        Some((field, rest)) => match spec_split_once(rest, '-') {
            None => Err(ParseError::InvalidFilter),
            Some((cond, value)) => match cond_of_token(cond) {
                None => Err(ParseError::InvalidCondition),
                Some(c) => Ok(FilterView { field, condition: c, value }),
            },
        },
    }
}

/// A table qualifier prefix: `table.` when a table is given,
/// nothing otherwise.
pub open spec fn table_prefix(t: Option<Seq<char>>) -> Seq<char> {
    match t {
        None => Seq::empty(),
        Some(t) => t + "."@,
    }
}

/// The SQL rendering of one filter:
/// `[table.]field <symbol> $idx`, the field under the case transform.
pub open spec fn filter_sql(
    f: FilterView,
    idx: nat,
    table: Option<Seq<char>>,
    case: Option<FieldCase>,
) -> Seq<char> {
    table_prefix(table) + apply_case(case, f.field) + " "@ + cond_symbol(f.condition) + " $"@
        + dec_str(idx)
}

/// The characters of an optional borrowed string.
pub open spec fn opt_str_view(t: Option<&String>) -> Option<Seq<char>> {
    match t {
        None => None,
        Some(t) => Some(t@),
    }
}

impl Filter {
    /// Parse a `field-condition-value` token, as
    /// [`spec_parse_filter`] describes. No allow-list check happens
    /// here.
    pub fn new(str: &str) -> (r: Result<Filter, ParseError>)
        ensures
            match r {
                Ok(f) => spec_parse_filter(str@) == Ok::<FilterView, ParseError>(f@),
                Err(e) => spec_parse_filter(str@) == Err::<FilterView, ParseError>(e),
            },
    {
        let (field, rest) = match split_once_at(str, '-') {
            Some(s) => s,
            None => {
                return Err(ParseError::InvalidFilter);
            },
        };

        let (condition, value) = match split_once_at(rest, '-') {
            Some(s) => s,
            None => {
                return Err(ParseError::InvalidFilter);
            },
        };

        let condition = match Condition::from_str(condition) {
            Ok(c) => c,
            Err(e) => {
                return Err(e);
            },
        };

        Ok(Filter { field: field.to_owned(), condition, value: value.to_owned() })
    }

    /// A filter made directly from a plain `key=value` pair, with the
    /// given condition and no allow-list check.
    pub fn from_key_value(key: &str, value: &str, condition: Condition) -> (r: Filter)
        ensures
            r@ == (FilterView { field: key@, condition, value: value@ }),
    {
        Filter { field: key.to_owned(), condition, value: value.to_owned() }
    }

    /// The diagnostic rendering `field <symbol> value`.
    pub fn to_string(&self) -> (r: String)
        ensures
            r@ == self@.field + " "@ + cond_symbol(self@.condition) + " "@ + self@.value,
    {
        let mut filter = String::new();
        filter.append(self.field.as_str());
        filter.append(" ");
        filter.append(self.condition.as_str());
        filter.append(" ");
        filter.append(self.value.as_str());

        proof {
            assert(filter@ =~= self@.field + " "@ + cond_symbol(self@.condition) + " "@
                + self@.value);
        }
        filter
    }

    /// Append this filter's SQL rendering to `filter`.
    fn to_sql(&self, filter: String, idx: usize, case: Option<FieldCase>, database: &Database) -> (r:
        String)
        ensures
            r@ == filter@ + apply_case(case, self@.field) + " "@ + cond_symbol(self@.condition)
                + " $"@ + dec_str(idx as nat),
    {
        let mut filter = filter;
        let ghost prefix = filter@;

        // Check if we need to convert case
        let field = transform_case(case, self.field.as_str());
        filter.append(field.as_str());

        // Push the comparison operator
        filter.append(" ");
        filter.append(self.condition.as_str());
        filter.append(" ");

        // Push the bind placeholder
        match database {
            Database::Postgres => {
                filter.append("$");
                let num = usize_to_string(idx);
                filter.append(num.as_str());
            },
        }

        proof {
            reveal_strlit(" ");
            reveal_strlit("$");
            reveal_strlit(" $");
            assert(" $"@ =~= " "@ + "$"@);
            assert(filter@ =~= prefix + apply_case(case, self@.field) + " "@ + cond_symbol(
                self@.condition,
            ) + " $"@ + dec_str(idx as nat));
        }
        filter
    }

    /// The SQL rendering `[table.]field <symbol> $idx`, as
    /// [`filter_sql`] describes.
    pub fn to_sql_map_table(
        &self,
        idx: usize,
        table: Option<&String>,
        case: Option<FieldCase>,
        database: &Database,
    ) -> (r: String)
        ensures
            r@ == filter_sql(self@, idx as nat, opt_str_view(table), case),
    {
        let mut filter = String::new();
        if let Some(table) = table {
            filter.append(table.as_str());
            filter.append(".");
        }
        proof {
            assert(filter@ =~= table_prefix(opt_str_view(table)));
        }

        let r = self.to_sql(filter, idx, case, database);
        proof {
            assert(r@ =~= filter_sql(self@, idx as nat, opt_str_view(table), case));
        }
        r
    }
}

} // verus!
