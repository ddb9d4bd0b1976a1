//! A lighter query model: plain parameters kept with their values,
//! filters, and an optional sort, with no allow-list.

use vstd::prelude::*;

use crate::ParseError;
use crate::filter::Filter;
use crate::filter::FilterView;
use crate::filter::spec_parse_filter;
use crate::sort::Sort;
use crate::sort::SortView;
use crate::sort::spec_parse_sort;
use crate::strings::lemma_split_once_len;
use crate::strings::spec_split_once;
use crate::strings::split_once_at;
use crate::strings::str_eq;
use vstd::string::StringExecFns;

verus! {

/// The key/value map a sequence of pairs denotes: a later pair with
/// the same key wins.
pub open spec fn assoc_map(s: Seq<(String, String)>) -> Map<Seq<char>, Seq<char>>
    decreases s.len(),
{
    if s.len() == 0 {
        Map::empty()
    } else {
        assoc_map(s.drop_last()).insert(s.last().0@, s.last().1@)
    }
}

/// A key is in the map exactly when some pair holds it.
pub proof fn lemma_assoc_map_dom(s: Seq<(String, String)>, k: Seq<char>)
    ensures
        assoc_map(s).dom().contains(k) <==> exists|i: int| 0 <= i < s.len() && s[i].0@ == k,
    decreases s.len(),
{
    if s.len() > 0 {
        lemma_assoc_map_dom(s.drop_last(), k);
        if assoc_map(s).dom().contains(k) {
            if k == s.last().0@ {
                assert(s[s.len() - 1].0@ == k);
            } else {
                let i = choose|i: int| 0 <= i < s.drop_last().len() && s.drop_last()[i].0@ == k;
                assert(s[i].0@ == k);
            }
        }
        if exists|i: int| 0 <= i < s.len() && s[i].0@ == k {
            let i = choose|i: int| 0 <= i < s.len() && s[i].0@ == k;
            if i < s.len() - 1 {
                assert(s.drop_last()[i].0@ == k);
            }
        }
    }
}

/// Whether some pair of `v` holds the key `k`.
fn assoc_contains_key(v: &Vec<(String, String)>, k: &str) -> (r: bool)
    ensures
        r == assoc_map(v@).dom().contains(k@),
{
    let mut i: usize = 0;
    while i < v.len()
        invariant
            i <= v@.len(),
            forall|j: int| 0 <= j < i ==> v@[j].0@ != k@,
        decreases v@.len() - i,
    {
        if str_eq(v[i].0.as_str(), k) {
            proof {
                assert(v@[i as int].0@ == k@);
                lemma_assoc_map_dom(v@, k@);
            }
            return true;
        }
        i = i + 1;
    }
    proof {
        lemma_assoc_map_dom(v@, k@);
    }
    false
}

/// A query model without allow-list validation: the plain `key=value`
/// pairs as a map, the filters in input order, and the last sort.
#[derive(Debug, PartialEq)]
pub struct Query {
    pub query: Vec<(String, String)>,
    pub filters: Vec<Filter>,
    pub sort: Option<Sort>,
}

/// The mathematical content of a [`Query`].
#[verifier::ext_equal]
pub ghost struct QueryView {
    pub query: Map<Seq<char>, Seq<char>>,
    pub filters: Seq<FilterView>,
    pub sort: Option<SortView>,
}

impl View for Query {
    type V = QueryView;

    open spec fn view(&self) -> QueryView {
        QueryView {
            query: assoc_map(self.query@),
            filters: self.filters@.map_values(|f: Filter| f@),
            sort: match self.sort {
                Some(s) => Some(s@),
                None => None,
            },
        }
    }
}

/// The model a parse starts from: nothing seen yet.
pub open spec fn query_empty_model() -> QueryView {
    QueryView { query: Map::empty(), filters: Seq::empty(), sort: None }
}

/// One `key=value` token folded into the model: `filter[]` and
/// `sort` feed their dedicated fields, every other pair lands in the
/// map, a later value for the same key winning; a token without `=`
/// is dropped silently.
pub open spec fn query_parse_token(m: QueryView, tok: Seq<char>) -> Result<QueryView, ParseError> {
    match spec_split_once(tok, '=') {
        None => Ok(m),
        Some((k, v)) => {
            if k == "filter[]"@ {
                match spec_parse_filter(v) {
                    Err(e) => Err(e),
                    Ok(f) => Ok(QueryView { filters: m.filters.push(f), ..m }),
                }
            } else if k == "sort"@ {
                match spec_parse_sort(v) {
                    Err(e) => Err(e),
                    Ok(s) => Ok(QueryView { sort: Some(s), ..m }),
                }
            } else {
                Ok(QueryView { query: m.query.insert(k, v), ..m })
            }
        },
    }
}

/// The `&`-separated tokens of `s` folded into the model, left to
/// right; the first failing token aborts the parse.
pub open spec fn query_parse_rest(m: QueryView, s: Seq<char>) -> Result<QueryView, ParseError>
    decreases s.len(),
    via query_parse_rest_decreases
{
    match spec_split_once(s, '&') {
        None => query_parse_token(m, s),
        Some((tok, rest)) => match query_parse_token(m, tok) {
            Err(e) => Err(e),
            Ok(m2) => query_parse_rest(m2, rest),
        },
    }
}

#[via_fn]
proof fn query_parse_rest_decreases(m: QueryView, s: Seq<char>) {
    if spec_split_once(s, '&') is Some {
        lemma_split_once_len(s, '&');
    }
}

/// The model a whole query string parses to, with no allow-list.
pub open spec fn spec_parse_query(s: Seq<char>) -> Result<QueryView, ParseError> {
    query_parse_rest(query_empty_model(), s)
}

/// Fold one `key=value` token into the partial model `q`, as
/// [`query_parse_token`] describes.
fn query_apply_token(q: &mut Query, tok: &str) -> (r: Result<(), ParseError>)
    ensures
        match r {
            Ok(()) => query_parse_token(old(q)@, tok@) == Ok::<QueryView, ParseError>(final(q)@),
            Err(e) => query_parse_token(old(q)@, tok@) == Err::<QueryView, ParseError>(e),
        },
{
    let (k, v) = match split_once_at(tok, '=') {
        Some(kv) => kv,
        None => {
            return Ok(());
        },
    };

    if str_eq(k, "filter[]") {
        let filter = match Filter::new(v) {
            Ok(f) => f,
            Err(e) => {
                return Err(e);
            },
        };
        let ghost fv = filter@;
        q.filters.push(filter);
        proof {
            assert(q@.filters =~= old(q)@.filters.push(fv));
            assert(q@ =~= (QueryView { filters: old(q)@.filters.push(fv), ..old(q)@ }));
        }
        return Ok(());
    }

    if str_eq(k, "sort") {
        let sort = match Sort::new(v) {
            Ok(s) => s,
            Err(e) => {
                return Err(e);
            },
        };
        let ghost sv = sort@;
        q.sort = Some(sort);
        proof {
            assert(q@ =~= (QueryView { sort: Some(sv), ..old(q)@ }));
        }
        return Ok(());
    }

    q.query.push((k.to_owned(), v.to_owned()));
    proof {
        assert(q.query@.drop_last() =~= old(q).query@);
        assert(q@ =~= (QueryView { query: old(q)@.query.insert(k@, v@), ..old(q)@ }));
    }
    Ok(())
}

impl Query {
    /// Parse a query string with no allow-list, as
    /// [`spec_parse_query`] describes: `Ok` exactly when every
    /// `filter[]` and `sort` token is well formed.
    pub fn from_str(str: &str) -> (r: Result<Query, ParseError>)
        ensures
            match r {
                Ok(q) => spec_parse_query(str@) == Ok::<QueryView, ParseError>(q@),
                Err(e) => spec_parse_query(str@) == Err::<QueryView, ParseError>(e),
            },
    {
        let mut q = Query { query: Vec::new(), filters: Vec::new(), sort: None };
        proof {
            assert(q@.filters =~= query_empty_model().filters);
            assert(q@.query =~= query_empty_model().query);
            assert(q@ =~= query_empty_model());
        }

        let mut rest: &str = str;
        loop
            invariant
                query_parse_rest(q@, rest@) == spec_parse_query(str@),
            decreases rest@.len(),
        {
            match split_once_at(rest, '&') {
                None => {
                    match query_apply_token(&mut q, rest) {
                        Ok(()) => {
                            return Ok(q);
                        },
                        Err(e) => {
                            return Err(e);
                        },
                    }
                },
                Some((tok, rest2)) => {
                    match query_apply_token(&mut q, tok) {
                        Ok(()) => {
                            rest = rest2;
                        },
                        Err(e) => {
                            return Err(e);
                        },
                    }
                },
            }
        }
    }

    /// Check that every required key was present as a plain
    /// parameter: `Ok` exactly when all are, else `<key> is required`
    /// for the first missing one.
    pub fn is_valid(&self, required: Vec<&str>) -> (r: Result<(), String>)
        ensures
            match r {
                Ok(()) => forall|i: int|
                    0 <= i < required@.len() ==> self@.query.dom().contains(
                        #[trigger] required@[i]@,
                    ),
                Err(msg) => exists|i: int|
                    0 <= i < required@.len() && !self@.query.dom().contains(
                        #[trigger] required@[i]@,
                    ) && (forall|j: int|
                        0 <= j < i ==> self@.query.dom().contains(#[trigger] required@[j]@))
                        && msg@ == required@[i]@ + " is required"@,
            },
    {
        let mut i: usize = 0;
        while i < required.len()
            invariant
                i <= required@.len(),
                forall|j: int|
                    0 <= j < i ==> self@.query.dom().contains(#[trigger] required@[j]@),
            decreases required@.len() - i,
        {
            if !assoc_contains_key(&self.query, required[i]) {
                let mut res = String::new();
                res.append(required[i]);
                res.append(" is required");
                return Err(res);
            }
            i = i + 1;
        }

        Ok(())
    }
}

impl core::str::FromStr for Query {
    type Err = ParseError;

    fn from_str(s: &str) -> Result<Self, Self::Err> {
        Query::from_str(s)
    }
}

} // verus!
