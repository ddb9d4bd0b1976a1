//! Parsing a URL query string into a validated query model.

use vstd::prelude::*;

use crate::ParseError;
use crate::filter::Condition;
use crate::filter::Filter;
use crate::filter::FilterView;
use crate::filter::spec_parse_filter;
use crate::sort::Sort;
use crate::sort::SortView;
use crate::sort::spec_parse_sort;
use crate::strings::lemma_split_once_len;
use crate::strings::spec_split_once;
use crate::strings::split_once_at;
use crate::strings::str_eq;
use vstd::string::StringExecFns;

verus! {

/// The set of field names an allow-list (a sequence of strings)
/// admits.
pub open spec fn field_set(fields: Seq<String>) -> Set<Seq<char>> {
    Set::new(|f: Seq<char>| exists|i: int| 0 <= i < fields.len() && fields[i]@ == f)
}

/// Whether any string of `v` holds the characters of `s`.
pub fn vec_contains_str(v: &Vec<String>, s: &str) -> (r: bool)
    ensures
        r == field_set(v@).contains(s@),
{
    let mut i: usize = 0;
    while i < v.len()
        invariant
            i <= v@.len(),
            forall|j: int| 0 <= j < i ==> v@[j]@ != s@,
        decreases v@.len() - i,
    {
        if str_eq(v[i].as_str(), s) {
            proof {
                assert(v@[i as int]@ == s@);
            }
            return true;
        }
        i = i + 1;
    }
    false
}

/// Accept a field name that the allow-list admits; reject any other
/// with `InvalidField`.
pub fn check_allowed_fields(field: &str, allowed_fields: &Vec<String>) -> (r: Result<
    (),
    ParseError,
>)
    ensures
        r == if field_set(allowed_fields@).contains(field@) {
            Result::<(), ParseError>::Ok(())
        } else {
            Result::<(), ParseError>::Err(ParseError::InvalidField)
        },
{
    if !vec_contains_str(allowed_fields, field) {
        return Err(ParseError::InvalidField);
    }

    Ok(())
}

/// The parsed form of a whole query string: which plain parameters
/// were present, the filters in input order, and the optional group,
/// sort, limit and offset.
#[derive(Debug, PartialEq)]
pub struct UrlQuery {
    pub params: Vec<String>,
    pub filters: Vec<Filter>,
    pub group: Option<String>,
    pub sort: Option<Sort>,
    pub limit_offset: (Option<String>, Option<String>),
}

/// The characters of an optional string.
pub open spec fn opt_view(t: Option<String>) -> Option<Seq<char>> {
    match t {
        None => None,
        Some(t) => Some(t@),
    }
}

/// The mathematical content of a [`UrlQuery`].
#[verifier::ext_equal]
pub ghost struct UrlQueryView {
    pub params: Set<Seq<char>>,
    pub filters: Seq<FilterView>,
    pub group: Option<Seq<char>>,
    pub sort: Option<SortView>,
    pub limit: Option<Seq<char>>,
    pub offset: Option<Seq<char>>,
}

impl View for UrlQuery {
    type V = UrlQueryView;

    open spec fn view(&self) -> UrlQueryView {
        UrlQueryView {
            params: field_set(self.params@),
            filters: self.filters@.map_values(|f: Filter| f@),
            group: opt_view(self.group),
            sort: match self.sort {
                Some(s) => Some(s@),
                None => None,
            },
            limit: opt_view(self.limit_offset.0),
            offset: opt_view(self.limit_offset.1),
        }
    }
}

/// The model a parse starts from: nothing seen yet.
pub open spec fn empty_model() -> UrlQueryView {
    UrlQueryView {
        params: Set::empty(),
        filters: Seq::empty(),
        group: None,
        sort: None,
        limit: None,
        offset: None,
    }
}

/// One `key=value` token folded into the model. A token without `=`
/// is dropped silently; the reserved keys `filter[]`, `group`,
/// `sort`, `limit` and `offset` feed their dedicated fields; any
/// other key must pass the allow-list and becomes a plain parameter
/// with an implicit equality filter.
pub open spec fn parse_token(m: UrlQueryView, tok: Seq<char>, allowed: Set<Seq<char>>) -> Result<
    UrlQueryView,
    ParseError,
> {
    match spec_split_once(tok, '=') {
        None => Ok(m),
        Some((k, v)) => {
            if k == "filter[]"@ {
                match spec_parse_filter(v) {
                    Err(e) => Err(e),
                    Ok(f) => if !allowed.contains(f.field) {
                        Err(ParseError::InvalidField)
                    } else {
                        Ok(UrlQueryView { filters: m.filters.push(f), ..m })
                    },
                }
            } else if k == "group"@ {
                if !allowed.contains(v) {
                    Err(ParseError::InvalidField)
                } else {
                    Ok(UrlQueryView { group: Some(v), ..m })
                }
            } else if k == "sort"@ {
                match spec_parse_sort(v) {
                    Err(e) => Err(e),
                    Ok(s) => if !allowed.contains(s.field) {
                        Err(ParseError::InvalidField)
                    } else {
                        Ok(UrlQueryView { sort: Some(s), ..m })
                    },
                }
            } else if k == "limit"@ {
                Ok(UrlQueryView { limit: Some(v), ..m })
            } else if k == "offset"@ {
                Ok(UrlQueryView { offset: Some(v), ..m })
            } else {
                if !allowed.contains(k) {
                    Err(ParseError::InvalidField)
                } else {
                    Ok(
                        UrlQueryView {
                            params: m.params.insert(k),
                            filters: m.filters.push(
                                FilterView { field: k, condition: Condition::EQ, value: v },
                            ),
                            ..m
                        },
                    )
                }
            }
        },
    }
}

/// The `&`-separated tokens of `s` folded into the model, left to
/// right; the first failing token aborts the parse.
pub open spec fn parse_rest(m: UrlQueryView, s: Seq<char>, allowed: Set<Seq<char>>) -> Result<
    UrlQueryView,
    ParseError,
>
    decreases s.len(),
    via parse_rest_decreases
{
    match spec_split_once(s, '&') {
        None => parse_token(m, s, allowed),
        Some((tok, rest)) => match parse_token(m, tok, allowed) {
            Err(e) => Err(e),
            Ok(m2) => parse_rest(m2, rest, allowed),
        },
    }
}

#[via_fn]
proof fn parse_rest_decreases(m: UrlQueryView, s: Seq<char>, allowed: Set<Seq<char>>) {
    if spec_split_once(s, '&') is Some {
        lemma_split_once_len(s, '&');
    }
}

/// The model a whole query string parses to, against an allow-list:
/// the output order of `filters` mirrors the left-to-right order of
/// the input tokens.
pub open spec fn spec_parse_url_query(s: Seq<char>, allowed: Set<Seq<char>>) -> Result<
    UrlQueryView,
    ParseError,
> {
    parse_rest(empty_model(), s, allowed)
}

/// Pushing a string extends the admitted set by its characters.
proof fn lemma_field_set_push(v: Seq<String>, x: String)
    ensures
        field_set(v.push(x)) == field_set(v).insert(x@),
{
    assert forall|f: Seq<char>| field_set(v.push(x)).contains(f) implies field_set(v).insert(
        x@,
    ).contains(f) by {
        let i = choose|i: int| 0 <= i < v.push(x).len() && v.push(x)[i]@ == f;
        if i < v.len() {
            assert(v[i]@ == f);
        }
    };
    assert forall|f: Seq<char>| field_set(v).insert(x@).contains(f) implies field_set(
        v.push(x),
    ).contains(f) by {
        if f == x@ {
            assert(v.push(x)[v.len() as int]@ == f);
        } else {
            let i = choose|i: int| 0 <= i < v.len() && v[i]@ == f;
            assert(v.push(x)[i]@ == f);
        }
    };
    assert(field_set(v.push(x)) =~= field_set(v).insert(x@));
}

/// Fold one `key=value` token into the partial model `q`, as
/// [`parse_token`] describes.
fn apply_token(q: &mut UrlQuery, tok: &str, allowed_fields: &Vec<String>) -> (r: Result<
    (),
    ParseError,
>)
    ensures
        match r {
            Ok(()) => parse_token(old(q)@, tok@, field_set(allowed_fields@)) == Ok::<
                UrlQueryView,
                ParseError,
            >(final(q)@),
            Err(e) => parse_token(old(q)@, tok@, field_set(allowed_fields@)) == Err::<
                UrlQueryView,
                ParseError,
            >(e),
        },
{
    let ghost allowed = field_set(allowed_fields@);

    let (k, v) = match split_once_at(tok, '=') {
        Some(kv) => kv,
        None => {
            return Ok(());
        },
    };

    if str_eq(k, "filter[]") {
        let filter = match Filter::new(v) {
            Ok(f) => f,
            Err(e) => {
                return Err(e);
            },
        };
        if let Err(e) = check_allowed_fields(filter.field.as_str(), allowed_fields) {
            return Err(e);
        }
        let ghost fv = filter@;
        q.filters.push(filter);
        proof {
            assert(q@.filters =~= old(q)@.filters.push(fv));
            assert(q@ =~= (UrlQueryView { filters: old(q)@.filters.push(fv), ..old(q)@ }));
        }
        return Ok(());
    }

    if str_eq(k, "group") {
        if let Err(e) = check_allowed_fields(v, allowed_fields) {
            return Err(e);
        }
        q.group = Some(v.to_owned());
        proof {
            assert(q@ =~= (UrlQueryView { group: Some(v@), ..old(q)@ }));
        }
        return Ok(());
    }

    if str_eq(k, "sort") {
        let sort = match Sort::new(v) {
            Ok(s) => s,
            Err(e) => {
                return Err(e);
            },
        };
        if let Err(e) = check_allowed_fields(sort.field.as_str(), allowed_fields) {
            return Err(e);
        }
        let ghost sv = sort@;
        q.sort = Some(sort);
        proof {
            assert(q@ =~= (UrlQueryView { sort: Some(sv), ..old(q)@ }));
        }
        return Ok(());
    }

    if str_eq(k, "limit") {
        q.limit_offset.0 = Some(v.to_owned());
        proof {
            assert(q@ =~= (UrlQueryView { limit: Some(v@), ..old(q)@ }));
        }
        return Ok(());
    }

    if str_eq(k, "offset") {
        q.limit_offset.1 = Some(v.to_owned());
        proof {
            assert(q@ =~= (UrlQueryView { offset: Some(v@), ..old(q)@ }));
        }
        return Ok(());
    }

    if let Err(e) = check_allowed_fields(k, allowed_fields) {
        return Err(e);
    }
    q.filters.push(Filter::from_key_value(k, v, Condition::EQ));

    // To check required:
    if !vec_contains_str(&q.params, k) {
        q.params.push(k.to_owned());
        proof {
            lemma_field_set_push(old(q).params@, final(q).params@.last());
        }
    } else {
        proof {
            assert(field_set(q.params@) =~= field_set(q.params@).insert(k@));
        }
    }
    proof {
        assert(q@.filters =~= old(q)@.filters.push(
            FilterView { field: k@, condition: Condition::EQ, value: v@ },
        ));
        assert(q@ =~= (UrlQueryView {
            params: old(q)@.params.insert(k@),
            filters: old(q)@.filters.push(
                FilterView { field: k@, condition: Condition::EQ, value: v@ },
            ),
            ..old(q)@
        }));
    }
    Ok(())
}

impl UrlQuery {
    /// Parse a query string against an allow-list, as
    /// [`spec_parse_url_query`] describes: `Ok` exactly when every
    /// token is well formed and every referenced field is admitted.
    pub fn new(str: &str, allowed_fields: &Vec<String>) -> (r: Result<UrlQuery, ParseError>)
        ensures
            match r {
                Ok(q) => spec_parse_url_query(str@, field_set(allowed_fields@)) == Ok::<
                    UrlQueryView,
                    ParseError,
                >(q@),
                Err(e) => spec_parse_url_query(str@, field_set(allowed_fields@)) == Err::<
                    UrlQueryView,
                    ParseError,
                >(e),
            },
    {
        let ghost allowed = field_set(allowed_fields@);

        let mut q = UrlQuery {
            params: Vec::new(),
            filters: Vec::new(),
            group: None,
            sort: None,
            limit_offset: (None, None),
        };
        proof {
            assert(q@.params =~= empty_model().params);
            assert(q@.filters =~= empty_model().filters);
            assert(q@ =~= empty_model());
        }

        let mut rest: &str = str;
        loop
            invariant
                allowed == field_set(allowed_fields@),
                parse_rest(q@, rest@, allowed) == spec_parse_url_query(str@, allowed),
            decreases rest@.len(),
        {
            match split_once_at(rest, '&') {
                None => {
                    match apply_token(&mut q, rest, allowed_fields) {
                        Ok(()) => {
                            return Ok(q);
                        },
                        Err(e) => {
                            return Err(e);
                        },
                    }
                },
                Some((tok, rest2)) => {
                    match apply_token(&mut q, tok, allowed_fields) {
                        Ok(()) => {
                            rest = rest2;
                        },
                        Err(e) => {
                            return Err(e);
                        },
                    }
                },
            }
        }
    }

    /// Check that every required key was present as a plain
    /// parameter: `Ok` exactly when all are, else `<key> is required`
    /// for the first missing one.
    pub fn check_required(&self, required: Vec<&str>) -> (r: Result<(), String>)
        ensures
            match r {
                Ok(()) => forall|i: int|
                    0 <= i < required@.len() ==> self@.params.contains(#[trigger] required@[i]@),
                Err(msg) => exists|i: int|
                    0 <= i < required@.len() && !self@.params.contains(#[trigger] required@[i]@)
                        && (forall|j: int|
                        0 <= j < i ==> self@.params.contains(#[trigger] required@[j]@)) && msg@
                        == required@[i]@ + " is required"@,
            },
    {
        let mut i: usize = 0;
        while i < required.len()
            invariant
                i <= required@.len(),
                forall|j: int| 0 <= j < i ==> self@.params.contains(#[trigger] required@[j]@),
            decreases required@.len() - i,
        {
            if !vec_contains_str(&self.params, required[i]) {
                let mut res = String::new();
                res.append(required[i]);
                res.append(" is required");
                return Err(res);
            }
            i = i + 1;
        }

        Ok(())
    }

    /// The limit, when one was given, else `limit is required`.
    pub fn check_limit(&self) -> (r: Result<&str, String>)
        ensures
            match r {
                Ok(l) => self@.limit == Some(l@),
                Err(msg) => self@.limit is None && msg@ == "limit is required"@,
            },
    {
        match &self.limit_offset.0 {
            Some(limit) => Ok(limit.as_str()),
            None => Err(String::from_str("limit is required")),
        }
    }

    /// The offset, when one was given, else `offset is required`.
    pub fn check_offset(&self) -> (r: Result<&str, String>)
        ensures
            match r {
                Ok(o) => self@.offset == Some(o@),
                Err(msg) => self@.offset is None && msg@ == "offset is required"@,
            },
    {
        match &self.limit_offset.1 {
            Some(offset) => Ok(offset.as_str()),
            None => Err(String::from_str("offset is required")),
        }
    }

    /// Both limit and offset, when both were given; the limit's
    /// failure message wins when it is missing.
    pub fn check_limit_and_offset(&self) -> (r: Result<(&str, &str), String>)
        ensures
            match r {
                Ok(p) => self@.limit == Some(p.0@) && self@.offset == Some(p.1@),
                Err(msg) => (self@.limit is None && msg@ == "limit is required"@) || (
                self@.limit is Some && self@.offset is None && msg@ == "offset is required"@),
            },
    {
        let limit = match self.check_limit() {
            Ok(l) => l,
            Err(e) => {
                return Err(e);
            },
        };
        let offset = match self.check_offset() {
            Ok(o) => o,
            Err(e) => {
                return Err(e);
            },
        };

        Ok((limit, offset))
    }

    /// The list of filters, open for adjustment.
    pub fn filters_mut(&mut self) -> (r: &mut Vec<Filter>)
        ensures
            *r == old(self).filters,
            final(self).filters == *final(r),
            final(self).params == old(self).params,
            final(self).group == old(self).group,
            final(self).sort == old(self).sort,
            final(self).limit_offset == old(self).limit_offset,
    {
        &mut self.filters
    }

    /// The group field, open for adjustment.
    pub fn group_mut(&mut self) -> (r: &mut Option<String>)
        ensures
            *r == old(self).group,
            final(self).group == *final(r),
            final(self).params == old(self).params,
            final(self).filters == old(self).filters,
            final(self).sort == old(self).sort,
            final(self).limit_offset == old(self).limit_offset,
    {
        &mut self.group
    }

    /// The sort, open for adjustment.
    pub fn sort_mut(&mut self) -> (r: &mut Option<Sort>)
        ensures
            *r == old(self).sort,
            final(self).sort == *final(r),
            final(self).params == old(self).params,
            final(self).filters == old(self).filters,
            final(self).group == old(self).group,
            final(self).limit_offset == old(self).limit_offset,
    {
        &mut self.sort
    }

    /// The limit and offset pair, open for adjustment.
    pub fn limit_offset_mut(&mut self) -> (r: &mut (Option<String>, Option<String>))
        ensures
            *r == old(self).limit_offset,
            final(self).limit_offset == *final(r),
            final(self).params == old(self).params,
            final(self).filters == old(self).filters,
            final(self).group == old(self).group,
            final(self).sort == old(self).sort,
    {
        &mut self.limit_offset
    }
}

/// Every field name the model mentions — filter fields, plain
/// parameters, the group field, the sort field — is admitted by the
/// allow-list.
pub open spec fn model_fields_allowed(m: UrlQueryView, allowed: Set<Seq<char>>) -> bool {
    &&& forall|i: int|
        0 <= i < m.filters.len() ==> allowed.contains(#[trigger] m.filters[i].field)
    &&& m.params.subset_of(allowed)
    &&& (m.group matches Some(g) ==> allowed.contains(g))
    &&& (m.sort matches Some(s) ==> allowed.contains(s.field))
}

/// Folding one token keeps every mentioned field admitted.
proof fn lemma_parse_token_allowed(m: UrlQueryView, tok: Seq<char>, allowed: Set<Seq<char>>)
    requires
        model_fields_allowed(m, allowed),
        parse_token(m, tok, allowed) is Ok,
    ensures
        model_fields_allowed(parse_token(m, tok, allowed)->Ok_0, allowed),
{
}

/// Folding a whole tail of tokens keeps every mentioned field
/// admitted.
proof fn lemma_parse_rest_allowed(m: UrlQueryView, s: Seq<char>, allowed: Set<Seq<char>>)
    requires
        model_fields_allowed(m, allowed),
        parse_rest(m, s, allowed) is Ok,
    ensures
        model_fields_allowed(parse_rest(m, s, allowed)->Ok_0, allowed),
    decreases s.len(),
{
    match spec_split_once(s, '&') {
        None => {
            lemma_parse_token_allowed(m, s, allowed);
        },
        Some((tok, rest)) => {
            lemma_split_once_len(s, '&');
            lemma_parse_token_allowed(m, tok, allowed);
            lemma_parse_rest_allowed(parse_token(m, tok, allowed)->Ok_0, rest, allowed);
        },
    }
}

/// Allow-list enforcement: a model that parses successfully never
/// holds a field name outside the allow-list, wherever the name
/// stands — filter, plain parameter, group or sort.
pub proof fn lemma_parsed_fields_allowed(s: Seq<char>, allowed: Set<Seq<char>>)
    requires
        spec_parse_url_query(s, allowed) is Ok,
    ensures
        model_fields_allowed(spec_parse_url_query(s, allowed)->Ok_0, allowed),
{
    lemma_parse_rest_allowed(empty_model(), s, allowed);
}

/// Folding one token never reorders filters: the filters already
/// parsed stay, in order, a prefix of what comes out.
proof fn lemma_parse_token_filters_grow(m: UrlQueryView, tok: Seq<char>, allowed: Set<Seq<char>>)
    requires
        parse_token(m, tok, allowed) is Ok,
    ensures
        m.filters.len() <= parse_token(m, tok, allowed)->Ok_0.filters.len(),
        parse_token(m, tok, allowed)->Ok_0.filters.subrange(0, m.filters.len() as int)
            == m.filters,
{
    let out = parse_token(m, tok, allowed)->Ok_0.filters;
    assert(out.subrange(0, m.filters.len() as int) =~= m.filters);
}

/// Order preservation: parsing more of the query string only ever
/// appends filters — what was parsed earlier stays, in order, a
/// prefix of what comes out. Together with the model's exact parse
/// contract, the filter list mirrors the left-to-right order of the
/// input tokens.
pub proof fn lemma_parse_rest_filters_grow(m: UrlQueryView, s: Seq<char>, allowed: Set<Seq<char>>)
    requires
        parse_rest(m, s, allowed) is Ok,
    ensures
        m.filters.len() <= parse_rest(m, s, allowed)->Ok_0.filters.len(),
        parse_rest(m, s, allowed)->Ok_0.filters.subrange(0, m.filters.len() as int) == m.filters,
    decreases s.len(),
{
    match spec_split_once(s, '&') {
        None => {
            lemma_parse_token_filters_grow(m, s, allowed);
        },
        Some((tok, rest)) => {
            lemma_split_once_len(s, '&');
            lemma_parse_token_filters_grow(m, tok, allowed);
            let m2 = parse_token(m, tok, allowed)->Ok_0;
            lemma_parse_rest_filters_grow(m2, rest, allowed);
            let out = parse_rest(m2, rest, allowed)->Ok_0.filters;
            assert(out.subrange(0, m.filters.len() as int) =~= out.subrange(
                0,
                m2.filters.len() as int,
            ).subrange(0, m.filters.len() as int));
        },
    }
}

/// Allow-list enforcement, the rejecting direction for plain keys: a
/// `key=value` token whose key is not reserved and not admitted
/// aborts the parse with `InvalidField`, whatever the model so far.
pub proof fn lemma_disallowed_key_rejected(
    m: UrlQueryView,
    k: Seq<char>,
    v: Seq<char>,
    allowed: Set<Seq<char>>,
)
    requires
        !k.contains('='),
        k != "filter[]"@,
        k != "group"@,
        k != "sort"@,
        k != "limit"@,
        k != "offset"@,
        !allowed.contains(k),
    ensures
        parse_token(m, k + seq!['='] + v, allowed) == Err::<UrlQueryView, ParseError>(
            ParseError::InvalidField,
        ),
{
    let tok = k + seq!['='] + v;
    assert(tok[k.len() as int] == '=');
    assert forall|j: int| 0 <= j < k.len() implies tok[j] != '=' by {
        assert(tok[j] == k[j]);
    };
    crate::strings::lemma_split_once_at_index(tok, '=', k.len() as int);
    assert(tok.take(k.len() as int) =~= k);
    assert(tok.skip(k.len() as int + 1) =~= v);
}

/// Allow-list enforcement, the rejecting direction for filters: a
/// `filter[]=` token whose filter parses but names a field the
/// allow-list does not admit aborts the parse with `InvalidField`,
/// whatever the model so far.
pub proof fn lemma_disallowed_filter_rejected(m: UrlQueryView, t: Seq<char>, allowed: Set<Seq<char>>)
    requires
        spec_parse_filter(t) is Ok,
        !allowed.contains(spec_parse_filter(t)->Ok_0.field),
    ensures
        parse_token(m, "filter[]"@ + seq!['='] + t, allowed) == Err::<UrlQueryView, ParseError>(
            ParseError::InvalidField,
        ),
{
    let k = "filter[]"@;
    reveal_strlit("filter[]");
    assert(!k.contains('=')) by {
        assert forall|j: int| 0 <= j < k.len() implies k[j] != '=' by {
            assert(k =~= seq!['f', 'i', 'l', 't', 'e', 'r', '[', ']']);
        };
    };
    let tok = k + seq!['='] + t;
    assert(tok[k.len() as int] == '=');
    assert forall|j: int| 0 <= j < k.len() implies tok[j] != '=' by {
        assert(tok[j] == k[j]);
    };
    crate::strings::lemma_split_once_at_index(tok, '=', k.len() as int);
    assert(tok.take(k.len() as int) =~= k);
    assert(tok.skip(k.len() as int + 1) =~= t);
}

} // verus!
