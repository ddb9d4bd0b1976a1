//! The SQL builder: renders a parsed [`UrlQuery`] as a `SELECT`
//! statement with numbered bind placeholders and an ordered list of
//! bind arguments.

use vstd::prelude::*;

use crate::UrlQuery;
use crate::casing::FieldCase;
use crate::casing::snake_of;
use crate::filter::FilterView;
use crate::filter::filter_sql;
use crate::filter::opt_str_view;
use crate::filter::table_prefix;
use crate::sort::SortView;
use crate::sort::sort_sql;
use crate::strings::join_with;
use crate::strings::lemma_join_with_push;
use crate::strings::str_eq;
use crate::url_query::UrlQueryView;
use vstd::string::StringExecFns;

verus! {

/// The SQL dialect rendered: Postgres numbers its bind placeholders
/// `$1`, `$2`, and so on.
#[derive(Debug)]
pub enum Database {
    Postgres,
}

/// The value the first matching pair of a column map gives a key,
/// if any.
pub open spec fn map_lookup(m: Seq<(String, String)>, k: Seq<char>) -> Option<Seq<char>>
    decreases m.len(),
{
    if m.len() == 0 {
        None
    } else if m[0].0@ == k {
        Some(m[0].1@)
    } else {
        map_lookup(m.drop_first(), k)
    }
}

/// A key whose first match stands at `i` looks up that pair's value.
proof fn lemma_map_lookup_at(m: Seq<(String, String)>, k: Seq<char>, i: int)
    requires
        0 <= i < m.len(),
        m[i].0@ == k,
        forall|j: int| 0 <= j < i ==> m[j].0@ != k,
    ensures
        map_lookup(m, k) == Some(m[i].1@),
    decreases i,
{
    if i > 0 {
        lemma_map_lookup_at(m.drop_first(), k, i - 1);
    }
}

/// A key that no pair holds looks up nothing.
proof fn lemma_map_lookup_none(m: Seq<(String, String)>, k: Seq<char>)
    requires
        forall|j: int| 0 <= j < m.len() ==> m[j].0@ != k,
    ensures
        map_lookup(m, k) is None,
    decreases m.len(),
{
    if m.len() > 0 {
        lemma_map_lookup_none(m.drop_first(), k);
    }
}

/// Look a key up in a column map, as [`map_lookup`] describes.
fn map_get<'a>(m: &'a Vec<(String, String)>, k: &str) -> (r: Option<&'a String>)
    ensures
        opt_str_view(r) == map_lookup(m@, k@),
{
    let mut i: usize = 0;
    while i < m.len()
        invariant
            i <= m@.len(),
            forall|j: int| 0 <= j < i ==> m@[j].0@ != k@,
        decreases m@.len() - i,
    {
        if str_eq(m[i].0.as_str(), k) {
            proof {
                lemma_map_lookup_at(m@, k@, i as int);
            }
            return Some(&m[i].1);
        }
        i = i + 1;
    }
    proof {
        lemma_map_lookup_none(m@, k@);
    }
    None
}

/// One filter's `WHERE` entry: its field looked up in the column map
/// and snake-cased, its bind placeholder numbered `idx`.
pub open spec fn where_item(f: FilterView, idx: nat, map: Seq<(String, String)>) -> Seq<char> {
    filter_sql(f, idx, map_lookup(map, f.field), Some(FieldCase::Snake))
}

/// The `WHERE` entries of all filters, in model order: the entry of
/// filter `i` carries bind index `shift + i + 1`.
pub open spec fn where_items(filters: Seq<FilterView>, map: Seq<(String, String)>, shift: nat) -> Seq<
    Seq<char>,
> {
    Seq::new(filters.len(), |i: int| where_item(filters[i], (shift + i + 1) as nat, map))
}

/// The `WHERE` clause: the entries joined with ` AND `, or nothing
/// at all when there is no filter.
pub open spec fn where_clause(
    filters: Seq<FilterView>,
    map: Seq<(String, String)>,
    shift: nat,
) -> Seq<char> {
    if filters.len() == 0 {
        Seq::empty()
    } else {
        " WHERE "@ + join_with(where_items(filters, map, shift), " AND "@)
    }
}

/// The `GROUP BY` clause of an optional group field, or nothing.
pub open spec fn group_clause(group: Option<Seq<char>>, map: Seq<(String, String)>) -> Seq<char> {
    match group {
        None => Seq::empty(),
        Some(g) => " GROUP BY "@ + table_prefix(map_lookup(map, g)) + snake_of(g),
    }
}

/// The `ORDER BY` clause of an optional sort, or nothing.
pub open spec fn order_clause(sort: Option<SortView>, map: Seq<(String, String)>) -> Seq<char> {
    match sort {
        None => Seq::empty(),
        Some(s) => " ORDER BY "@ + sort_sql(s, map_lookup(map, s.field), Some(FieldCase::Snake)),
    }
}

/// The `LIMIT`/`OFFSET` tail: an offset renders only when a limit
/// does; a limit renders alone.
pub open spec fn limit_clause(limit: Option<Seq<char>>, offset: Option<Seq<char>>) -> Seq<char> {
    match limit {
        None => Seq::empty(),
        Some(l) => " LIMIT "@ + l + match offset {
            None => Seq::<char>::empty(),
            Some(o) => " OFFSET "@ + o,
        },
    }
}

/// Whether an argument list renders the given filters' pairs: one
/// `(field, value)` pair per filter, aligned with the `$n`
/// placeholders.
pub open spec fn args_match(args: Seq<(String, String)>, filters: Seq<FilterView>) -> bool {
    &&& args.len() == filters.len()
    &&& forall|i: int|
        0 <= i < args.len() ==> (#[trigger] args[i]).0@ == filters[i].field && args[i].1@
            == filters[i].value
}

/// A model with no filter, group, sort or limit renders nothing: the
/// built SQL is the starting SQL alone, whatever the column map and
/// bind shift.
pub proof fn lemma_empty_model_renders_base(
    sql: Seq<char>,
    map: Seq<(String, String)>,
    shift: nat,
)
    ensures
        sql + where_clause(Seq::empty(), map, shift) + group_clause(None, map) + order_clause(
            None,
            map,
        ) + limit_clause(None, None) == sql,
{
    assert(sql + where_clause(Seq::empty(), map, shift) + group_clause(None, map) + order_clause(
        None,
        map,
    ) + limit_clause(None, None) =~= sql);
}

/// Bind numbering: the `WHERE` entry of filter `i` carries the
/// placeholder numbered `shift + i + 1`.
pub proof fn lemma_bind_numbering(
    filters: Seq<FilterView>,
    map: Seq<(String, String)>,
    shift: nat,
    i: int,
)
    requires
        0 <= i < filters.len(),
    ensures
        where_items(filters, map, shift)[i] == filter_sql(
            filters[i],
            (shift + i + 1) as nat,
            map_lookup(map, filters[i].field),
            Some(FieldCase::Snake),
        ),
{
}

/// Column mapping: a field the column map qualifies renders behind
/// its `table.` prefix; a field it does not qualify renders bare.
pub proof fn lemma_column_qualification(f: FilterView, idx: nat, map: Seq<(String, String)>)
    ensures
        map_lookup(map, f.field) matches Some(t) ==> where_item(f, idx, map) == t + "."@
            + snake_of(f.field) + " "@ + crate::filter::cond_symbol(f.condition) + " $"@
            + crate::strings::dec_str(idx),
        map_lookup(map, f.field) is None ==> where_item(f, idx, map) == snake_of(f.field) + " "@
            + crate::filter::cond_symbol(f.condition) + " $"@ + crate::strings::dec_str(idx),
{
    match map_lookup(map, f.field) {
        Some(t) => {
            assert(where_item(f, idx, map) =~= t + "."@ + snake_of(f.field) + " "@
                + crate::filter::cond_symbol(f.condition) + " $"@ + crate::strings::dec_str(idx));
        },
        None => {
            assert(where_item(f, idx, map) =~= snake_of(f.field) + " "@
                + crate::filter::cond_symbol(f.condition) + " $"@ + crate::strings::dec_str(idx));
        },
    }
}

/// An offset without a limit never renders.
pub proof fn lemma_offset_requires_limit(offset: Option<Seq<char>>)
    ensures
        limit_clause(None, offset) == Seq::<char>::empty(),
{
}

/// A limit without an offset renders alone.
pub proof fn lemma_limit_without_offset(limit: Seq<char>)
    ensures
        limit_clause(Some(limit), None) == " LIMIT "@ + limit,
{
}

/// Generates an SQL query from a base `SELECT`, a parsed
/// [`UrlQuery`], and optional joins, column map and bind shift.
pub struct QueryBuilder {
    url_query: UrlQuery,
    database: Database,
    map_columns: Vec<(String, String)>,
    shift_bind: usize,
    sql: String,
}

/// The mathematical content of a [`QueryBuilder`].
#[verifier::ext_equal]
pub ghost struct QueryBuilderView {
    pub query: UrlQueryView,
    pub map_columns: Seq<(String, String)>,
    pub shift_bind: nat,
    pub sql: Seq<char>,
}

impl View for QueryBuilder {
    type V = QueryBuilderView;

    closed spec fn view(&self) -> QueryBuilderView {
        QueryBuilderView {
            query: self.url_query@,
            map_columns: self.map_columns@,
            shift_bind: self.shift_bind as nat,
            sql: self.sql@,
        }
    }
}

/// `SELECT <columns> FROM <table>`, the columns joined with `, `.
fn gen_sql_select(table: &str, columns: Vec<&str>) -> (r: String)
    ensures
        r@ == "SELECT "@ + join_with(columns@.map_values(|c: &str| c@), ", "@) + " FROM "@
            + table@,
{
    let ghost views = columns@.map_values(|c: &str| c@);

    let mut joined = String::new();
    let mut i: usize = 0;
    while i < columns.len()
        invariant
            i <= columns@.len(),
            views == columns@.map_values(|c: &str| c@),
            joined@ == join_with(views.take(i as int), ", "@),
        decreases columns@.len() - i,
    {
        if i > 0 {
            joined.append(", ");
        }
        joined.append(columns[i]);
        proof {
            lemma_join_with_push(views.take(i as int), ", "@, views[i as int]);
            assert(views.take(i + 1) =~= views.take(i as int).push(views[i as int]));
        }
        i = i + 1;
    }
    proof {
        assert(views.take(columns@.len() as int) =~= views);
    }

    let mut sql = String::from_str("SELECT ");
    sql.append(joined.as_str());
    sql.append(" FROM ");
    sql.append(table);
    proof {
        assert(sql@ =~= "SELECT "@ + join_with(views, ", "@) + " FROM "@ + table@);
    }
    sql
}

/// `LIMIT <limit>` appended to the SQL.
fn append_limit(sql: &mut String, limit: &str)
    ensures
        final(sql)@ == old(sql)@ + " LIMIT "@ + limit@,
{
    sql.append(" LIMIT ");
    sql.append(limit);
    proof {
        assert(final(sql)@ =~= old(sql)@ + " LIMIT "@ + limit@);
    }
}

/// `OFFSET <offset>` appended to the SQL.
fn append_offset(sql: &mut String, offset: &str)
    ensures
        final(sql)@ == old(sql)@ + " OFFSET "@ + offset@,
{
    sql.append(" OFFSET ");
    sql.append(offset);
    proof {
        assert(final(sql)@ =~= old(sql)@ + " OFFSET "@ + offset@);
    }
}

impl QueryBuilder {
    /// A builder over `SELECT <columns> FROM <table>`.
    pub fn new(table: &str, columns: Vec<&str>, url_query: UrlQuery, database: Database) -> (r:
        QueryBuilder)
        ensures
            r@.sql == "SELECT "@ + join_with(columns@.map_values(|c: &str| c@), ", "@) + " FROM "@
                + table@,
            r@.query == url_query@,
            r@.map_columns == Seq::<(String, String)>::empty(),
            r@.shift_bind == 0,
    {
        let sql = gen_sql_select(table, columns);

        let r = QueryBuilder {
            url_query,
            database,
            map_columns: Vec::new(),
            shift_bind: 0,
            sql,
        };
        proof {
            assert(r@.map_columns =~= Seq::<(String, String)>::empty());
        }
        r
    }

    /// A builder over a raw starting SQL fragment.
    pub fn from_str(sql: &str, url_query: UrlQuery, database: Database) -> (r: QueryBuilder)
        ensures
            r@.sql == sql@,
            r@.query == url_query@,
            r@.map_columns == Seq::<(String, String)>::empty(),
            r@.shift_bind == 0,
    {
        let r = QueryBuilder {
            url_query,
            database,
            map_columns: Vec::new(),
            shift_bind: 0,
            sql: sql.to_owned(),
        };
        proof {
            assert(r@.map_columns =~= Seq::<(String, String)>::empty());
        }
        r
    }

    /// Append anything to the SQL, after a space: join fragments, in
    /// the order supplied.
    pub fn append(self, sql: &str) -> (r: QueryBuilder)
        ensures
            r@.sql == self@.sql + " "@ + sql@,
            r@.query == self@.query,
            r@.map_columns == self@.map_columns,
            r@.shift_bind == self@.shift_bind,
    {
        let mut this = self;
        this.sql.append(" ");
        this.sql.append(sql);
        proof {
            assert(this@.sql =~= self@.sql + " "@ + sql@);
        }
        this
    }

    /// Provide the column→table map that qualifies ambiguous columns.
    pub fn map_columns(self, map_columns: Vec<(String, String)>) -> (r: QueryBuilder)
        ensures
            r@.map_columns == map_columns@,
            r@.sql == self@.sql,
            r@.query == self@.query,
            r@.shift_bind == self@.shift_bind,
    {
        let mut this = self;
        this.map_columns = map_columns;

        this
    }

    /// Shift the bind numbering: with a shift of `x`, the first
    /// filter binds to `$(x + 1)`.
    pub fn shift_bind(self, x: usize) -> (r: QueryBuilder)
        ensures
            r@.shift_bind == x as nat,
            r@.sql == self@.sql,
            r@.query == self@.query,
            r@.map_columns == self@.map_columns,
    {
        let mut this = self;
        this.shift_bind = x;

        this
    }

    /// Append the `WHERE` clause, as [`where_clause`] describes, and
    /// return the bind arguments it refers to. Does nothing when the
    /// query holds no filter.
    pub fn append_where(&mut self) -> (args: Vec<(String, String)>)
        requires
            old(self)@.shift_bind + old(self)@.query.filters.len() < usize::MAX,
        ensures
            final(self)@.sql == old(self)@.sql + where_clause(
                old(self)@.query.filters,
                old(self)@.map_columns,
                old(self)@.shift_bind,
            ),
            final(self)@.query == old(self)@.query,
            final(self)@.map_columns == old(self)@.map_columns,
            final(self)@.shift_bind == old(self)@.shift_bind,
            args_match(args@, old(self)@.query.filters),
    {
        let ghost filters = self@.query.filters;
        let ghost map = self@.map_columns;
        let ghost shift = self@.shift_bind;

        let mut args: Vec<(String, String)> = Vec::new();

        // Filters:
        let mut filterv = String::new();
        let n = self.url_query.filters.len();
        let mut i: usize = 0;
        while i < n
            invariant
                i <= n,
                n == self.url_query.filters@.len(),
                filters == self.url_query.filters@.map_values(|f: crate::filter::Filter| f@),
                map == self.map_columns@,
                shift == self.shift_bind as nat,
                shift + n < usize::MAX,
                args@.len() == i,
                args_match(args@, filters.take(i as int)),
                filterv@ == join_with(where_items(filters.take(i as int), map, shift), " AND "@),
            decreases n - i,
        {
            let filter = &self.url_query.filters[i];
            let table = map_get(&self.map_columns, filter.field.as_str());
            let piece = filter.to_sql_map_table(
                args.len() + self.shift_bind + 1,
                table,
                Some(FieldCase::Snake),
                &self.database,
            );
            if i > 0 {
                filterv.append(" AND ");
            }
            filterv.append(piece.as_str());
            args.push((filter.field.clone(), filter.value.clone()));
            proof {
                let items = where_items(filters.take(i as int), map, shift);
                lemma_join_with_push(items, " AND "@, where_item(filters[i as int], (shift + i + 1) as nat, map));
                assert(where_items(filters.take(i + 1), map, shift) =~= items.push(
                    where_item(filters[i as int], (shift + i + 1) as nat, map),
                ));
                assert(args_match(args@, filters.take(i + 1)));
            }
            i = i + 1;
        }
        proof {
            assert(filters.take(n as int) =~= filters);
        }

        // WHERE clause
        if n > 0 {
            self.sql.append(" WHERE ");
            self.sql.append(filterv.as_str());
        }
        proof {
            assert(final(self)@.sql =~= old(self)@.sql + where_clause(filters, map, shift));
        }

        args
    }

    /// Append the `GROUP BY` clause, as [`group_clause`] describes.
    /// Does nothing when the query holds no group.
    pub fn append_group(&mut self)
        ensures
            final(self)@.sql == old(self)@.sql + group_clause(
                old(self)@.query.group,
                old(self)@.map_columns,
            ),
            final(self)@.query == old(self)@.query,
            final(self)@.map_columns == old(self)@.map_columns,
            final(self)@.shift_bind == old(self)@.shift_bind,
    {
        let piece = match &self.url_query.group {
            None => {
                return ;
            },
            Some(group) => {
                let mut p = String::new();
                if let Some(table) = map_get(&self.map_columns, group.as_str()) {
                    p.append(table.as_str());
                    p.append(".");
                }
                let field = crate::casing::transform_case(Some(FieldCase::Snake), group.as_str());
                p.append(field.as_str());
                p
            },
        };
        self.sql.append(" GROUP BY ");
        self.sql.append(piece.as_str());
        proof {
            assert(final(self)@.sql =~= old(self)@.sql + group_clause(
                old(self)@.query.group,
                old(self)@.map_columns,
            ));
        }
    }

    /// Append the `ORDER BY` clause, as [`order_clause`] describes.
    /// Does nothing when the query holds no sort.
    pub fn append_sort(&mut self)
        ensures
            final(self)@.sql == old(self)@.sql + order_clause(
                old(self)@.query.sort,
                old(self)@.map_columns,
            ),
            final(self)@.query == old(self)@.query,
            final(self)@.map_columns == old(self)@.map_columns,
            final(self)@.shift_bind == old(self)@.shift_bind,
    {
        let piece = match &self.url_query.sort {
            None => {
                return ;
            },
            Some(sort) => {
                let table = map_get(&self.map_columns, sort.field.as_str());
                sort.to_sql_map_table(table, Some(FieldCase::Snake))
            },
        };
        self.sql.append(" ORDER BY ");
        self.sql.append(piece.as_str());
        proof {
            assert(final(self)@.sql =~= old(self)@.sql + order_clause(
                old(self)@.query.sort,
                old(self)@.map_columns,
            ));
        }
    }

    /// Render the statement: the starting SQL, then — each only when
    /// its model field is present — `WHERE`, `GROUP BY`, `ORDER BY`
    /// and `LIMIT`/`OFFSET`, with the bind arguments aligned with the
    /// `$n` placeholders.
    pub fn build(self) -> (r: (String, Vec<(String, String)>))
        requires
            self@.shift_bind + self@.query.filters.len() < usize::MAX,
        ensures
            r.0@ == self@.sql + where_clause(
                self@.query.filters,
                self@.map_columns,
                self@.shift_bind,
            ) + group_clause(self@.query.group, self@.map_columns) + order_clause(
                self@.query.sort,
                self@.map_columns,
            ) + limit_clause(self@.query.limit, self@.query.offset),
            args_match(r.1@, self@.query.filters),
    {
        let mut this = self;

        // returns bind args
        let args = this.append_where();

        this.append_group();

        this.append_sort();

        // Limit & offset:
        match this.url_query.check_limit() {
            Ok(limit) => {
                let ghost sql_before = this.sql@;
                append_limit(&mut this.sql, limit);
                match this.url_query.check_offset() {
                    Ok(offset) => {
                        append_offset(&mut this.sql, offset);
                    },
                    Err(_) => {},
                }
            },
            Err(_) => {},
        }

        proof {
            assert(this.sql@ =~= self@.sql + where_clause(
                self@.query.filters,
                self@.map_columns,
                self@.shift_bind,
            ) + group_clause(self@.query.group, self@.map_columns) + order_clause(
                self@.query.sort,
                self@.map_columns,
            ) + limit_clause(self@.query.limit, self@.query.offset));
        }
        (this.sql, args)
    }
}

} // verus!
