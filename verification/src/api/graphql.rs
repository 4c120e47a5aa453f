//! # GraphQL over the SQLite version of the game database
//!
//! A GraphQL query is translated into one SQL query per top level field:
//! nested fields with selections follow the foreign keys (and their
//! reverses) of the database as left joins, and the rows that come back are
//! folded into nested JSON again.

use vstd::prelude::*;
use crate::decimal::{decimal, push_i64, push_u64, signed_decimal};
use vstd::utf8::{decode_utf8, valid_utf8};
use crate::api::rev::index::{last_values, lemma_last_values_push};
use crate::strmap::StrMap;
use crate::text::push_str;

verus! {

broadcast use vstd::string::group_string_axioms;

/// The text of an optional string.
pub open spec fn opt_str(o: Option<String>) -> Option<Seq<char>> {
    match o {
        Some(s) => Some(s@),
        None => None,
    }
}

/// An error of a GraphQL request.
#[derive(Debug)]
pub struct QueryError {
    pub error: String,
    pub message: String,
}

/// A copy of a string slice.
pub fn own(s: &str) -> (r: String)
    ensures
        r@ == s@,
{
    let mut r = String::new();
    push_str(&mut r, s);
    assert(r@ =~= s@);
    r
}

/// The error for a query that this server does not take.
pub fn invalid_query(message: String) -> (r: QueryError)
    ensures
        r.error@ == "invalid graphql query"@,
        r.message@ == message@,
{
    QueryError { error: own("invalid graphql query"), message }
}

/// A relation between two SQL tables, a foreign key or its reverse.
#[derive(Debug)]
pub struct TableRel {
    pub unique: bool,
    pub from_col: String,
    pub to_table: String,
    pub to_col: String,
}

/// The relations of each table, by table name and then by the name under
/// which a query may follow the relation.
pub type TableRels = StrMap<StrMap<TableRel>>;

/// A field of a GraphQL query.
#[derive(Debug)]
pub struct GqlField {
    pub alias: Option<String>,
    pub name: String,
    /// The arguments, each as its name and the text of its value.
    pub arguments: Vec<(String, String)>,
    pub selection_set: Vec<GqlSelection>,
}

/// One selection of a GraphQL selection set.
#[derive(Debug)]
pub enum GqlSelection {
    Field(GqlField),
    FragmentSpread,
    InlineFragment,
}

/// A column that a table query reads.
#[derive(Debug)]
pub struct Column {
    pub name: String,
    pub alias: Option<String>,
    /// The JSON of the value in the row being read.
    pub value: Option<String>,
}

/// A table that a table query joins.
#[derive(Debug)]
pub struct Join {
    pub unique: bool,
    pub graphql_name: String,
    pub from_col: String,
    pub to_col: String,
    pub to_table: TableQuery,
}

/// What one GraphQL field asks of one table, with the buffers that fold
/// the result rows into JSON.
#[derive(Debug)]
pub struct TableQuery {
    pub name: String,
    pub cols: Vec<Column>,
    pub constraints: Vec<String>,
    pub joins: Vec<Join>,
    /// The row id of the row being read (0 for none).
    pub rowid: i64,
    /// The JSON of the rows read and done.
    pub flushed_outputs: Vec<String>,
}

/// Whether a field has no selection set: it names a column.
pub open spec fn is_leaf(g: GqlField) -> bool {
    g.selection_set@.len() == 0
}

/// Whether a column name ends in `_loc`: it names a localized column.
pub open spec fn is_loc(n: Seq<char>) -> bool {
    n.len() >= 4 && n[n.len() - 4] == '_' && n[n.len() - 3] == 'l' && n[n.len() - 2] == 'o'
        && n[n.len() - 1] == 'c'
}

/// The column a leaf field reads, and the name it is shown under: a
/// localized column reads its `en_US` variant.
pub open spec fn column_for(g: GqlField) -> (Seq<char>, Option<Seq<char>>) {
    if is_loc(g.name@) {
        (g.name@.take(g.name@.len() - 3) + "en_US"@, Some(g.name@))
    } else {
        (g.name@, opt_str(g.alias))
    }
}

/// The SQL condition of one argument.
pub open spec fn constraint_text(arg: (String, String)) -> Seq<char> {
    arg.0@ + " == "@ + arg.1@
}

/// The error for a table that the database does not have.
pub open spec fn table_error(table: Seq<char>) -> (Seq<char>, Seq<char>) {
    ("invalid table name "@ + table, "table does not exist"@)
}

/// The error for a field with a selection set that is no relation.
pub open spec fn fk_error(name: Seq<char>) -> (Seq<char>, Seq<char>) {
    ("field "@ + name + " is not a foreign key"@, "field has items but is not a FK according to the DB"@)
}

/// The error for a selection that is no field.
pub open spec fn selection_error() -> (Seq<char>, Seq<char>) {
    ("invalid graphql query"@, "selection set in query should only contain Fields"@)
}

/// The first error that translating field `f` on `table` meets, if any.
pub open spec fn first_error(
    rels: Map<Seq<char>, StrMap<TableRel>>,
    f: GqlField,
    table: Seq<char>,
) -> Option<(Seq<char>, Seq<char>)>
    decreases f,
{
    if !rels.contains_key(table) {
        Some(table_error(table))
    } else {
        error_upto(rels, f, table, f.selection_set@.len() as int)
    }
}

/// The first error among the first `k` selections of `f`, if any.
pub open spec fn error_upto(
    rels: Map<Seq<char>, StrMap<TableRel>>,
    f: GqlField,
    table: Seq<char>,
    k: int,
) -> Option<(Seq<char>, Seq<char>)>
    decreases f, k,
{
    if k <= 0 || k > f.selection_set@.len() {
        None
    } else {
        match error_upto(rels, f, table, k - 1) {
            Some(e) => Some(e),
            None => match f.selection_set@[k - 1] {
                GqlSelection::Field(g) => if is_leaf(g) {
                    None
                } else if !rels[table].view().contains_key(g.name@) {
                    Some(fk_error(g.name@))
                } else {
                    proof {
                        assert(decreases_to!(f => g));
                    }
                    first_error(rels, g, rels[table].view()[g.name@].to_table@)
                },
                _ => Some(selection_error()),
            },
        }
    }
}

/// Whether `c` is the column for leaf field `g`.
pub open spec fn column_is(c: Column, g: GqlField) -> bool {
    c.name@ == column_for(g).0 && opt_str(c.alias) == column_for(g).1 && c.value is None
}

/// Whether `j` follows relation `rel` for field `g` (its joined table aside).
pub open spec fn join_is(j: Join, g: GqlField, rel: TableRel) -> bool {
    &&& j.unique == rel.unique
    &&& j.graphql_name@ == g.name@
    &&& j.from_col@ == rel.from_col@
    &&& j.to_col@ == rel.to_col@
}

/// Whether `tq` is the translation of field `f` on `table`.
pub open spec fn translates(
    rels: Map<Seq<char>, StrMap<TableRel>>,
    f: GqlField,
    table: Seq<char>,
    tq: TableQuery,
) -> bool
    decreases f,
{
    &&& tq.name@ == table
    &&& tq.rowid == 0
    &&& tq.flushed_outputs@.len() == 0
    &&& tq.constraints@.len() == f.arguments@.len()
    &&& forall|i: int|
        0 <= i < f.arguments@.len() ==> #[trigger] tq.constraints@[i]@ == constraint_text(f.arguments@[i])
    &&& selections_give(rels, f, table, f.selection_set@.len() as int, tq.cols@, tq.joins@)
}

/// Whether the first `k` selections of `f` give exactly these columns and
/// joins: each leaf field a column, each other field a join, in order.
pub open spec fn selections_give(
    rels: Map<Seq<char>, StrMap<TableRel>>,
    f: GqlField,
    table: Seq<char>,
    k: int,
    cols: Seq<Column>,
    joins: Seq<Join>,
) -> bool
    decreases f, k,
{
    if k <= 0 || k > f.selection_set@.len() {
        k == 0 && cols.len() == 0 && joins.len() == 0
    } else {
        match f.selection_set@[k - 1] {
            GqlSelection::Field(g) => if is_leaf(g) {
                cols.len() > 0 && column_is(cols.last(), g) && selections_give(
                    rels,
                    f,
                    table,
                    k - 1,
                    cols.drop_last(),
                    joins,
                )
            } else {
                let rel = rels[table].view()[g.name@];
                proof {
                    assert(decreases_to!(f => g));
                }
                joins.len() > 0 && join_is(joins.last(), g, rel) && translates(
                    rels,
                    g,
                    rel.to_table@,
                    joins.last().to_table,
                ) && selections_give(rels, f, table, k - 1, cols, joins.drop_last())
            },
            _ => false,
        }
    }
}

/// Whether `r` is what translating field `f` on `table` gives.
pub open spec fn translation(
    rels: Map<Seq<char>, StrMap<TableRel>>,
    f: GqlField,
    table: Seq<char>,
    r: Result<TableQuery, QueryError>,
) -> bool {
    match r {
        Ok(tq) => first_error(rels, f, table) is None && translates(rels, f, table, tq),
        Err(e) => first_error(rels, f, table) == Some((e.error@, e.message@)),
    }
}

proof fn lemma_error_sticks(
    rels: Map<Seq<char>, StrMap<TableRel>>,
    f: GqlField,
    table: Seq<char>,
    k: int,
    n: int,
)
    requires
        0 <= k <= n <= f.selection_set@.len(),
        error_upto(rels, f, table, k) is Some,
    ensures
        error_upto(rels, f, table, n) == error_upto(rels, f, table, k),
    decreases n - k,
{
    if n > k {
        lemma_error_sticks(rels, f, table, k, n - 1);
    }
}

/// Translates a top level field into a table query on the table it names.
pub fn field_to_table_query(rels: &TableRels, field: &GqlField) -> (r: Result<TableQuery, QueryError>)
    ensures
        translation(rels.view(), *field, field.name@, r),
{
    field_to_table_query_inner(rels, field, field.name.as_str())
}

/// The column for a leaf field.
fn leaf_column(g: &GqlField) -> (c: Column)
    ensures
        column_is(c, *g),
{
    let chars = crate::text::str_chars(g.name.as_str());
    let n = chars.len();
    if n >= 4 && chars[n - 4] == '_' && chars[n - 3] == 'l' && chars[n - 2] == 'o' && chars[n - 1]
        == 'c' {
        let mut name = String::new();
        let mut i: usize = 0;
        while i < n - 3
            invariant
                n == chars@.len(),
                n >= 4,
                i <= n - 3,
                name@ == chars@.take(i as int),
            decreases n - 3 - i,
        {
            crate::text::string_push(&mut name, chars[i]);
            assert(chars@.take(i + 1) == chars@.take(i as int).push(chars@[i as int]));
            i = i + 1;
        }
        push_str(&mut name, "en_US");
        Column { name, alias: Some(own(g.name.as_str())), value: None }
    } else {
        let alias = match &g.alias {
            Some(a) => Some(own(a.as_str())),
            None => None,
        };
        Column { name: own(g.name.as_str()), alias, value: None }
    }
}

/// Translates field `field` into a table query on `table_name`.
pub fn field_to_table_query_inner(rels: &TableRels, field: &GqlField, table_name: &str) -> (r: Result<
    TableQuery,
    QueryError,
>)
    ensures
        translation(rels.view(), *field, table_name@, r),
    decreases field,
{
    let ghost rv = rels.view();
    let mut constraints: Vec<String> = Vec::new();
    for i in 0..field.arguments.len()
        invariant
            constraints@.len() == i,
            forall|j: int|
                0 <= j < i ==> #[trigger] constraints@[j]@ == constraint_text(field.arguments@[j]),
    {
        let arg = &field.arguments[i];
        let mut c = own(arg.0.as_str());
        push_str(&mut c, " == ");
        push_str(&mut c, arg.1.as_str());
        constraints.push(c);
    }
    let this_table_rels = match rels.get(table_name) {
        Some(t) => t,
        None => {
            let mut error = own("invalid table name ");
            push_str(&mut error, table_name);
            return Err(QueryError { error, message: own("table does not exist") });
        },
    };
    let mut cols: Vec<Column> = Vec::new();
    let mut joins: Vec<Join> = Vec::new();
    for k in 0..field.selection_set.len()
        invariant
            rv == rels.view(),
            rv.contains_key(table_name@),
            *this_table_rels == rv[table_name@],
            error_upto(rv, *field, table_name@, k as int) is None,
            selections_give(rv, *field, table_name@, k as int, cols@, joins@),
    {
        match &field.selection_set[k] {
            GqlSelection::Field(g) => {
                if g.selection_set.len() == 0 {
                    let c = leaf_column(g);
                    let ghost before = cols@;
                    cols.push(c);
                    assert(cols@.drop_last() =~= before);
                } else {
                    let rel = match this_table_rels.get(g.name.as_str()) {
                        Some(rel) => rel,
                        None => {
                            let mut error = own("field ");
                            push_str(&mut error, g.name.as_str());
                            push_str(&mut error, " is not a foreign key");
                            let e = QueryError {
                                error,
                                message: own("field has items but is not a FK according to the DB"),
                            };
                            proof {
                                lemma_error_sticks(rv, *field, table_name@, k + 1, field.selection_set@.len() as int);
                            }
                            return Err(e);
                        },
                    };
                    assert(decreases_to!(*field => *g));
                    let tq = match field_to_table_query_inner(rels, g, rel.to_table.as_str()) {
                        Ok(tq) => tq,
                        Err(e) => {
                            proof {
                                lemma_error_sticks(rv, *field, table_name@, k + 1, field.selection_set@.len() as int);
                            }
                            return Err(e);
                        },
                    };
                    let ghost before = joins@;
                    joins.push(
                        Join {
                            unique: rel.unique,
                            graphql_name: own(g.name.as_str()),
                            from_col: own(rel.from_col.as_str()),
                            to_col: own(rel.to_col.as_str()),
                            to_table: tq,
                        },
                    );
                    assert(joins@.drop_last() =~= before);
                }
            },
            _ => {
                let e = invalid_query(own("selection set in query should only contain Fields"));
                proof {
                    lemma_error_sticks(rv, *field, table_name@, k + 1, field.selection_set@.len() as int);
                }
                return Err(e);
            },
        }
    }
    Ok(
        TableQuery {
            name: own(table_name),
            cols,
            constraints,
            joins,
            rowid: 0,
            flushed_outputs: Vec::new(),
        },
    )
}

/// The texts of a list of strings.
pub open spec fn texts(v: Seq<String>) -> Seq<Seq<char>> {
    v.map_values(|s: String| s@)
}

/// The items, with `sep` between each two (`join` on a slice of strings).
pub open spec fn joined(items: Seq<Seq<char>>, sep: Seq<char>) -> Seq<char>
    decreases items.len(),
{
    if items.len() == 0 {
        Seq::empty()
    } else if items.len() == 1 {
        items[0]
    } else {
        joined(items.drop_last(), sep) + sep + items.last()
    }
}

/// Joins the strings with `sep` between each two.
pub fn join_strings(items: &Vec<String>, sep: &str) -> (r: String)
    ensures
        r@ == joined(texts(items@), sep@),
{
    let mut r = String::new();
    for i in 0..items.len()
        invariant
            r@ == joined(texts(items@.take(i as int)), sep@),
    {
        let ghost before = texts(items@.take(i as int));
        assert(texts(items@.take(i + 1)) =~= before.push(items@[i as int]@));
        if i > 0 {
            push_str(&mut r, sep);
        }
        push_str(&mut r, items[i].as_str());
        proof {
            let now = texts(items@.take(i + 1));
            assert(now.drop_last() =~= before);
            if i == 0 {
                assert(r@ =~= now[0]);
            }
        }
    }
    assert(items@.take(items@.len() as int) =~= items@);
    r
}

/// The SQL name of the `n`th table of a query.
pub open spec fn table_alias(n: nat) -> Seq<char> {
    "t"@ + decimal(n)
}

/// The row id column of the `n`th table.
pub open spec fn rowid_col(n: nat) -> Seq<char> {
    table_alias(n) + ".rowid"@
}

/// A column or condition of the `n`th table.
pub open spec fn qualified(n: nat, c: Seq<char>) -> Seq<char> {
    table_alias(n) + "."@ + c
}

/// The `left join` that brings in the joined table of `j` as table `m`,
/// from table `n`.
pub open spec fn join_text(j: Join, n: nat, m: nat) -> Seq<char> {
    "left join "@ + j.to_table.name@ + " as "@ + table_alias(m) + " on "@ + table_alias(n) + "."@
        + j.from_col@ + " = "@ + table_alias(m) + "."@ + j.to_col@
}

/// The pieces of SQL of a table query and everything it joins: columns,
/// joined tables and conditions, and the number of the last table.
pub struct SqlParts {
    pub cols: Seq<Seq<char>>,
    pub tables: Seq<Seq<char>>,
    pub constraints: Seq<Seq<char>>,
    pub last: nat,
}

/// The pieces of SQL of `tq` as table number `n`: the tables it joins
/// are numbered on from `n + 1`, depth first.
pub open spec fn sql_parts(tq: TableQuery, n: nat) -> SqlParts
    decreases tq,
{
    let rest = join_parts(tq, n, tq.joins@.len() as int);
    SqlParts {
        cols: seq![rowid_col(n)] + tq.cols@.map_values(|c: Column| qualified(n, c.name@)) + rest.cols,
        tables: rest.tables,
        constraints: tq.constraints@.map_values(|c: String| qualified(n, c@)) + rest.constraints,
        last: rest.last,
    }
}

/// The pieces of SQL of the first `k` joins of `tq` (table number `n`).
pub open spec fn join_parts(tq: TableQuery, n: nat, k: int) -> SqlParts
    decreases tq, k,
{
    if k <= 0 || k > tq.joins@.len() {
        SqlParts { cols: Seq::empty(), tables: Seq::empty(), constraints: Seq::empty(), last: n }
    } else {
        let prev = join_parts(tq, n, k - 1);
        let j = tq.joins@[k - 1];
        let m = prev.last + 1;
        proof {
            assert(decreases_to!(tq => j.to_table));
        }
        let sub = sql_parts(j.to_table, m);
        SqlParts {
            cols: prev.cols + sub.cols,
            tables: prev.tables + seq![join_text(j, n, m)] + sub.tables,
            constraints: prev.constraints + sub.constraints,
            last: sub.last,
        }
    }
}

/// The SQL text of `tq`, table number `n`, qualified column `c`.
fn push_qualified(s: &mut String, n: usize, c: &str)
    ensures
        final(s)@ == old(s)@ + qualified(n as nat, c@),
{
    push_str(s, "t");
    push_u64(s, n as u64);
    push_str(s, ".");
    push_str(s, c);
    assert(final(s)@ =~= old(s)@ + qualified(n as nat, c@));
}

/// Adds the pieces of SQL of `table_query` (the last table so far) and of
/// everything it joins.
pub fn table_query_to_sql_inner(
    table_query: &TableQuery,
    cols: &mut Vec<String>,
    tables: &mut Vec<String>,
    constraints: &mut Vec<String>,
)
    requires
        old(tables)@.len() >= 1,
    ensures
        texts(final(cols)@) == texts(old(cols)@) + sql_parts(*table_query, (old(tables)@.len() - 1) as nat).cols,
        texts(final(tables)@) == texts(old(tables)@) + sql_parts(
            *table_query,
            (old(tables)@.len() - 1) as nat,
        ).tables,
        texts(final(constraints)@) == texts(old(constraints)@) + sql_parts(
            *table_query,
            (old(tables)@.len() - 1) as nat,
        ).constraints,
        final(tables)@.len() - 1 == sql_parts(*table_query, (old(tables)@.len() - 1) as nat).last,
    decreases table_query,
{
    let table_n = tables.len() - 1;
    let ghost n = table_n as nat;
    let ghost c0 = texts(cols@);
    let ghost t0 = texts(tables@);
    let ghost k0 = texts(constraints@);
    let mut rowid = String::new();
    push_str(&mut rowid, "t");
    push_u64(&mut rowid, table_n as u64);
    push_str(&mut rowid, ".rowid");
    assert(rowid@ =~= rowid_col(n));
    cols.push(rowid);
    let ghost own_cols_start = texts(cols@);
    assert(own_cols_start =~= c0 + seq![rowid_col(n)]);
    for i in 0..table_query.cols.len()
        invariant
            texts(cols@) == own_cols_start + table_query.cols@.take(i as int).map_values(
                |c: Column| qualified(n, c.name@),
            ),
            n == table_n,
    {
        let mut c = String::new();
        push_qualified(&mut c, table_n, table_query.cols[i].name.as_str());
        let ghost before = texts(cols@);
        cols.push(c);
        assert(texts(cols@) =~= before.push(c@));
        assert(table_query.cols@.take(i + 1).map_values(|c: Column| qualified(n, c.name@))
            =~= table_query.cols@.take(i as int).map_values(|c: Column| qualified(n, c.name@)).push(
            qualified(n, table_query.cols@[i as int].name@),
        ));
    }
    assert(table_query.cols@.take(table_query.cols@.len() as int) =~= table_query.cols@);
    let ghost own_cons_start = texts(constraints@);
    for i in 0..table_query.constraints.len()
        invariant
            texts(constraints@) == own_cons_start + table_query.constraints@.take(i as int).map_values(
                |c: String| qualified(n, c@),
            ),
            n == table_n,
    {
        let mut c = String::new();
        push_qualified(&mut c, table_n, table_query.constraints[i].as_str());
        let ghost before = texts(constraints@);
        constraints.push(c);
        assert(texts(constraints@) =~= before.push(c@));
        assert(table_query.constraints@.take(i + 1).map_values(|c: String| qualified(n, c@))
            =~= table_query.constraints@.take(i as int).map_values(|c: String| qualified(n, c@)).push(
            qualified(n, table_query.constraints@[i as int]@),
        ));
    }
    assert(table_query.constraints@.take(table_query.constraints@.len() as int)
        =~= table_query.constraints@);
    let ghost cols_base = texts(cols@);
    let ghost cons_base = texts(constraints@);
    let mut table_n2 = table_n;
    for k in 0..table_query.joins.len()
        invariant
            n == table_n,
            texts(cols@) == cols_base + join_parts(*table_query, n, k as int).cols,
            texts(tables@) == t0 + join_parts(*table_query, n, k as int).tables,
            texts(constraints@) == cons_base + join_parts(*table_query, n, k as int).constraints,
            table_n2 == join_parts(*table_query, n, k as int).last,
            tables@.len() - 1 == table_n2,
    {
        let join = &table_query.joins[k];
        let m = tables.len();
        let mut t = String::new();
        push_str(&mut t, "left join ");
        push_str(&mut t, join.to_table.name.as_str());
        push_str(&mut t, " as ");
        push_str(&mut t, "t");
        push_u64(&mut t, m as u64);
        push_str(&mut t, " on ");
        push_str(&mut t, "t");
        push_u64(&mut t, table_n as u64);
        push_str(&mut t, ".");
        push_str(&mut t, join.from_col.as_str());
        push_str(&mut t, " = ");
        push_str(&mut t, "t");
        push_u64(&mut t, m as u64);
        push_str(&mut t, ".");
        push_str(&mut t, join.to_col.as_str());
        assert(t@ =~= join_text(*join, n, m as nat));
        let ghost tb = texts(tables@);
        tables.push(t);
        assert(texts(tables@) =~= tb.push(t@));
        let ghost cb = texts(cols@);
        let ghost kb = texts(constraints@);
        let ghost tb2 = texts(tables@);
        assert(decreases_to!(*table_query => join.to_table));
        table_query_to_sql_inner(&join.to_table, cols, tables, constraints);
        table_n2 = tables.len() - 1;
        proof {
            let prev = join_parts(*table_query, n, k as int);
            let sub = sql_parts(join.to_table, m as nat);
            assert(join_parts(*table_query, n, k + 1).cols == prev.cols + sub.cols);
            assert(texts(cols@) =~= cols_base + join_parts(*table_query, n, k + 1).cols);
            assert(texts(tables@) =~= t0 + join_parts(*table_query, n, k + 1).tables);
            assert(texts(constraints@) =~= cons_base + join_parts(*table_query, n, k + 1).constraints);
        }
    }
    proof {
        let p = sql_parts(*table_query, n);
        assert(texts(cols@) =~= c0 + p.cols);
        assert(texts(constraints@) =~= k0 + p.constraints);
    }
}

/// The row id columns of the tables `0..n`, in order.
pub open spec fn order_cols(n: nat) -> Seq<Seq<char>> {
    Seq::new(n, |x: int| rowid_col(x as nat))
}

/// The SQL query of a table query: its columns and those of everything it
/// joins, its table with the left joins, the conditions where there are any,
/// ordered by the row ids of all tables.
pub open spec fn sql_of(tq: TableQuery) -> Seq<char> {
    let p = sql_parts(tq, 0);
    let tables = seq![tq.name@ + " as t0"@] + p.tables;
    "select "@ + joined(p.cols, ", "@) + " from "@ + joined(tables, " "@) + (if p.constraints.len() > 0 {
        " where "@ + joined(p.constraints, " and "@)
    } else {
        Seq::empty()
    }) + " order by "@ + joined(order_cols(tables.len()), ", "@)
}

/// Generates the SQL of a table query.
pub fn table_query_to_sql(table_query: &TableQuery) -> (r: String)
    ensures
        r@ == sql_of(*table_query),
{
    let mut cols: Vec<String> = Vec::new();
    let mut tables: Vec<String> = Vec::new();
    let mut constraints: Vec<String> = Vec::new();
    let mut first = own(table_query.name.as_str());
    push_str(&mut first, " as t0");
    tables.push(first);
    assert(texts(tables@) =~= seq![table_query.name@ + " as t0"@]);
    assert(texts(cols@) =~= Seq::<Seq<char>>::empty());
    assert(texts(constraints@) =~= Seq::<Seq<char>>::empty());
    table_query_to_sql_inner(table_query, &mut cols, &mut tables, &mut constraints);
    let ghost p = sql_parts(*table_query, 0);
    assert(texts(cols@) =~= p.cols);
    assert(texts(constraints@) =~= p.constraints);
    let mut query = own("select ");
    let c = join_strings(&cols, ", ");
    push_str(&mut query, c.as_str());
    push_str(&mut query, " from ");
    let t = join_strings(&tables, " ");
    push_str(&mut query, t.as_str());
    let ghost head = query@;
    if constraints.len() > 0 {
        push_str(&mut query, " where ");
        let w = join_strings(&constraints, " and ");
        push_str(&mut query, w.as_str());
    }
    let ghost with_where = query@;
    push_str(&mut query, " order by ");
    let mut order: Vec<String> = Vec::new();
    for x in 0..tables.len()
        invariant
            texts(order@) == order_cols(x as nat),
    {
        let mut o = String::new();
        push_str(&mut o, "t");
        push_u64(&mut o, x as u64);
        push_str(&mut o, ".rowid");
        assert(o@ =~= rowid_col(x as nat));
        let ghost before = texts(order@);
        order.push(o);
        assert(texts(order@) =~= before.push(o@));
        assert(texts(order@) =~= order_cols((x + 1) as nat));
    }
    let ob = join_strings(&order, ", ");
    push_str(&mut query, ob.as_str());
    proof {
        if constraints@.len() > 0 {
            assert(with_where =~= head + (" where "@ + joined(p.constraints, " and "@)));
        } else {
            assert(with_where =~= head + Seq::<char>::empty());
        }
        assert(query@ =~= sql_of(*table_query));
    }
    query
}

/// A GraphQL definition, as far as this server tells them apart.
#[derive(Debug)]
pub enum GqlDefinition {
    /// A `query` operation, with its selection set.
    Query(Vec<GqlSelection>),
    /// A bare selection set.
    SelectionSet(Vec<GqlSelection>),
    /// Another operation (mutation, subscription), with its text.
    Other(String),
    /// A fragment definition.
    Fragment,
}

/// A parsed GraphQL document.
#[derive(Debug)]
pub struct GqlDocument {
    pub definitions: Vec<GqlDefinition>,
}

/// The selections of the one query of a document, or the error for a
/// document that is no single query.
pub open spec fn document_result(doc: GqlDocument) -> Result<Seq<GqlSelection>, (Seq<char>, Seq<char>)> {
    let n = doc.definitions@.len();
    if n == 0 {
        Err(("invalid graphql query"@, "empty query"@))
    } else if n > 1 {
        Err(("invalid graphql query"@, "only 1 definition allowed, got: "@ + decimal(n)))
    } else {
        match doc.definitions@[0] {
            GqlDefinition::Query(s) => Ok(s@),
            GqlDefinition::SelectionSet(s) => Ok(s@),
            GqlDefinition::Other(t) => Err(("invalid graphql query"@, "Unsupported operation: "@ + t@)),
            GqlDefinition::Fragment => Err(
                ("invalid graphql query"@, "TODO: fragment definition not supported"@),
            ),
        }
    }
}

/// The selections that a document asks for: those of its only
/// definition, which must be a query.
pub fn document_selections(doc: &GqlDocument) -> (r: Result<&Vec<GqlSelection>, QueryError>)
    ensures
        match r {
            Ok(s) => document_result(*doc) == Ok::<Seq<GqlSelection>, (Seq<char>, Seq<char>)>(s@),
            Err(e) => document_result(*doc) == Err::<Seq<GqlSelection>, (Seq<char>, Seq<char>)>(
                (e.error@, e.message@),
            ),
        },
{
    let n = doc.definitions.len();
    if n == 0 {
        return Err(invalid_query(own("empty query")));
    }
    if n > 1 {
        let mut m = own("only 1 definition allowed, got: ");
        push_u64(&mut m, n as u64);
        return Err(invalid_query(m));
    }
    match &doc.definitions[0] {
        GqlDefinition::Query(s) => Ok(s),
        GqlDefinition::SelectionSet(s) => Ok(s),
        GqlDefinition::Other(t) => {
            let mut m = own("Unsupported operation: ");
            push_str(&mut m, t.as_str());
            Err(invalid_query(m))
        },
        GqlDefinition::Fragment => Err(invalid_query(own("TODO: fragment definition not supported"))),
    }
}

/// What one top level field of a query becomes: the key of its result,
/// its table query and the SQL to run.
#[derive(Debug)]
pub struct FieldQuery {
    pub key: String,
    pub table_query: TableQuery,
    pub sql: String,
}

/// Whether `r` is what planning selection `sel` gives.
pub open spec fn plan_result(
    rels: Map<Seq<char>, StrMap<TableRel>>,
    sel: GqlSelection,
    r: Result<FieldQuery, QueryError>,
) -> bool {
    match sel {
        GqlSelection::Field(f) => match r {
            Ok(q) => first_error(rels, f, f.name@) is None && translates(rels, f, f.name@, q.table_query)
                && q.sql@ == sql_of(q.table_query) && q.key@ == (match f.alias {
                Some(a) => a@,
                None => f.name@,
            }),
            Err(e) => first_error(rels, f, f.name@) == Some((e.error@, e.message@)),
        },
        GqlSelection::FragmentSpread => r matches Err(e) && e.error@ == "invalid graphql query"@
            && e.message@ == "TODO: Selection::FragmentSpread not supported"@,
        GqlSelection::InlineFragment => r matches Err(e) && e.error@ == "invalid graphql query"@
            && e.message@ == "TODO: Selection::InlineFragment not supported"@,
    }
}

/// Plans one top level selection of a query.
pub fn plan_selection(rels: &TableRels, sel: &GqlSelection) -> (r: Result<FieldQuery, QueryError>)
    ensures
        plan_result(rels.view(), *sel, r),
{
    match sel {
        GqlSelection::FragmentSpread => Err(
            invalid_query(own("TODO: Selection::FragmentSpread not supported")),
        ),
        GqlSelection::InlineFragment => Err(
            invalid_query(own("TODO: Selection::InlineFragment not supported")),
        ),
        GqlSelection::Field(f) => {
            let table_query = field_to_table_query(rels, f)?;
            let sql = table_query_to_sql(&table_query);
            let key = match &f.alias {
                Some(a) => own(a.as_str()),
                None => own(f.name.as_str()),
            };
            Ok(FieldQuery { key, table_query, sql })
        },
    }
}

/// The error that planning selection `sel` ends in, where it ends in one.
pub open spec fn plan_error(rels: Map<Seq<char>, StrMap<TableRel>>, sel: GqlSelection) -> Option<
    (Seq<char>, Seq<char>),
> {
    match sel {
        GqlSelection::Field(f) => first_error(rels, f, f.name@),
        GqlSelection::FragmentSpread => Some(
            ("invalid graphql query"@, "TODO: Selection::FragmentSpread not supported"@),
        ),
        GqlSelection::InlineFragment => Some(
            ("invalid graphql query"@, "TODO: Selection::InlineFragment not supported"@),
        ),
    }
}

/// The error of the first selection whose planning ends in one.
pub open spec fn plans_error(rels: Map<Seq<char>, StrMap<TableRel>>, sels: Seq<GqlSelection>) -> Option<
    (Seq<char>, Seq<char>),
>
    decreases sels.len(),
{
    if sels.len() == 0 {
        None
    } else {
        match plans_error(rels, sels.drop_last()) {
            Some(e) => Some(e),
            None => plan_error(rels, sels.last()),
        }
    }
}

/// Whether `r` is what planning the top level fields of `doc` gives: the
/// error of a document that is no single query, or of the first selection
/// that cannot be planned; else a plan for each selection, in order.
pub open spec fn plans_are(
    rels: Map<Seq<char>, StrMap<TableRel>>,
    doc: GqlDocument,
    r: Result<Vec<FieldQuery>, QueryError>,
) -> bool {
    match document_result(doc) {
        Err(e) => r matches Err(x) && (x.error@, x.message@) == e,
        Ok(sels) => match plans_error(rels, sels) {
            Some(e) => r matches Err(x) && (x.error@, x.message@) == e,
            None => r matches Ok(v) && v@.len() == sels.len() && forall|i: int|
                0 <= i < sels.len() ==> plan_result(rels, sels[i], Ok(#[trigger] v@[i])),
        },
    }
}

/// The plans of the top level fields of a query document, in order: the
/// error of a document that is no single query, or of the first selection
/// that cannot be planned; else a plan for each selection.
pub fn graphql_plans(rels: &TableRels, doc: &GqlDocument) -> (r: Result<Vec<FieldQuery>, QueryError>)
    ensures
        plans_are(rels.view(), *doc, r),
{
    let sels = document_selections(doc)?;
    let mut plans: Vec<FieldQuery> = Vec::new();
    for i in 0..sels.len()
        invariant
            document_result(*doc) == Ok::<Seq<GqlSelection>, (Seq<char>, Seq<char>)>(sels@),
            plans_error(rels.view(), sels@.take(i as int)) is None,
            plans@.len() == i,
            forall|k: int| 0 <= k < i ==> plan_result(rels.view(), sels@[k], Ok(#[trigger] plans@[k])),
    {
        assert(sels@.take(i + 1).drop_last() =~= sels@.take(i as int));
        assert(sels@.take(i + 1).last() == sels@[i as int]);
        match plan_selection(rels, &sels[i]) {
            Ok(q) => {
                plans.push(q);
            },
            Err(e) => {
                proof {
                    lemma_plans_error_prefix(rels.view(), sels@, i + 1);
                }
                return Err(e);
            },
        }
    }
    assert(sels@.take(sels@.len() as int) =~= sels@);
    Ok(plans)
}

/// An error of a prefix of the selections is the error of them all.
proof fn lemma_plans_error_prefix(rels: Map<Seq<char>, StrMap<TableRel>>, sels: Seq<GqlSelection>, k: int)
    requires
        0 <= k <= sels.len(),
        plans_error(rels, sels.take(k)) is Some,
    ensures
        plans_error(rels, sels) == plans_error(rels, sels.take(k)),
    decreases sels.len() - k,
{
    if k < sels.len() {
        assert(sels.take(k + 1).drop_last() =~= sels.take(k));
        lemma_plans_error_prefix(rels, sels, k + 1);
    } else {
        assert(sels.take(k) =~= sels);
    }
}

/// One member of a JSON object: the quoted key, a colon and the value.
pub open spec fn member_text(p: (String, String)) -> Seq<char> {
    "\""@ + p.0@ + "\":"@ + p.1@
}

/// The members of a JSON object.
pub open spec fn member_texts(parts: Seq<(String, String)>) -> Seq<Seq<char>> {
    parts.map_values(|p: (String, String)| member_text(p))
}

/// The JSON object of a query's answer: each top level key with the JSON
/// of its rows.
pub open spec fn output_of(parts: Seq<(String, String)>) -> Seq<char> {
    "{"@ + joined(member_texts(parts), ","@) + "}"@
}

/// Writes the JSON object of a query's answer.
pub fn graphql_output(parts: &Vec<(String, String)>) -> (r: String)
    ensures
        r@ == output_of(parts@),
{
    let mut kv: Vec<String> = Vec::new();
    for i in 0..parts.len()
        invariant
            texts(kv@) == member_texts(parts@.take(i as int)),
    {
        let mut e = own("\"");
        push_str(&mut e, parts[i].0.as_str());
        push_str(&mut e, "\":");
        push_str(&mut e, parts[i].1.as_str());
        let ghost before = texts(kv@);
        kv.push(e);
        assert(e@ =~= member_text(parts@[i as int]));
        assert(texts(kv@) =~= before.push(e@));
        assert(texts(kv@) =~= member_texts(parts@.take(i + 1)));
    }
    assert(parts@.take(parts@.len() as int) =~= parts@);
    let mut r = own("{");
    let body = join_strings(&kv, ",");
    push_str(&mut r, body.as_str());
    push_str(&mut r, "}");
    r
}

/// A value that SQLite gives back for one column of one row.
#[derive(Debug)]
pub enum CellValue {
    Null,
    Integer(i64),
    /// A real, as the text that `f64`'s `Display` writes for it.
    Real(String),
    Text(Vec<u8>),
    Blob(Vec<u8>),
}

/// The text of some bytes, where they are UTF-8.
///
/// Trusted: calls `std::str::from_utf8`, which std documents to succeed
/// exactly on valid UTF-8; the text is then the characters the bytes encode.
#[verifier::external_body]
fn utf8_text(bytes: &[u8]) -> (r: Result<String, core::str::Utf8Error>)
    ensures
        r is Ok <==> valid_utf8(bytes@),
        r matches Ok(s) ==> s@ == decode_utf8(bytes@),
{
    std::str::from_utf8(bytes).map(|s| s.to_string())
}

/// A lower case hexadecimal digit.
pub open spec fn hex_digit(n: u32) -> char {
    if n < 10 {
        (48 + n) as char
    } else {
        (87 + n) as char
    }
}

/// A character as it stands inside a JSON string: the double quote, the
/// backslash and the control characters below U+0020 escaped (`\n`, `\r`,
/// `\t`, `\b`, `\f`, else `\u00XX`), every other character as it is.
pub open spec fn escaped_char(c: char) -> Seq<char> {
    if c == '\\' {
        seq!['\\', '\\']
    } else if c == '"' {
        seq!['\\', '"']
    } else if c == '\n' {
        seq!['\\', 'n']
    } else if c == '\r' {
        seq!['\\', 'r']
    } else if c == '\t' {
        seq!['\\', 't']
    } else if c == '\u{8}' {
        seq!['\\', 'b']
    } else if c == '\u{c}' {
        seq!['\\', 'f']
    } else if (c as u32) < 0x20 {
        seq!['\\', 'u', '0', '0', hex_digit((c as u32) / 16), hex_digit((c as u32) % 16)]
    } else {
        seq![c]
    }
}

/// The hexadecimal digit of `n`.
fn hex_char(n: u32) -> (r: char)
    requires
        n < 16,
    ensures
        r == hex_digit(n),
{
    let b: u8 = if n < 10 {
        (48 + n) as u8
    } else {
        (87 + n) as u8
    };
    b as char
}

/// Appends a character as it stands inside a JSON string.
fn push_escaped(r: &mut String, c: char)
    ensures
        final(r)@ == old(r)@ + escaped_char(c),
{
    let ghost before = r@;
    if c == '\\' {
        crate::text::string_push(r, '\\');
        crate::text::string_push(r, '\\');
    } else if c == '"' {
        crate::text::string_push(r, '\\');
        crate::text::string_push(r, '"');
    } else if c == '\n' {
        crate::text::string_push(r, '\\');
        crate::text::string_push(r, 'n');
    } else if c == '\r' {
        crate::text::string_push(r, '\\');
        crate::text::string_push(r, 'r');
    } else if c == '\t' {
        crate::text::string_push(r, '\\');
        crate::text::string_push(r, 't');
    } else if c == '\u{8}' {
        crate::text::string_push(r, '\\');
        crate::text::string_push(r, 'b');
    } else if c == '\u{c}' {
        crate::text::string_push(r, '\\');
        crate::text::string_push(r, 'f');
    } else if (c as u32) < 0x20 {
        let n = c as u32;
        crate::text::string_push(r, '\\');
        crate::text::string_push(r, 'u');
        crate::text::string_push(r, '0');
        crate::text::string_push(r, '0');
        crate::text::string_push(r, hex_char(n / 16));
        crate::text::string_push(r, hex_char(n % 16));
    } else {
        crate::text::string_push(r, c);
    }
    assert(r@ =~= before + escaped_char(c));
}

/// A text as it stands inside a JSON string.
pub open spec fn escaped(s: Seq<char>) -> Seq<char> {
    s.map_values(|c: char| escaped_char(c)).flatten()
}

/// The JSON of a cell: `null`, a number, or a JSON string; `None` where
/// the text is no UTF-8.
pub open spec fn cell_json(v: CellValue) -> Option<Seq<char>> {
    match v {
        CellValue::Null => Some("null"@),
        CellValue::Integer(x) => Some(signed_decimal(x as int)),
        CellValue::Real(t) => Some(t@),
        CellValue::Text(b) => if valid_utf8(b@) {
            Some(seq!['"'] + escaped(decode_utf8(b@)) + seq!['"'])
        } else {
            None
        },
        CellValue::Blob(b) => if valid_utf8(b@) {
            Some(seq!['"'] + escaped(decode_utf8(b@)) + seq!['"'])
        } else {
            None
        },
    }
}

fn quoted_json(bytes: &[u8]) -> (r: Result<String, core::str::Utf8Error>)
    ensures
        r is Ok <==> valid_utf8(bytes@),
        r matches Ok(s) ==> s@ == seq!['"'] + escaped(decode_utf8(bytes@)) + seq!['"'],
{
    let text = utf8_text(bytes)?;
    let chars = crate::text::str_chars(text.as_str());
    let mut r = String::new();
    crate::text::string_push(&mut r, '"');
    let ghost start = r@;
    let ghost g = |c: char| escaped_char(c);
    for i in 0..chars.len()
        invariant
            g == (|c: char| escaped_char(c)),
            r@ == start + chars@.take(i as int).map_values(g).flatten(),
    {
        let c = chars[i];
        let ghost before = r@;
        push_escaped(&mut r, c);
        proof {
            assert(r@ =~= before + escaped_char(c));
            assert(chars@.take(i + 1).map_values(g) =~= chars@.take(i as int).map_values(g).push(g(c)));
            chars@.take(i as int).map_values(g).lemma_flatten_push(g(c));
        }
    }
    crate::text::string_push(&mut r, '"');
    assert(chars@.take(chars@.len() as int) =~= chars@);
    assert(r@ =~= seq!['"'] + escaped(decode_utf8(bytes@)) + seq!['"']);
    Ok(r)
}

/// Formats a cell as JSON.
pub fn valueref_to_json(v: &CellValue) -> (r: Result<String, core::str::Utf8Error>)
    ensures
        r is Ok <==> cell_json(*v) is Some,
        r matches Ok(s) ==> cell_json(*v) == Some(s@),
{
    match v {
        CellValue::Null => Ok(own("null")),
        CellValue::Integer(x) => {
            let mut s = String::new();
            push_i64(&mut s, *x);
            assert(s@ =~= signed_decimal(*x as int));
            Ok(s)
        },
        CellValue::Real(t) => Ok(own(t.as_str())),
        CellValue::Text(b) => quoted_json(b.as_slice()),
        CellValue::Blob(b) => quoted_json(b.as_slice()),
    }
}

impl View for TableRel {
    type V = (bool, Seq<char>, Seq<char>, Seq<char>);

    open spec fn view(&self) -> Self::V {
        (self.unique, self.from_col@, self.to_table@, self.to_col@)
    }
}

/// A foreign key of a table, as SQLite's `pragma_foreign_key_list` lists it.
#[derive(Debug)]
pub struct ForeignKey {
    pub from_col: String,
    pub to_table: String,
    pub to_col: String,
}

/// A table of the database with its foreign keys, in the order SQLite
/// lists them.
#[derive(Debug)]
pub struct TableFks {
    pub table: String,
    pub fks: Vec<ForeignKey>,
}

/// One entry that the relations get: table, name, relation.
pub type RelEntry = (Seq<char>, Seq<char>, (bool, Seq<char>, Seq<char>, Seq<char>));

/// The reverse of foreign key `f` of table `t`: from the referenced table
/// back to the many rows of `t` that refer to it.
pub open spec fn rev_rel(t: TableFks, f: ForeignKey) -> (bool, Seq<char>, Seq<char>, Seq<char>) {
    (false, f.to_col@, t.table@, f.from_col@)
}

/// The name under which the referenced table reaches `t` through `f`.
pub open spec fn rev_name(t: TableFks, f: ForeignKey) -> Seq<char> {
    t.table@ + "_"@ + f.from_col@
}

/// Whether foreign key `i` is the last one of `fks` that refers to its
/// table.
pub open spec fn last_to_its_table(fks: Seq<ForeignKey>, i: int) -> bool {
    forall|j: int| i < j < fks.len() ==> (#[trigger] fks[j]).to_table@ != fks[i].to_table@
}

/// The entries that the foreign keys of one table give, in the order they
/// are made: each foreign key under its column; then each reverse under
/// the table and column names; then, for each table that `t` refers to,
/// a reverse under the name of `t` itself.
pub open spec fn table_entries(t: TableFks) -> Seq<RelEntry> {
    t.fks@.map_values(
        |f: ForeignKey| (t.table@, f.from_col@, (true, f.from_col@, f.to_table@, f.to_col@)),
    ) + t.fks@.map_values(|f: ForeignKey| (f.to_table@, rev_name(t, f), rev_rel(t, f))) + Seq::new(
        t.fks@.len(),
        |i: int| i,
    ).filter_map(
        |i: int|
            if last_to_its_table(t.fks@, i) {
                Some((t.fks@[i].to_table@, t.table@, rev_rel(t, t.fks@[i])))
            } else {
                None
            },
    )
}

/// The entries of all tables, table after table.
pub open spec fn all_entries(tables: Seq<TableFks>) -> Seq<RelEntry> {
    tables.map_values(|t: TableFks| table_entries(t)).flatten()
}

/// The last relation each table and name get.
pub open spec fn last_rels(entries: Seq<RelEntry>) -> Map<
    (Seq<char>, Seq<char>),
    (bool, Seq<char>, Seq<char>, Seq<char>),
> {
    last_values(entries.map_values(|e: RelEntry| ((e.0, e.1), e.2)))
}

/// The relations hold, per table and name, the last entry made for them.
pub open spec fn holds_entries(m: Map<Seq<char>, StrMap<TableRel>>, entries: Seq<RelEntry>) -> bool {
    let lv = last_rels(entries);
    &&& forall|t: Seq<char>| #[trigger] m.contains_key(t) <==> exists|k: Seq<char>| #[trigger]
        lv.contains_key((t, k))
    &&& forall|t: Seq<char>, k: Seq<char>|
        #[trigger] m.contains_key(t) ==> (m[t].view().contains_key(k) <==> #[trigger] lv.contains_key(
            (t, k),
        ))
    &&& forall|t: Seq<char>, k: Seq<char>|
        m.contains_key(t) && #[trigger] m[t].view().contains_key(k) ==> m[t].view()[k]@ == lv[(t, k)]
}

fn put_rel(
    m: &mut TableRels,
    Ghost(entries): Ghost<Seq<RelEntry>>,
    t: String,
    k: String,
    rel: TableRel,
)
    requires
        holds_entries(old(m).view(), entries),
    ensures
        holds_entries(final(m).view(), entries.push((t@, k@, rel@))),
{
    let ghost e = (t@, k@, rel@);
    let ghost tv = t@;
    let ghost kv = k@;
    let ghost relv = rel@;
    let ghost m0 = m.view();
    let mut inner = match m.take(t.as_str()) {
        Some(x) => x,
        None => {
            let x: StrMap<TableRel> = StrMap::new();
            assert(x.view() =~= Map::<Seq<char>, TableRel>::empty());
            x
        },
    };
    let ghost i0 = inner.view();
    inner.put(k, rel);
    m.put(t, inner);
    proof {
        let f = |x: RelEntry| ((x.0, x.1), x.2);
        assert(entries.push(e).map_values(f) =~= entries.map_values(f).push(f(e)));
        lemma_last_values_push(entries.map_values(f), f(e));
        let lv = last_rels(entries);
        let lv2 = last_rels(entries.push(e));
        assert(lv2 == lv.insert((tv, kv), relv));
        let m2 = m.view();
        assert forall|t2: Seq<char>| #[trigger] m2.contains_key(t2) <==> exists|k2: Seq<char>| #[trigger]
            lv2.contains_key((t2, k2)) by {
            if t2 == tv {
                assert(lv2.contains_key((t2, kv)));
            } else {
                if m2.contains_key(t2) {
                    assert(m0.contains_key(t2));
                    let k2 = choose|k2: Seq<char>| #[trigger] lv.contains_key((t2, k2));
                    assert(lv2.contains_key((t2, k2)));
                }
                if exists|k2: Seq<char>| #[trigger] lv2.contains_key((t2, k2)) {
                    let k2 = choose|k2: Seq<char>| #[trigger] lv2.contains_key((t2, k2));
                    assert(lv.contains_key((t2, k2)));
                }
            }
        }
        assert forall|t2: Seq<char>, k2: Seq<char>| #[trigger] m2.contains_key(t2) implies (
        m2[t2].view().contains_key(k2) <==> #[trigger] lv2.contains_key((t2, k2))) by {
            if t2 == tv && !m0.contains_key(tv) {
                if lv.contains_key((t2, k2)) {
                    assert(exists|k3: Seq<char>| #[trigger] lv.contains_key((t2, k3)));
                }
            }
        }
        assert forall|t2: Seq<char>, k2: Seq<char>|
            m2.contains_key(t2) && #[trigger] m2[t2].view().contains_key(k2) implies m2[t2].view()[k2]@
            == lv2[(t2, k2)] by {
        }
    }
}

/// Builds the relations of the tables: each foreign key under the name of
/// its column, each reverse under the names of its table and column, and
/// under the name of its table alone too.
pub fn table_rels_of(tables: &Vec<TableFks>) -> (r: TableRels)
    ensures
        holds_entries(r.view(), all_entries(tables@)),
{
    let mut m: TableRels = StrMap::new();
    let ghost mut done: Seq<RelEntry> = Seq::empty();
    proof {
        assert(m.view() =~= Map::<Seq<char>, StrMap<TableRel>>::empty());
        assert(last_rels(done) =~= Map::empty());
    }
    for ti in 0..tables.len()
        invariant
            holds_entries(m.view(), done),
            done == all_entries(tables@.take(ti as int)),
    {
        let t = &tables[ti];
        let ghost start = done;
        for i in 0..t.fks.len()
            invariant
                holds_entries(m.view(), done),
                done == start + t.fks@.take(i as int).map_values(
                    |f: ForeignKey| (t.table@, f.from_col@, (true, f.from_col@, f.to_table@, f.to_col@)),
                ),
        {
            let f = &t.fks[i];
            let rel = TableRel {
                unique: true,
                from_col: own(f.from_col.as_str()),
                to_table: own(f.to_table.as_str()),
                to_col: own(f.to_col.as_str()),
            };
            let ghost e = (t.table@, f.from_col@, rel@);
            put_rel(&mut m, Ghost(done), own(t.table.as_str()), own(f.from_col.as_str()), rel);
            proof {
                done = done.push(e);
                assert(t.fks@.take(i + 1).map_values(
                    |f: ForeignKey| (t.table@, f.from_col@, (true, f.from_col@, f.to_table@, f.to_col@)),
                ) =~= t.fks@.take(i as int).map_values(
                    |f: ForeignKey| (t.table@, f.from_col@, (true, f.from_col@, f.to_table@, f.to_col@)),
                ).push(e));
            }
        }
        let ghost mid = done;
        for i in 0..t.fks.len()
            invariant
                holds_entries(m.view(), done),
                done == mid + t.fks@.take(i as int).map_values(
                    |f: ForeignKey| (f.to_table@, rev_name(*t, f), rev_rel(*t, f)),
                ),
        {
            let f = &t.fks[i];
            let mut name = own(t.table.as_str());
            push_str(&mut name, "_");
            push_str(&mut name, f.from_col.as_str());
            let rel = TableRel {
                unique: false,
                from_col: own(f.to_col.as_str()),
                to_table: own(t.table.as_str()),
                to_col: own(f.from_col.as_str()),
            };
            let ghost e = (f.to_table@, rev_name(*t, *f), rev_rel(*t, *f));
            put_rel(&mut m, Ghost(done), own(f.to_table.as_str()), name, rel);
            proof {
                done = done.push(e);
                assert(t.fks@.take(i + 1).map_values(
                    |f: ForeignKey| (f.to_table@, rev_name(*t, f), rev_rel(*t, f)),
                ) =~= t.fks@.take(i as int).map_values(
                    |f: ForeignKey| (f.to_table@, rev_name(*t, f), rev_rel(*t, f)),
                ).push(e));
            }
        }
        let ghost mid2 = done;
        let ghost idx = Seq::new(t.fks@.len(), |i: int| i);
        let ghost g = |i: int|
            if last_to_its_table(t.fks@, i) {
                Some((t.fks@[i].to_table@, t.table@, rev_rel(*t, t.fks@[i])))
            } else {
                None
            };
        for i in 0..t.fks.len()
            invariant
                holds_entries(m.view(), done),
                idx == Seq::new(t.fks@.len(), |i: int| i),
                g == (|i: int|
                    if last_to_its_table(t.fks@, i) {
                        Some((t.fks@[i].to_table@, t.table@, rev_rel(*t, t.fks@[i])))
                    } else {
                        None
                    }),
                done == mid2 + idx.take(i as int).filter_map(g),
        {
            let f = &t.fks[i];
            let mut last = true;
            let mut j = i + 1;
            while j < t.fks.len()
                invariant
                    i < j <= t.fks@.len(),
                    f.to_table@ == t.fks@[i as int].to_table@,
                    last <==> forall|q: int| i < q < j ==> (#[trigger] t.fks@[q]).to_table@ != t.fks@[i as int].to_table@,
                decreases t.fks@.len() - j,
            {
                if crate::strmap::str_same(t.fks[j].to_table.as_str(), f.to_table.as_str()) {
                    last = false;
                }
                j = j + 1;
            }
            proof {
                idx.lemma_filter_map_take_succ(g, i as int);
                assert(idx[i as int] == i);
            }
            if last {
                let rel = TableRel {
                    unique: false,
                    from_col: own(f.to_col.as_str()),
                    to_table: own(t.table.as_str()),
                    to_col: own(f.from_col.as_str()),
                };
                let ghost e = (f.to_table@, t.table@, rev_rel(*t, *f));
                put_rel(&mut m, Ghost(done), own(f.to_table.as_str()), own(t.table.as_str()), rel);
                proof {
                    done = done.push(e);
                    assert(done =~= mid2 + idx.take(i + 1).filter_map(g));
                }
            } else {
                assert(done =~= mid2 + idx.take(i + 1).filter_map(g));
            }
        }
        proof {
            assert(t.fks@.take(t.fks@.len() as int) =~= t.fks@);
            assert(idx.take(idx.len() as int) =~= idx);
            let tf = |x: TableFks| table_entries(x);
            assert(tables@.take(ti + 1).map_values(tf) =~= tables@.take(ti as int).map_values(tf).push(
                tf(tables@[ti as int]),
            ));
            tables@.take(ti as int).map_values(tf).lemma_flatten_push(tf(tables@[ti as int]));
            assert(done =~= all_entries(tables@.take(ti + 1)));
        }
    }
    assert(tables@.take(tables@.len() as int) =~= tables@);
    m
}

} // verus!
