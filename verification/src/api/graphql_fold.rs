//! Folds the rows of a GraphQL query's SQL into JSON.
//!
//! The SQL of a table query joins its tables, so one row holds, for each
//! table in query order, its row id and its columns. Rows come sorted by
//! the row ids, so the rows of one table entry are adjacent: a table reads
//! a row's columns when its row id grows, and writes out (flushes) the entry
//! it held before. A unique join writes its one entry or `null`, another
//! join the list of its entries.

use vstd::prelude::*;
use crate::api::graphql::{
    cell_json, join_strings, joined, opt_str, own, texts, valueref_to_json, CellValue, Column, Join,
    TableQuery,
};
use crate::text::push_str;

verus! {

broadcast use vstd::string::group_string_axioms;

/// What reading rows leaves alone in a table query: the table's name, the
/// name and alias of each column and its JSON key, the constraints, and,
/// for each join, whether it is unique, its name, the columns it joins on
/// and the shape of its table.
pub struct Shape {
    pub name: Seq<char>,
    pub cols: Seq<(Seq<char>, Option<Seq<char>>)>,
    pub keys: Seq<Seq<char>>,
    pub constraints: Seq<Seq<char>>,
    pub joins: Seq<JoinShape>,
}

/// The shape of one join.
pub struct JoinShape {
    pub unique: bool,
    pub name: Seq<char>,
    pub from_col: Seq<char>,
    pub to_col: Seq<char>,
    pub table: Shape,
}

/// What reading rows changes in a table query: the row id of the entry it
/// holds (0 for none), the JSON of that entry's columns, the JSON of the
/// entries written out, and the same of each joined table.
pub struct FoldState {
    pub rowid: int,
    pub values: Seq<Option<Seq<char>>>,
    pub flushed: Seq<Seq<char>>,
    pub joins: Seq<FoldState>,
}

/// The JSON key of a column: its alias, else its name.
pub open spec fn col_key(c: Column) -> Seq<char> {
    match c.alias {
        Some(a) => a@,
        None => c.name@,
    }
}

/// The shape of a table query.
pub open spec fn shape_of(q: TableQuery) -> Shape
    decreases q, 0int,
{
    proof {
        assert(decreases_to!(q => q.joins));
        assert(decreases_to!(q.joins => q.joins@));
    }
    Shape {
        name: q.name@,
        cols: q.cols@.map_values(|c: Column| (c.name@, opt_str(c.alias))),
        keys: q.cols@.map_values(|c: Column| col_key(c)),
        constraints: texts(q.constraints@),
        joins: join_shapes(q.joins@, q.joins@.len() as int),
    }
}

/// The shapes of the first `k` joins.
pub open spec fn join_shapes(js: Seq<Join>, k: int) -> Seq<JoinShape>
    decreases js, k,
{
    if k <= 0 || k > js.len() {
        Seq::empty()
    } else {
        proof {
            assert(decreases_to!(js => js[k - 1]));
            assert(decreases_to!(js[k - 1] => js[k - 1].to_table));
        }
        join_shapes(js, k - 1).push(
            JoinShape {
                unique: js[k - 1].unique,
                name: js[k - 1].graphql_name@,
                from_col: js[k - 1].from_col@,
                to_col: js[k - 1].to_col@,
                table: shape_of(js[k - 1].to_table),
            },
        )
    }
}

/// The state of a table query.
pub open spec fn state_of(q: TableQuery) -> FoldState
    decreases q, 0int,
{
    proof {
        assert(decreases_to!(q => q.joins));
        assert(decreases_to!(q.joins => q.joins@));
    }
    FoldState {
        rowid: q.rowid as int,
        values: q.cols@.map_values(|c: Column| opt_str(c.value)),
        flushed: texts(q.flushed_outputs@),
        joins: join_states(q.joins@, q.joins@.len() as int),
    }
}

/// The states of the tables of the first `k` joins.
pub open spec fn join_states(js: Seq<Join>, k: int) -> Seq<FoldState>
    decreases js, k,
{
    if k <= 0 || k > js.len() {
        Seq::empty()
    } else {
        proof {
            assert(decreases_to!(js => js[k - 1]));
            assert(decreases_to!(js[k - 1] => js[k - 1].to_table));
        }
        join_states(js, k - 1).push(state_of(js[k - 1].to_table))
    }
}

/// Whether every column holds a value.
pub open spec fn all_values(st: FoldState) -> bool {
    forall|i: int| 0 <= i < st.values.len() ==> (#[trigger] st.values[i]) is Some
}

/// Whether a state fits its shape and every table that holds an entry has
/// the values of its columns.
pub open spec fn filled(sh: Shape, st: FoldState) -> bool
    decreases sh, sh.joins.len() + 1,
{
    &&& st.values.len() == sh.keys.len()
    &&& st.joins.len() == sh.joins.len()
    &&& (st.rowid > 0 ==> all_values(st))
    &&& filled_upto(sh, st, sh.joins.len() as int)
}

/// Whether the tables of the first `k` joins are `filled`.
pub open spec fn filled_upto(sh: Shape, st: FoldState, k: int) -> bool
    decreases sh, k,
{
    if k <= 0 || k > sh.joins.len() {
        true
    } else {
        proof {
            assert(decreases_to!(sh => sh.joins));
            assert(decreases_to!(sh.joins => sh.joins[k - 1]));
        }
        filled_upto(sh, st, k - 1) && filled(sh.joins[k - 1].table, st.joins[k - 1])
    }
}

/// One member of a JSON object, with the key as it stands.
pub open spec fn member(key: Seq<char>, value: Seq<char>) -> Seq<char> {
    "\""@ + key + "\":"@ + value
}

/// The members of the columns.
pub open spec fn col_members(sh: Shape, st: FoldState) -> Seq<Seq<char>> {
    Seq::new(sh.keys.len(), |i: int| member(sh.keys[i], st.values[i]->0))
}

/// A state with its written out entries dropped.
pub open spec fn cleared(st: FoldState) -> FoldState {
    FoldState { rowid: st.rowid, values: st.values, flushed: Seq::empty(), joins: st.joins }
}

/// A state with one more entry written out.
pub open spec fn with_flushed(st: FoldState, out: Seq<char>) -> FoldState {
    FoldState { rowid: st.rowid, values: st.values, flushed: st.flushed.push(out), joins: st.joins }
}

/// Writes out the entry a table holds: the JSON object of its columns and
/// joins, and the state after (no entry held, the joins' entries dropped).
pub open spec fn flush(sh: Shape, st: FoldState) -> (Seq<char>, FoldState)
    decreases sh, sh.joins.len() + 1,
{
    let js = flush_joins(sh, st, sh.joins.len() as int);
    (
        "{"@ + joined(col_members(sh, st) + js.0, ","@) + "}"@,
        FoldState { rowid: 0, values: st.values, flushed: st.flushed, joins: js.1 },
    )
}

/// The member of join `j`, whose table is in state `c`, and that table's
/// state after.
pub open spec fn flush_join(j: JoinShape, c: FoldState) -> (Seq<char>, FoldState)
    decreases j, 0int,
{
    proof {
        assert(decreases_to!(j => j.table));
    }
    if j.unique {
        if c.rowid > 0 {
            let f = flush(j.table, c);
            (member(j.name, f.0), cleared(f.1))
        } else {
            (member(j.name, "null"@), cleared(c))
        }
    } else {
        let c1 = if c.rowid > 0 {
            let f = flush(j.table, c);
            with_flushed(f.1, f.0)
        } else {
            c
        };
        (member(j.name, "["@ + joined(c1.flushed, ","@) + "]"@), cleared(c1))
    }
}

/// The members of the first `k` joins, and the states of their tables
/// after.
pub open spec fn flush_joins(sh: Shape, st: FoldState, k: int) -> (Seq<Seq<char>>, Seq<FoldState>)
    decreases sh, k,
{
    if k <= 0 || k > sh.joins.len() {
        (Seq::empty(), Seq::empty())
    } else {
        proof {
            assert(decreases_to!(sh => sh.joins));
            assert(decreases_to!(sh.joins => sh.joins[k - 1]));
        }
        let prev = flush_joins(sh, st, k - 1);
        let f = flush_join(sh.joins[k - 1], st.joins[k - 1]);
        (prev.0.push(f.0), prev.1.push(f.1))
    }
}

/// The shapes and states of the first `k` joins depend on those joins
/// alone.
proof fn lemma_joins_prefix(s: Seq<Join>, t: Seq<Join>, k: int)
    requires
        0 <= k <= s.len(),
        k <= t.len(),
        s.take(k) == t.take(k),
    ensures
        join_shapes(s, k) == join_shapes(t, k),
        join_states(s, k) == join_states(t, k),
    decreases k,
{
    if k > 0 {
        assert(s.take(k - 1) == s.take(k).take(k - 1));
        assert(t.take(k - 1) == t.take(k).take(k - 1));
        assert(s[k - 1] == s.take(k)[k - 1]);
        assert(t[k - 1] == t.take(k)[k - 1]);
        lemma_joins_prefix(s, t, k - 1);
    }
}

/// The `i`-th of the first `k` join shapes and states is that of join `i`.
proof fn lemma_joins_index(s: Seq<Join>, k: int)
    requires
        0 <= k <= s.len(),
    ensures
        join_shapes(s, k).len() == k,
        join_states(s, k).len() == k,
        forall|i: int|
            0 <= i < k ==> #[trigger] join_shapes(s, k)[i] == (JoinShape {
                unique: s[i].unique,
                name: s[i].graphql_name@,
                from_col: s[i].from_col@,
                to_col: s[i].to_col@,
                table: shape_of(s[i].to_table),
            }),
        forall|i: int| 0 <= i < k ==> #[trigger] join_states(s, k)[i] == state_of(s[i].to_table),
    decreases k,
{
    if k > 0 {
        lemma_joins_index(s, k - 1);
    }
}

/// The first `k` joins' members and states depend only on the first `k`
/// join states.
proof fn lemma_flush_joins_len(sh: Shape, st: FoldState, k: int)
    requires
        0 <= k <= sh.joins.len(),
    ensures
        flush_joins(sh, st, k).0.len() == k,
        flush_joins(sh, st, k).1.len() == k,
    decreases k,
{
    if k > 0 {
        lemma_flush_joins_len(sh, st, k - 1);
    }
}

/// The state after writing out: every column keeps its value, the joins'
/// entries are dropped, and what is `filled` stays so.
proof fn lemma_flush_filled(sh: Shape, st: FoldState)
    requires
        filled(sh, st),
    ensures
        filled(sh, flush(sh, st).1),
    decreases sh, sh.joins.len() + 1,
{
    let n = sh.joins.len() as int;
    lemma_flush_joins_filled(sh, st, n);
    lemma_filled_upto_from(sh, flush(sh, st).1, n);
}

proof fn lemma_flush_joins_filled(sh: Shape, st: FoldState, k: int)
    requires
        filled(sh, st),
        0 <= k <= sh.joins.len(),
    ensures
        flush_joins(sh, st, k).1.len() == k,
        forall|i: int|
            0 <= i < k ==> filled(sh.joins[i].table, #[trigger] flush_joins(sh, st, k).1[i]),
    decreases sh, k,
{
    if k > 0 {
        lemma_flush_joins_filled(sh, st, k - 1);
        lemma_filled_upto(sh, st, sh.joins.len() as int, k - 1);
        assert(decreases_to!(sh => sh.joins));
        assert(decreases_to!(sh.joins => sh.joins[k - 1]));
        assert(decreases_to!(sh.joins[k - 1] => sh.joins[k - 1].table));
        let j = sh.joins[k - 1];
        let c = st.joins[k - 1];
        if c.rowid > 0 {
            lemma_flush_filled(j.table, c);
            let f = flush(j.table, c);
            lemma_cleared_filled(j.table, f.1);
            let w = with_flushed(f.1, f.0);
            lemma_filled_same(j.table, f.1, w);
            lemma_cleared_filled(j.table, w);
        } else {
            lemma_cleared_filled(j.table, c);
        }
        assert(filled(j.table, flush_join(j, c).1));
        let prev = flush_joins(sh, st, k - 1);
        let fk = flush_joins(sh, st, k);
        assert(fk.1 == prev.1.push(flush_join(j, c).1));
        assert forall|i: int| 0 <= i < k implies filled(sh.joins[i].table, #[trigger] fk.1[i]) by {
            if i < k - 1 {
                assert(fk.1[i] == prev.1[i]);
            }
        }
    }
}

/// `filled` looks at neither the written out entries.
proof fn lemma_filled_same(sh: Shape, a: FoldState, b: FoldState)
    requires
        filled(sh, a),
        b.rowid == a.rowid,
        b.values == a.values,
        b.joins == a.joins,
    ensures
        filled(sh, b),
{
    lemma_filled_upto_same(sh, a, b, sh.joins.len() as int);
}

proof fn lemma_filled_upto_same(sh: Shape, a: FoldState, b: FoldState, k: int)
    requires
        filled_upto(sh, a, k),
        b.joins == a.joins,
    ensures
        filled_upto(sh, b, k),
    decreases k,
{
    if k > 0 && k <= sh.joins.len() {
        lemma_filled_upto_same(sh, a, b, k - 1);
    }
}

proof fn lemma_cleared_filled(sh: Shape, st: FoldState)
    requires
        filled(sh, st),
    ensures
        filled(sh, cleared(st)),
{
    lemma_filled_same(sh, st, cleared(st));
}

/// `filled_upto` for `n` joins holds for each join below `n`.
proof fn lemma_filled_upto(sh: Shape, st: FoldState, n: int, i: int)
    requires
        filled_upto(sh, st, n),
        0 <= i < n <= sh.joins.len(),
    ensures
        filled(sh.joins[i].table, st.joins[i]),
    decreases n,
{
    if i < n - 1 {
        lemma_filled_upto(sh, st, n - 1, i);
    }
}

/// `filled_upto` from the joins one by one.
proof fn lemma_filled_upto_from(sh: Shape, st: FoldState, n: int)
    requires
        0 <= n <= sh.joins.len(),
        forall|i: int| 0 <= i < n ==> filled(sh.joins[i].table, #[trigger] st.joins[i]),
    ensures
        filled_upto(sh, st, n),
    decreases n,
{
    if n > 0 {
        lemma_filled_upto_from(sh, st, n - 1);
    }
}

/// The state of a table query with one more entry written out.
proof fn lemma_state_pushed(q: TableQuery, p: TableQuery, out: Seq<char>)
    requires
        p.name == q.name,
        p.constraints@ == q.constraints@,
        p.rowid == q.rowid,
        p.cols@ == q.cols@,
        p.joins@ == q.joins@,
        p.flushed_outputs@.len() == q.flushed_outputs@.len() + 1,
        p.flushed_outputs@.drop_last() == q.flushed_outputs@,
        p.flushed_outputs@.last()@ == out,
    ensures
        state_of(p) == with_flushed(state_of(q), out),
        shape_of(p) == shape_of(q),
{
    assert(texts(p.flushed_outputs@) =~= texts(q.flushed_outputs@).push(out));
    assert(p.cols@.map_values(|c: Column| opt_str(c.value)) =~= q.cols@.map_values(
        |c: Column| opt_str(c.value),
    ));
    assert(p.cols@.map_values(|c: Column| col_key(c)) =~= q.cols@.map_values(|c: Column| col_key(c)));
    assert(p.cols@.map_values(|c: Column| (c.name@, opt_str(c.alias))) =~= q.cols@.map_values(
        |c: Column| (c.name@, opt_str(c.alias)),
    ));
    assert(texts(p.constraints@) =~= texts(q.constraints@));
}

/// The state of a table query whose written out entries were dropped.
proof fn lemma_state_cleared(q: TableQuery, p: TableQuery)
    requires
        p.name == q.name,
        p.constraints@ == q.constraints@,
        p.rowid == q.rowid,
        p.cols@ == q.cols@,
        p.joins@ == q.joins@,
        p.flushed_outputs@.len() == 0,
    ensures
        state_of(p) == cleared(state_of(q)),
        shape_of(p) == shape_of(q),
{
    assert(texts(p.flushed_outputs@) =~= Seq::<Seq<char>>::empty());
    assert(p.cols@.map_values(|c: Column| opt_str(c.value)) =~= q.cols@.map_values(
        |c: Column| opt_str(c.value),
    ));
    assert(p.cols@.map_values(|c: Column| col_key(c)) =~= q.cols@.map_values(|c: Column| col_key(c)));
    assert(p.cols@.map_values(|c: Column| (c.name@, opt_str(c.alias))) =~= q.cols@.map_values(
        |c: Column| (c.name@, opt_str(c.alias)),
    ));
    assert(texts(p.constraints@) =~= texts(q.constraints@));
}

/// Writes out the entry a table query holds, as the JSON object of its
/// columns and joins, and drops what its joins held and wrote out.
pub fn flush_table_data(tq: &mut TableQuery) -> (r: String)
    requires
        filled(shape_of(*old(tq)), state_of(*old(tq))),
        all_values(state_of(*old(tq))),
    ensures
        shape_of(*final(tq)) == shape_of(*old(tq)),
        state_of(*final(tq)) == flush(shape_of(*old(tq)), state_of(*old(tq))).1,
        r@ == flush(shape_of(*old(tq)), state_of(*old(tq))).0,
    decreases *old(tq),
{
    let ghost sh = shape_of(*tq);
    let ghost st = state_of(*tq);
    let mut kv: Vec<String> = Vec::new();
    for i in 0..tq.cols.len()
        invariant
            sh == shape_of(*tq),
            st == state_of(*tq),
            all_values(st),
            texts(kv@) == col_members(sh, st).take(i as int),
    {
        let c = &tq.cols[i];
        assert(st.values[i as int] == opt_str(c.value));
        assert(sh.keys[i as int] == col_key(*c));
        let mut e = own("\"");
        match &c.alias {
            Some(a) => push_str(&mut e, a.as_str()),
            None => push_str(&mut e, c.name.as_str()),
        }
        push_str(&mut e, "\":");
        let v = c.value.as_ref().unwrap();
        push_str(&mut e, v.as_str());
        let ghost before = kv@;
        kv.push(e);
        assert(texts(kv@) =~= texts(before).push(e@));
        assert(col_members(sh, st).take(i + 1) =~= col_members(sh, st).take(i as int).push(
            member(sh.keys[i as int], st.values[i as int]->0),
        ));
    }
    assert(col_members(sh, st).take(tq.cols@.len() as int) =~= col_members(sh, st));
    let mut joins: Vec<Join> = Vec::new();
    std::mem::swap(&mut joins, &mut tq.joins);
    let ghost orig = joins@;
    let ghost n = orig.len() as int;
    proof {
        lemma_joins_index(orig, n);
        lemma_flush_joins_len(sh, st, 0);
        assert(orig.skip(0) == orig);
        assert(col_members(sh, st) + flush_joins(sh, st, 0).0 =~= col_members(sh, st));
    }
    let mut done: Vec<Join> = Vec::new();
    while joins.len() > 0
        invariant
            orig == old(tq).joins@,
            n == orig.len(),
            sh == shape_of(*old(tq)),
            st == state_of(*old(tq)),
            filled(sh, st),
            sh.joins == join_shapes(orig, n),
            st.joins == join_states(orig, n),
            join_shapes(orig, n).len() == n,
            join_states(orig, n).len() == n,
            forall|i: int|
                0 <= i < n ==> #[trigger] join_shapes(orig, n)[i] == (JoinShape {
                    unique: orig[i].unique,
                    name: orig[i].graphql_name@,
                    from_col: orig[i].from_col@,
                    to_col: orig[i].to_col@,
                    table: shape_of(orig[i].to_table),
                }),
            forall|i: int| 0 <= i < n ==> #[trigger] join_states(orig, n)[i] == state_of(orig[i].to_table),
            done@.len() + joins@.len() == n,
            joins@ == orig.skip(done@.len() as int),
            join_shapes(done@, done@.len() as int) == join_shapes(orig, done@.len() as int),
            join_states(done@, done@.len() as int) == flush_joins(sh, st, done@.len() as int).1,
            texts(kv@) == col_members(sh, st) + flush_joins(sh, st, done@.len() as int).0,
            tq.cols@ == old(tq).cols@,
            tq.rowid == old(tq).rowid,
            tq.flushed_outputs@ == old(tq).flushed_outputs@,
        decreases joins.len(),
    {
        let ghost k = done@.len() as int;
        let ghost done0 = done@;
        let ghost kv0 = kv@;
        let mut j = joins.remove(0);
        assert(j == orig[k]);
        proof {
            assert(decreases_to!(*old(tq) => old(tq).joins));
            assert(decreases_to!(old(tq).joins => old(tq).joins@));
            assert(decreases_to!(old(tq).joins@ => orig[k]));
            assert(decreases_to!(orig[k] => orig[k].to_table));
            lemma_filled_upto(sh, st, n, k);
            lemma_flush_joins_len(sh, st, k);
        }
        let ghost js = sh.joins[k];
        let ghost c = st.joins[k];
        assert(js.table == shape_of(j.to_table));
        assert(c == state_of(j.to_table));
        let mut e = own("\"");
        push_str(&mut e, j.graphql_name.as_str());
        push_str(&mut e, "\":");
        if j.unique {
            if j.to_table.rowid > 0 {
                let out = flush_table_data(&mut j.to_table);
                push_str(&mut e, out.as_str());
            } else {
                push_str(&mut e, "null");
            }
            let ghost before = j.to_table;
            j.to_table.flushed_outputs = Vec::new();
            proof {
                lemma_state_cleared(before, j.to_table);
            }
        } else {
            if j.to_table.rowid > 0 {
                let ghost before = j.to_table;
                let out = flush_table_data(&mut j.to_table);
                let ghost mid = j.to_table;
                j.to_table.flushed_outputs.push(out);
                proof {
                    assert(j.to_table.flushed_outputs@.drop_last() =~= mid.flushed_outputs@);
                    lemma_state_pushed(mid, j.to_table, out@);
                }
            }
            push_str(&mut e, "[");
            let body = join_strings(&j.to_table.flushed_outputs, ",");
            push_str(&mut e, body.as_str());
            push_str(&mut e, "]");
            let ghost before = j.to_table;
            j.to_table.flushed_outputs = Vec::new();
            proof {
                lemma_state_cleared(before, j.to_table);
            }
        }
        assert(e@ == flush_join(js, c).0);
        assert(state_of(j.to_table) == flush_join(js, c).1);
        assert(shape_of(j.to_table) == js.table);
        kv.push(e);
        done.push(j);
        proof {
            assert(texts(kv@) =~= texts(kv0).push(e@));
            assert(col_members(sh, st) + flush_joins(sh, st, k + 1).0 =~= (col_members(sh, st)
                + flush_joins(sh, st, k).0).push(e@));
            assert(done@.take(k) =~= done0.take(k));
            lemma_joins_prefix(done@, done0, k);
            assert(done0 =~= done0.take(k));
            assert(orig.skip(k + 1) =~= orig.skip(k).drop_first());
            assert(join_shapes(done@, k + 1) == join_shapes(done@, k).push(
                JoinShape {
                    unique: j.unique,
                    name: j.graphql_name@,
                    from_col: j.from_col@,
                    to_col: j.to_col@,
                    table: shape_of(j.to_table),
                },
            ));
            assert(join_shapes(orig, k + 1) == join_shapes(orig, k).push(join_shapes(orig, n)[k]));
        }
    }
    proof {
        assert(join_shapes(orig, n).len() == n);
    }
    tq.joins = done;
    tq.rowid = 0;
    let mut r = own("{");
    let body = join_strings(&kv, ",");
    push_str(&mut r, body.as_str());
    push_str(&mut r, "}");
    proof {
        assert(tq.cols@.map_values(|c: Column| opt_str(c.value)) =~= old(tq).cols@.map_values(
            |c: Column| opt_str(c.value),
        ));
        assert(tq.cols@.map_values(|c: Column| col_key(c)) =~= old(tq).cols@.map_values(
            |c: Column| col_key(c),
        ));
    }
    r
}

/// How many cells of a row a table query reads: its row id, its columns,
/// and those of its joins.
pub open spec fn width(sh: Shape) -> int
    decreases sh, sh.joins.len() + 1,
{
    1 + sh.keys.len() + widths(sh, sh.joins.len() as int)
}

/// How many cells the first `k` joins read.
pub open spec fn widths(sh: Shape, k: int) -> int
    decreases sh, k,
{
    if k <= 0 || k > sh.joins.len() {
        0
    } else {
        proof {
            assert(decreases_to!(sh => sh.joins));
            assert(decreases_to!(sh.joins => sh.joins[k - 1]));
        }
        widths(sh, k - 1) + width(sh.joins[k - 1].table)
    }
}

/// The JSON of `k` cells from `start` on, or the error of the first that
/// fails: `Some(i)` for a cell `i` the row does not have, `None` for text
/// that is no UTF-8.
pub open spec fn read_values(row: Seq<CellValue>, start: int, k: int) -> Result<
    Seq<Seq<char>>,
    Option<int>,
>
    decreases k,
{
    if k <= 0 {
        Ok(Seq::empty())
    } else {
        match read_values(row, start, k - 1) {
            Err(e) => Err(e),
            Ok(vs) => {
                let i = start + k - 1;
                if i < 0 || i >= row.len() {
                    Err(Some(i))
                } else {
                    match cell_json(row[i]) {
                        None => Err(None),
                        Some(v) => Ok(vs.push(v)),
                    }
                }
            },
        }
    }
}

/// The values the columns hold after reading `vs`.
pub open spec fn held(vs: Seq<Seq<char>>) -> Seq<Option<Seq<char>>> {
    vs.map_values(|v: Seq<char>| Some(v))
}

/// A state with the entry it held written out, where it held one.
pub open spec fn flushed_if_held(sh: Shape, st: FoldState) -> FoldState {
    if st.rowid > 0 {
        with_flushed(flush(sh, st).1, flush(sh, st).0)
    } else {
        st
    }
}

/// What reading the table's own cells at `icol` does: the state before its
/// joins read, and whether they skip the row.
pub open spec fn own_step(sh: Shape, st: FoldState, icol: int, skip: bool, row: Seq<CellValue>) -> Result<
    (FoldState, bool),
    Option<int>,
> {
    if skip {
        Ok((st, true))
    } else if icol < 0 || icol >= row.len() {
        Err(Some(icol))
    } else {
        match row[icol] {
            CellValue::Integer(id) => if id > st.rowid {
                let h = flushed_if_held(sh, st);
                match read_values(row, icol + 1, sh.keys.len() as int) {
                    Err(e) => Err(e),
                    Ok(vs) => Ok(
                        (FoldState { rowid: id as int, values: held(vs), flushed: h.flushed, joins: h.joins }, false),
                    ),
                }
            } else if id == st.rowid {
                Ok((st, false))
            } else {
                Ok((st, true))
            },
            _ => Ok((flushed_if_held(sh, st), false)),
        }
    }
}

/// Reads one row into a table query whose cells start at `icol`; with
/// `skip`, the row is one the table has seen, and its joins skip it too.
/// A new row id writes out the entry held before and holds the row's
/// columns; the same row id leaves the table as it is; a smaller one skips
/// the row; no row id (a join that found nothing) writes out the entry
/// held. The joins read the row after the table.
pub open spec fn read_row(sh: Shape, st: FoldState, icol: int, skip: bool, row: Seq<CellValue>) -> Result<
    FoldState,
    Option<int>,
>
    decreases sh, sh.joins.len() + 1,
{
    match own_step(sh, st, icol, skip, row) {
        Err(e) => Err(e),
        Ok((s, sk)) => match read_joins(
            sh,
            s.joins,
            icol + 1 + sh.keys.len(),
            sk,
            row,
            sh.joins.len() as int,
        ) {
            Err(e) => Err(e),
            Ok(js) => Ok(FoldState { rowid: s.rowid, values: s.values, flushed: s.flushed, joins: js }),
        },
    }
}

/// The first `k` joins, in states `sts`, reading the row from `start` on.
pub open spec fn read_joins(
    sh: Shape,
    sts: Seq<FoldState>,
    start: int,
    skip: bool,
    row: Seq<CellValue>,
    k: int,
) -> Result<Seq<FoldState>, Option<int>>
    decreases sh, k,
{
    if k <= 0 || k > sh.joins.len() {
        Ok(Seq::empty())
    } else {
        proof {
            assert(decreases_to!(sh => sh.joins));
            assert(decreases_to!(sh.joins => sh.joins[k - 1]));
            assert(decreases_to!(sh.joins[k - 1] => sh.joins[k - 1].table));
        }
        match read_joins(sh, sts, start, skip, row, k - 1) {
            Err(e) => Err(e),
            Ok(prev) => match read_row(
                sh.joins[k - 1].table,
                sts[k - 1],
                start + widths(sh, k - 1),
                skip,
                row,
            ) {
                Err(e) => Err(e),
                Ok(s) => Ok(prev.push(s)),
            },
        }
    }
}

/// Why a row could not be read.
#[derive(Debug)]
pub enum RowError {
    /// The row has no cell at this index.
    InvalidColumnIndex(usize),
    /// A text cell is no UTF-8.
    Utf8(core::str::Utf8Error),
}

/// Whether `r` reports the error `e` of the reading spec.
pub open spec fn reports(r: RowError, e: Option<int>) -> bool {
    match r {
        RowError::InvalidColumnIndex(i) => e == Some(i as int),
        RowError::Utf8(_) => e is None,
    }
}

proof fn lemma_widths(sh: Shape, k: int)
    requires
        0 <= k <= sh.joins.len(),
    ensures
        0 <= widths(sh, k) <= widths(sh, sh.joins.len() as int),
        width(sh) >= 1 + sh.keys.len(),
    decreases sh.joins.len() - k,
{
    lemma_widths_nonneg_deep(sh, k);
    lemma_widths_nonneg_deep(sh, sh.joins.len() as int);
    if k < sh.joins.len() {
        lemma_widths(sh, k + 1);
        lemma_width_pos_shallow(sh.joins[k].table);
        assert(widths(sh, k + 1) == widths(sh, k) + width(sh.joins[k].table));
    }
}

proof fn lemma_width_pos_shallow(sh: Shape)
    ensures
        width(sh) >= 1,
    decreases sh,
{
    assert(decreases_to!(sh => sh.joins));
    lemma_widths_nonneg_deep(sh, sh.joins.len() as int);
}

proof fn lemma_widths_nonneg_deep(sh: Shape, k: int)
    ensures
        widths(sh, k) >= 0,
    decreases sh, k,
{
    if k > 0 && k <= sh.joins.len() {
        assert(decreases_to!(sh => sh.joins));
        assert(decreases_to!(sh.joins => sh.joins[k - 1]));
        assert(decreases_to!(sh.joins[k - 1] => sh.joins[k - 1].table));
        lemma_widths_nonneg_deep(sh, k - 1);
        lemma_width_pos_shallow(sh.joins[k - 1].table);
    }
}

proof fn lemma_read_values_err(row: Seq<CellValue>, start: int, k: int, m: int)
    requires
        0 <= k <= m,
        read_values(row, start, k) is Err,
    ensures
        read_values(row, start, m) == read_values(row, start, k),
    decreases m - k,
{
    if m > k {
        lemma_read_values_err(row, start, k, m - 1);
    }
}

proof fn lemma_read_joins_err(
    sh: Shape,
    sts: Seq<FoldState>,
    start: int,
    skip: bool,
    row: Seq<CellValue>,
    k: int,
    m: int,
)
    requires
        0 < k <= m <= sh.joins.len(),
        read_joins(sh, sts, start, skip, row, k) is Err,
    ensures
        read_joins(sh, sts, start, skip, row, m) == read_joins(sh, sts, start, skip, row, k),
    decreases m - k,
{
    if m > k {
        lemma_read_joins_err(sh, sts, start, skip, row, k, m - 1);
    }
}

/// A table with new columns or row id stays `filled` where its joins are
/// those of a `filled` one and it holds values where it holds an entry.
proof fn lemma_filled_joins(sh: Shape, a: FoldState, b: FoldState)
    requires
        filled(sh, a),
        b.joins == a.joins,
        b.values.len() == sh.keys.len(),
        b.rowid > 0 ==> all_values(b),
    ensures
        filled(sh, b),
{
    lemma_filled_upto_same(sh, a, b, sh.joins.len() as int);
}

/// The state of a table query after writing out its entry and keeping the
/// JSON in its written out entries.
proof fn lemma_flush_kept(sh: Shape, st: FoldState)
    requires
        filled(sh, st),
    ensures
        filled(sh, with_flushed(flush(sh, st).1, flush(sh, st).0)),
{
    lemma_flush_filled(sh, st);
    lemma_filled_same(sh, flush(sh, st).1, with_flushed(flush(sh, st).1, flush(sh, st).0));
}

/// Reads one row into a table query whose cells start at `*icol`, and
/// moves `*icol` past the cells of the query and its joins; with `skip`
/// the query and its joins skip the row.
pub fn table_to_json_inner(
    tq: &mut TableQuery,
    icol: &mut usize,
    skip: bool,
    row: &Vec<CellValue>,
) -> (r: Result<(), RowError>)
    requires
        filled(shape_of(*old(tq)), state_of(*old(tq))),
        *old(icol) + width(shape_of(*old(tq))) <= usize::MAX,
    ensures
        match r {
            Ok(()) => {
                &&& read_row(shape_of(*old(tq)), state_of(*old(tq)), *old(icol) as int, skip, row@)
                    == Ok::<FoldState, Option<int>>(state_of(*final(tq)))
                &&& shape_of(*final(tq)) == shape_of(*old(tq))
                &&& *final(icol) == *old(icol) + width(shape_of(*old(tq)))
                &&& filled(shape_of(*final(tq)), state_of(*final(tq)))
            },
            Err(e) => read_row(shape_of(*old(tq)), state_of(*old(tq)), *old(icol) as int, skip, row@) matches Err(x)
                && reports(e, x),
        },
    decreases shape_of(*old(tq)),
{
    let ghost sh = shape_of(*tq);
    let ghost st = state_of(*tq);
    let ghost ic0 = *icol as int;
    let ghost nk = sh.keys.len() as int;
    proof {
        lemma_widths(sh, 0);
        assert(nk == tq.cols@.len());
    }
    let mut sk = skip;
    if !skip {
        if *icol >= row.len() {
            return Err(RowError::InvalidColumnIndex(*icol));
        }
        let cell = &row[*icol];
        *icol = *icol + 1;
        match cell {
            CellValue::Integer(rowid) => {
                let rowid = *rowid;
                if rowid > tq.rowid {
                    if tq.rowid > 0 {
                        let out = flush_table_data(tq);
                        let ghost mid = *tq;
                        tq.flushed_outputs.push(out);
                        proof {
                            assert(tq.flushed_outputs@.drop_last() =~= mid.flushed_outputs@);
                            lemma_state_pushed(mid, *tq, out@);
                            lemma_flush_kept(sh, st);
                        }
                    }
                    let ghost h = state_of(*tq);
                    assert(h == flushed_if_held(sh, st));
                    assert(shape_of(*tq) == sh);
                    assert(filled(sh, h));
                    let mut cols: Vec<Column> = Vec::new();
                    std::mem::swap(&mut cols, &mut tq.cols);
                    let ghost ocols = cols@;
                    let ghost start = ic0 + 1;
                    let mut newcols: Vec<Column> = Vec::new();
                    let ghost mut vals: Seq<Seq<char>> = Seq::empty();
                    assert(ocols.skip(0) == ocols);
                    while cols.len() > 0
                        invariant
                            sh == shape_of(*old(tq)),
                            st == state_of(*old(tq)),
                            ic0 == *old(icol),
                            !skip,
                            0 <= ic0 < row@.len(),
                            row@[ic0] == CellValue::Integer(rowid),
                            rowid > st.rowid,
                            nk == sh.keys.len(),
                            start == ic0 + 1,
                            ocols.len() == nk,
                            newcols@.len() + cols@.len() == nk,
                            cols@ == ocols.skip(newcols@.len() as int),
                            *icol == start + newcols@.len(),
                            start + nk <= usize::MAX,
                            start >= 1,
                            read_values(row@, start, newcols@.len() as int) == Ok::<
                                Seq<Seq<char>>,
                                Option<int>,
                            >(vals),
                            vals.len() == newcols@.len(),
                            forall|p: int|
                                0 <= p < newcols@.len() ==> (#[trigger] newcols@[p]).name
                                    == ocols[p].name && newcols@[p].alias == ocols[p].alias
                                    && opt_str(newcols@[p].value) == Some(vals[p]),
                        decreases cols@.len(),
                    {
                        let ghost i = newcols@.len() as int;
                        let mut c = cols.remove(0);
                        assert(c == ocols[i]);
                        if *icol >= row.len() {
                            proof {
                                lemma_read_values_err(row@, start, i + 1, nk);
                                assert(own_step(sh, st, ic0, skip, row@) == Err::<(FoldState, bool), Option<int>>(Some(start + i)));
                            }
                            return Err(RowError::InvalidColumnIndex(*icol));
                        }
                        match valueref_to_json(&row[*icol]) {
                            Ok(v) => {
                                c.value = Some(v);
                                proof {
                                    vals = vals.push(v@);
                                }
                            },
                            Err(e) => {
                                proof {
                                    lemma_read_values_err(row@, start, i + 1, nk);
                                    assert(own_step(sh, st, ic0, skip, row@) == Err::<(FoldState, bool), Option<int>>(None));
                                }
                                return Err(RowError::Utf8(e));
                            },
                        }
                        *icol = *icol + 1;
                        newcols.push(c);
                        assert(ocols.skip(i + 1) =~= ocols.skip(i).drop_first());
                    }
                    tq.cols = newcols;
                    tq.rowid = rowid;
                    proof {
                        let s1 = state_of(*tq);
                        assert(s1.values =~= held(vals));
                        assert(tq.cols@.map_values(|c: Column| col_key(c)) =~= ocols.map_values(
                            |c: Column| col_key(c),
                        ));
                        assert(tq.cols@.map_values(|c: Column| (c.name@, opt_str(c.alias))) =~= ocols.map_values(
                            |c: Column| (c.name@, opt_str(c.alias)),
                        ));
                        assert(shape_of(*tq) == sh);
                        assert(s1 == FoldState {
                            rowid: rowid as int,
                            values: held(vals),
                            flushed: h.flushed,
                            joins: h.joins,
                        });
                        lemma_filled_joins(sh, h, s1);
                        assert(own_step(sh, st, ic0, skip, row@) == Ok::<
                            (FoldState, bool),
                            Option<int>,
                        >((s1, false)));
                    }
                } else if rowid == tq.rowid {
                    *icol = *icol + tq.cols.len();
                    assert(own_step(sh, st, ic0, skip, row@) == Ok::<(FoldState, bool), Option<int>>(
                        (st, false),
                    ));
                } else {
                    sk = true;
                    *icol = *icol + tq.cols.len();
                    assert(own_step(sh, st, ic0, skip, row@) == Ok::<(FoldState, bool), Option<int>>(
                        (st, true),
                    ));
                }
            },
            _ => {
                if tq.rowid > 0 {
                    let out = flush_table_data(tq);
                    let ghost mid = *tq;
                    tq.flushed_outputs.push(out);
                    proof {
                        assert(tq.flushed_outputs@.drop_last() =~= mid.flushed_outputs@);
                        lemma_state_pushed(mid, *tq, out@);
                        lemma_flush_kept(sh, st);
                    }
                }
                *icol = *icol + tq.cols.len();
                assert(own_step(sh, st, ic0, skip, row@) == Ok::<(FoldState, bool), Option<int>>(
                    (state_of(*tq), false),
                ));
            },
        }
    } else {
        *icol = *icol + tq.cols.len() + 1;
    }
    let ghost s = state_of(*tq);
    assert(own_step(sh, st, ic0, skip, row@) == Ok::<(FoldState, bool), Option<int>>((s, sk)));
    assert(shape_of(*tq) == sh);
    assert(filled(sh, s));
    let ghost snap = *tq;
    let mut joins: Vec<Join> = Vec::new();
    std::mem::swap(&mut joins, &mut tq.joins);
    let ghost orig = joins@;
    let ghost n = orig.len() as int;
    let ghost jstart = ic0 + 1 + nk;
    proof {
        lemma_joins_index(orig, n);
        assert(orig.skip(0) == orig);
        assert(sh.joins == join_shapes(orig, n));
        assert(s.joins == join_states(orig, n));
        assert(read_joins(sh, s.joins, jstart, sk, row@, 0) == Ok::<Seq<FoldState>, Option<int>>(
            join_states(joins@, 0),
        ));
    }
    let mut done: Vec<Join> = Vec::new();
    while joins.len() > 0
        invariant
            sh == shape_of(*old(tq)),
            st == state_of(*old(tq)),
            ic0 == *old(icol),
            own_step(sh, st, ic0, skip, row@) == Ok::<(FoldState, bool), Option<int>>((s, sk)),
            jstart == ic0 + 1 + nk,
            nk == sh.keys.len(),
            n == orig.len(),
            sh.joins.len() == n,
            filled(sh, s),
            sh.joins == join_shapes(orig, n),
            s.joins == join_states(orig, n),
            join_shapes(orig, n).len() == n,
            join_states(orig, n).len() == n,
            forall|i: int|
                0 <= i < n ==> #[trigger] join_shapes(orig, n)[i] == (JoinShape {
                    unique: orig[i].unique,
                    name: orig[i].graphql_name@,
                    from_col: orig[i].from_col@,
                    to_col: orig[i].to_col@,
                    table: shape_of(orig[i].to_table),
                }),
            forall|i: int| 0 <= i < n ==> #[trigger] join_states(orig, n)[i] == state_of(orig[i].to_table),
            done@.len() + joins@.len() == n,
            joins@ == orig.skip(done@.len() as int),
            join_shapes(done@, done@.len() as int) == join_shapes(orig, done@.len() as int),
            read_joins(sh, s.joins, jstart, sk, row@, done@.len() as int) == Ok::<
                Seq<FoldState>,
                Option<int>,
            >(join_states(done@, done@.len() as int)),
            forall|i: int|
                0 <= i < done@.len() ==> filled(
                    sh.joins[i].table,
                    #[trigger] join_states(done@, done@.len() as int)[i],
                ),
            *icol == jstart + widths(sh, done@.len() as int),
            ic0 + width(sh) <= usize::MAX,
            width(sh) == 1 + nk + widths(sh, n),
            tq.cols@ == snap.cols@,
            tq.rowid == snap.rowid,
            tq.flushed_outputs@ == snap.flushed_outputs@,
        decreases joins@.len(),
    {
        let ghost k = done@.len() as int;
        let ghost done0 = done@;
        let mut j = joins.remove(0);
        assert(j == orig[k]);
        proof {
            assert(decreases_to!(sh => sh.joins));
            assert(decreases_to!(sh.joins => sh.joins[k]));
            assert(decreases_to!(sh.joins[k] => sh.joins[k].table));
            lemma_filled_upto(sh, s, n, k);
            lemma_widths(sh, k + 1);
            lemma_joins_index(done0, k);
        }
        assert(shape_of(j.to_table) == sh.joins[k].table);
        assert(state_of(j.to_table) == s.joins[k]);
        assert(widths(sh, k + 1) == widths(sh, k) + width(sh.joins[k].table));
        let ghost jt = j.to_table;
        match table_to_json_inner(&mut j.to_table, icol, sk, row) {
            Ok(()) => {},
            Err(e) => {
                proof {
                    lemma_read_joins_err(sh, s.joins, jstart, sk, row@, k + 1, n);
                }
                return Err(e);
            },
        }
        done.push(j);
        proof {
            assert(done@.take(k) =~= done0.take(k));
            lemma_joins_prefix(done@, done0, k);
            assert(done0 =~= done0.take(k));
            assert(orig.skip(k + 1) =~= orig.skip(k).drop_first());
            lemma_joins_index(done@, k + 1);
            assert forall|i: int| 0 <= i < k + 1 implies filled(
                sh.joins[i].table,
                #[trigger] join_states(done@, k + 1)[i],
            ) by {
                if i < k {
                    assert(join_states(done@, k + 1)[i] == join_states(done@, k)[i]);
                }
            }
        }
    }
    tq.joins = done;
    proof {
        lemma_joins_index(done@, n);
        let fin = state_of(*tq);
        assert(fin == FoldState { rowid: s.rowid, values: s.values, flushed: s.flushed, joins: join_states(done@, n) }) by {
            assert(tq.cols@.map_values(|c: Column| opt_str(c.value)) =~= snap.cols@.map_values(
                |c: Column| opt_str(c.value),
            ));
            assert(texts(tq.flushed_outputs@) =~= texts(snap.flushed_outputs@));
        }
        assert(tq.cols@.map_values(|c: Column| col_key(c)) =~= snap.cols@.map_values(
            |c: Column| col_key(c),
        ));
        assert(shape_of(*tq) == sh);
        lemma_filled_upto_from(sh, fin, n);
        lemma_filled_joins(sh, s, FoldState { rowid: s.rowid, values: s.values, flushed: s.flushed, joins: s.joins });
    }
    Ok(())
}

/// The cells of each row.
pub open spec fn row_cells(rows: Seq<Vec<CellValue>>) -> Seq<Seq<CellValue>> {
    rows.map_values(|r: Vec<CellValue>| r@)
}

/// The state after reading the first `k` rows, each from its first cell.
pub open spec fn fold_rows(sh: Shape, st: FoldState, rows: Seq<Seq<CellValue>>, k: int) -> Result<
    FoldState,
    Option<int>,
>
    decreases k,
{
    if k <= 0 {
        Ok(st)
    } else {
        match fold_rows(sh, st, rows, k - 1) {
            Err(e) => Err(e),
            Ok(s) => read_row(sh, s, 0, false, rows[k - 1]),
        }
    }
}

/// The JSON list of the entries of a table query that has read all rows:
/// those written out, then the one it still holds.
pub open spec fn rows_json(sh: Shape, s: FoldState) -> Seq<char> {
    "["@ + joined(flushed_if_held(sh, s).flushed, ","@) + "]"@
}

proof fn lemma_fold_rows_err(sh: Shape, st: FoldState, rows: Seq<Seq<CellValue>>, k: int, m: int)
    requires
        0 <= k <= m,
        fold_rows(sh, st, rows, k) is Err,
    ensures
        fold_rows(sh, st, rows, m) == fold_rows(sh, st, rows, k),
    decreases m - k,
{
    if m > k {
        lemma_fold_rows_err(sh, st, rows, k, m - 1);
    }
}

/// The JSON list of what a table query reads from the rows of its SQL.
pub fn table_to_json(tq: &mut TableQuery, rows: &Vec<Vec<CellValue>>) -> (r: Result<String, RowError>)
    requires
        filled(shape_of(*old(tq)), state_of(*old(tq))),
        width(shape_of(*old(tq))) <= usize::MAX,
    ensures
        match r {
            Ok(text) => fold_rows(
                shape_of(*old(tq)),
                state_of(*old(tq)),
                row_cells(rows@),
                rows@.len() as int,
            ) matches Ok(s) && text@ == rows_json(shape_of(*old(tq)), s),
            Err(e) => fold_rows(
                shape_of(*old(tq)),
                state_of(*old(tq)),
                row_cells(rows@),
                rows@.len() as int,
            ) matches Err(x) && reports(e, x),
        },
{
    let ghost sh = shape_of(*tq);
    let ghost st = state_of(*tq);
    let ghost cells = row_cells(rows@);
    for i in 0..rows.len()
        invariant
            sh == shape_of(*old(tq)),
            st == state_of(*old(tq)),
            cells == row_cells(rows@),
            cells.len() == rows@.len(),
            width(sh) <= usize::MAX,
            shape_of(*tq) == sh,
            filled(sh, state_of(*tq)),
            fold_rows(sh, st, cells, i as int) == Ok::<FoldState, Option<int>>(state_of(*tq)),
    {
        let mut icol: usize = 0;
        assert(cells[i as int] == rows[i as int]@);
        match table_to_json_inner(tq, &mut icol, false, &rows[i]) {
            Ok(()) => {},
            Err(e) => {
                proof {
                    lemma_fold_rows_err(sh, st, cells, i + 1, rows@.len() as int);
                }
                return Err(e);
            },
        }
    }
    if tq.rowid > 0 {
        let ghost before = state_of(*tq);
        let out = flush_table_data(tq);
        let ghost mid = *tq;
        tq.flushed_outputs.push(out);
        proof {
            assert(tq.flushed_outputs@.drop_last() =~= mid.flushed_outputs@);
            lemma_state_pushed(mid, *tq, out@);
        }
    }
    let body = join_strings(&tq.flushed_outputs, ",");
    let mut r = own("[");
    push_str(&mut r, body.as_str());
    push_str(&mut r, "]");
    Ok(r)
}

/// How many cells of a row a table query reads (see `width`); `None` where
/// that is more than a `usize` holds.
pub fn query_width(tq: &TableQuery) -> (r: Option<usize>)
    ensures
        r matches Some(w) ==> w == width(shape_of(*tq)),
        r is None ==> width(shape_of(*tq)) > usize::MAX,
    decreases *tq,
{
    let ghost sh = shape_of(*tq);
    proof {
        lemma_joins_index(tq.joins@, tq.joins@.len() as int);
        lemma_widths(sh, 0);
    }
    let own = tq.cols.len().checked_add(1);
    let mut total: usize = match own {
        Some(t) => t,
        None => return None,
    };
    let n = tq.joins.len();
    let mut k: usize = 0;
    while k < n
        invariant
            sh == shape_of(*tq),
            n == tq.joins@.len(),
            sh.joins.len() == n,
            forall|i: int| 0 <= i < n ==> #[trigger] sh.joins[i].table == shape_of(tq.joins@[i].to_table),
            k <= n,
            total == 1 + sh.keys.len() + widths(sh, k as int),
        decreases n - k,
    {
        proof {
            assert(decreases_to!(*tq => tq.joins));
            assert(decreases_to!(tq.joins => tq.joins@));
            assert(decreases_to!(tq.joins@ => tq.joins@[k as int]));
            assert(decreases_to!(tq.joins@[k as int] => tq.joins@[k as int].to_table));
            lemma_widths(sh, k + 1);
            assert(widths(sh, k + 1) == widths(sh, k as int) + width(sh.joins[k as int].table));
        }
        match query_width(&tq.joins[k].to_table) {
            Some(w) => match total.checked_add(w) {
                Some(t) => {
                    total = t;
                },
                None => {
                    proof {
                        lemma_widths(sh, k + 1);
                    }
                    return None;
                },
            },
            None => {
                proof {
                    lemma_widths(sh, k + 1);
                }
                return None;
            },
        }
        k = k + 1;
    }
    Some(total)
}

/// Whether a table query is `filled`: every table of it that holds an
/// entry has the values of its columns.
pub fn is_filled(tq: &TableQuery) -> (r: bool)
    ensures
        r == filled(shape_of(*tq), state_of(*tq)),
    decreases *tq,
{
    let ghost sh = shape_of(*tq);
    let ghost st = state_of(*tq);
    let n = tq.joins.len();
    proof {
        lemma_joins_index(tq.joins@, n as int);
    }
    if tq.rowid > 0 {
        for i in 0..tq.cols.len()
            invariant
                st == state_of(*tq),
                sh == shape_of(*tq),
                st.rowid > 0,
                forall|j: int| 0 <= j < i ==> (#[trigger] st.values[j]) is Some,
        {
            assert(st.values[i as int] == opt_str(tq.cols@[i as int].value));
            if tq.cols[i].value.is_none() {
                assert(!all_values(st));
                return false;
            }
        }
    }
    let mut k: usize = 0;
    while k < n
        invariant
            sh == shape_of(*tq),
            st == state_of(*tq),
            n == tq.joins@.len(),
            sh.joins.len() == n,
            st.joins.len() == n,
            forall|i: int| 0 <= i < n ==> #[trigger] sh.joins[i].table == shape_of(tq.joins@[i].to_table),
            forall|i: int| 0 <= i < n ==> #[trigger] st.joins[i] == state_of(tq.joins@[i].to_table),
            k <= n,
            filled_upto(sh, st, k as int),
        decreases n - k,
    {
        proof {
            assert(decreases_to!(*tq => tq.joins));
            assert(decreases_to!(tq.joins => tq.joins@));
            assert(decreases_to!(tq.joins@ => tq.joins@[k as int]));
            assert(decreases_to!(tq.joins@[k as int] => tq.joins@[k as int].to_table));
        }
        if !is_filled(&tq.joins[k].to_table) {
            proof {
                if filled_upto(sh, st, n as int) {
                    lemma_filled_upto(sh, st, n as int, k as int);
                }
            }
            return false;
        }
        k = k + 1;
    }
    true
}

} // verus!
