//! # Filling the indices table by table
//!
//! Each function here runs over the rows of one table and records, in row
//! order, the facts that each row contributes.

use vstd::prelude::*;
use std::collections::{BTreeMap, HashMap};
use crate::latin1::decode;
use crate::strmap::StrMap;
use super::index::{
    Fact, ListRecord, SetRecord, hindex_push, index_add, index_push, list_index, no_scalars,
    set_index, str_index_add,
};
use super::rows::{Feeds, Gated, gate_facts, table_facts};

verus! {

broadcast use vstd::seq_lib::group_seq_properties;

/// The facts of the first `i + 1` rows are those of the first `i`, then
/// those of row `i`.
pub proof fn lemma_table_facts_take<F, T: Feeds<F>>(rows: Seq<T>, i: int)
    requires
        0 <= i < rows.len(),
    ensures
        table_facts(rows.take(i + 1)) == table_facts(rows.take(i)) + rows[i].fed(),
{
    let f = |r: T| r.fed();
    assert(rows.take(i + 1).map_values(f) =~= rows.take(i).map_values(f).push(f(rows[i])));
    rows.take(i).map_values(f).lemma_flatten_push(f(rows[i]));
}

/// Records the facts of every row of a table in a set index.
pub fn add_table<R: SetRecord, T: Feeds<R::Field>>(
    m: &mut BTreeMap<i32, R>,
    Ghost(facts): Ghost<Seq<Fact<i32, R::Field>>>,
    rows: &[T],
)
    requires
        set_index(old(m)@, facts),
    ensures
        set_index(final(m)@, facts + table_facts(rows@)),
        no_scalars(old(m)@) ==> no_scalars(final(m)@),
{
    let ghost mut cur = facts;
    let ghost scalars_none = no_scalars(m@);
    for i in 0..rows.len()
        invariant
            set_index(m@, cur),
            cur == facts + table_facts(rows@.take(i as int)),
            scalars_none ==> no_scalars(m@),
    {
        let fs = rows[i].feed();
        let ghost before = cur;
        for j in 0..fs.len()
            invariant
                set_index(m@, cur),
                cur == before + fs@.take(j as int),
                scalars_none ==> no_scalars(m@),
        {
            let e = &fs[j];
            index_add(m, Ghost(cur), e.key, e.field, e.value);
            proof {
                cur = cur.push(*e);
                assert(fs@.take(j + 1) =~= fs@.take(j as int).push(fs@[j as int]));
            }
        }
        proof {
            lemma_table_facts_take(rows@, i as int);
            assert(fs@.take(fs@.len() as int) =~= fs@);
            assert(cur =~= facts + table_facts(rows@.take(i + 1)));
        }
    }
    assert(rows@.take(rows@.len() as int) =~= rows@);
}

/// Records the facts of every row of a table in a list index.
pub fn push_table<R: ListRecord, T: Feeds<R::Field>>(
    m: &mut BTreeMap<i32, R>,
    Ghost(facts): Ghost<Seq<Fact<i32, R::Field>>>,
    rows: &[T],
)
    requires
        list_index(old(m)@, facts),
    ensures
        list_index(final(m)@, facts + table_facts(rows@)),
{
    let ghost mut cur = facts;
    for i in 0..rows.len()
        invariant
            list_index(m@, cur),
            cur == facts + table_facts(rows@.take(i as int)),
    {
        let fs = rows[i].feed();
        let ghost before = cur;
        for j in 0..fs.len()
            invariant
                list_index(m@, cur),
                cur == before + fs@.take(j as int),
        {
            let e = &fs[j];
            index_push(m, Ghost(cur), e.key, e.field, e.value);
            proof {
                cur = cur.push(*e);
                assert(fs@.take(j + 1) =~= fs@.take(j as int).push(fs@[j as int]));
            }
        }
        proof {
            lemma_table_facts_take(rows@, i as int);
            assert(fs@.take(fs@.len() as int) =~= fs@);
            assert(cur =~= facts + table_facts(rows@.take(i + 1)));
        }
    }
    assert(rows@.take(rows@.len() as int) =~= rows@);
}

/// Records the facts of every row of a table in a list index kept in a
/// hash map.
pub fn hpush_table<R: ListRecord, T: Feeds<R::Field>>(
    m: &mut HashMap<i32, R>,
    Ghost(facts): Ghost<Seq<Fact<i32, R::Field>>>,
    rows: &[T],
)
    requires
        list_index(old(m)@, facts),
    ensures
        list_index(final(m)@, facts + table_facts(rows@)),
{
    let ghost mut cur = facts;
    for i in 0..rows.len()
        invariant
            list_index(m@, cur),
            cur == facts + table_facts(rows@.take(i as int)),
    {
        let fs = rows[i].feed();
        let ghost before = cur;
        for j in 0..fs.len()
            invariant
                list_index(m@, cur),
                cur == before + fs@.take(j as int),
        {
            let e = &fs[j];
            hindex_push(m, Ghost(cur), e.key, e.field, e.value);
            proof {
                cur = cur.push(*e);
                assert(fs@.take(j + 1) =~= fs@.take(j as int).push(fs@[j as int]));
            }
        }
        proof {
            lemma_table_facts_take(rows@, i as int);
            assert(fs@.take(fs@.len() as int) =~= fs@);
            assert(cur =~= facts + table_facts(rows@.take(i + 1)));
        }
    }
    assert(rows@.take(rows@.len() as int) =~= rows@);
}

/// Records, for every gated row of a table, its id under `field` of its
/// gate.
pub fn add_gates<R: SetRecord, T: Gated>(
    m: &mut StrMap<R>,
    Ghost(facts): Ghost<Seq<Fact<Seq<char>, R::Field>>>,
    rows: &[T],
    field: R::Field,
)
    requires
        set_index(old(m).view(), facts),
    ensures
        set_index(final(m).view(), facts + gate_facts(rows@, field)),
        no_scalars(old(m).view()) ==> no_scalars(final(m).view()),
{
    let ghost mut cur = facts;
    let ghost scalars_none = no_scalars(m.view());
    let ghost g = |r: T|
        match r.gate_spec() {
            Some(b) => Some(Fact { key: crate::latin1::latin1_decoded(b), field, value: r.gated_id() }),
            None => None,
        };
    for i in 0..rows.len()
        invariant
            set_index(m.view(), cur),
            cur == facts + rows@.take(i as int).filter_map(g),
            g == (|r: T|
                match r.gate_spec() {
                    Some(b) => Some(
                        Fact { key: crate::latin1::latin1_decoded(b), field, value: r.gated_id() },
                    ),
                    None => None,
                }),
            scalars_none ==> no_scalars(m.view()),
    {
        proof {
            rows@.lemma_filter_map_take_succ(g, i as int);
        }
        match rows[i].gate() {
            Some(b) => {
                let name = decode(b.as_slice());
                let id = rows[i].gate_id();
                let ghost e = Fact { key: name@, field, value: id };
                str_index_add(m, Ghost(cur), name, field, id);
                proof {
                    cur = cur.push(e);
                    assert(cur =~= facts + rows@.take(i + 1).filter_map(g));
                }
            },
            None => {
                assert(cur =~= facts + rows@.take(i + 1).filter_map(g));
            },
        }
    }
    assert(rows@.take(rows@.len() as int) =~= rows@);
}

} // verus!
