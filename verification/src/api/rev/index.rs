//! # Index building blocks
//!
//! The reverse lookup is a set of indices, each filled by a stream of
//! *facts*: "value `v` belongs under field `f` of the entry at key `k`".
//! An index built from a stream of facts holds, for each key that some fact
//! names, exactly the values that the facts name for it: as a set where the
//! record keeps a `BTreeSet`, as a list in fact order where it keeps a
//! `Vec`, and the last value where it overwrites.

use vstd::prelude::*;
use std::collections::{BTreeMap, HashMap};
use crate::strmap::StrMap;

verus! {

broadcast use vstd::seq_lib::group_seq_properties;

/// One fact: `value` belongs under `field` of the entry at `key`.
pub struct Fact<K, F> {
    pub key: K,
    pub field: F,
    pub value: i32,
}

/// The keys that some fact names.
pub open spec fn fact_keys<K, F>(facts: Seq<Fact<K, F>>) -> Set<K> {
    Set::new(|k: K| exists|i: int| 0 <= i < facts.len() && #[trigger] facts[i].key == k)
}

/// The fields that some fact names for `key`.
pub open spec fn fact_fields<K, F>(facts: Seq<Fact<K, F>>, key: K) -> Set<F> {
    Set::new(
        |f: F|
            exists|i: int| 0 <= i < facts.len() && #[trigger] facts[i].key == key && facts[i].field == f,
    )
}

/// The values that the facts put under `field` of `key`.
pub open spec fn fact_set<K, F>(facts: Seq<Fact<K, F>>, key: K, field: F) -> Set<i32> {
    Set::new(|v: i32| facts.contains(Fact { key, field, value: v }))
}

/// Whether a fact is about `field` of `key`.
pub open spec fn about<K, F>(key: K, field: F) -> spec_fn(Fact<K, F>) -> bool {
    |e: Fact<K, F>| e.key == key && e.field == field
}

/// The values that the facts put under `field` of `key`, in fact order,
/// repeats kept.
pub open spec fn fact_list<K, F>(facts: Seq<Fact<K, F>>, key: K, field: F) -> Seq<i32> {
    facts.filter(about(key, field)).map_values(|e: Fact<K, F>| e.value)
}

/// One more fact names one more key (or none new).
pub proof fn lemma_fact_keys_push<K, F>(facts: Seq<Fact<K, F>>, e: Fact<K, F>)
    ensures
        fact_keys(facts.push(e)) == fact_keys(facts).insert(e.key),
{
    let p = facts.push(e);
    assert forall|k: K| #[trigger] fact_keys(p).contains(k) == fact_keys(facts).insert(e.key).contains(k) by {
        if fact_keys(facts).contains(k) {
            let i = choose|i: int| 0 <= i < facts.len() && #[trigger] facts[i].key == k;
            assert(p[i] == facts[i]);
        }
        if k == e.key {
            assert(p[facts.len() as int] == e);
        }
        if fact_keys(p).contains(k) {
            let i = choose|i: int| 0 <= i < p.len() && #[trigger] p[i].key == k;
            if i < facts.len() {
                assert(facts[i] == p[i]);
            }
        }
    }
    assert(fact_keys(p) =~= fact_keys(facts).insert(e.key));
}

proof fn lemma_fact_set_push<K, F>(facts: Seq<Fact<K, F>>, e: Fact<K, F>, key: K, field: F)
    ensures
        fact_set(facts.push(e), key, field) == (if e.key == key && e.field == field {
            fact_set(facts, key, field).insert(e.value)
        } else {
            fact_set(facts, key, field)
        }),
{
    let p = facts.push(e);
    let want = if e.key == key && e.field == field {
        fact_set(facts, key, field).insert(e.value)
    } else {
        fact_set(facts, key, field)
    };
    assert forall|v: i32| #[trigger] fact_set(p, key, field).contains(v) == want.contains(v) by {
        let x = Fact { key, field, value: v };
        assert(p.contains(x) == (facts.contains(x) || x == e));
    }
    assert(fact_set(p, key, field) =~= want);
}

proof fn lemma_fact_list_push<K, F>(facts: Seq<Fact<K, F>>, e: Fact<K, F>, key: K, field: F)
    ensures
        fact_list(facts.push(e), key, field) == (if e.key == key && e.field == field {
            fact_list(facts, key, field).push(e.value)
        } else {
            fact_list(facts, key, field)
        }),
{
    facts.lemma_filter_push(e, about(key, field));
    let g = |x: Fact<K, F>| x.value;
    if e.key == key && e.field == field {
        facts.filter(about(key, field)).lemma_push_map_commute(g, e);
        assert(facts.filter(about(key, field)).push(e).map_values(g) =~= facts.filter(
            about(key, field),
        ).map_values(g).push(e.value));
    }
}

/// A key that no fact names has nothing under any field.
pub proof fn lemma_absent_key<K, F>(facts: Seq<Fact<K, F>>, key: K, field: F)
    requires
        !fact_keys(facts).contains(key),
    ensures
        fact_set(facts, key, field) == Set::<i32>::empty(),
        fact_list(facts, key, field) == Seq::<i32>::empty(),
        fact_fields(facts, key) == Set::<F>::empty(),
{
    assert forall|v: i32| !#[trigger] fact_set(facts, key, field).contains(v) by {
        let x = Fact { key, field, value: v };
        if facts.contains(x) {
            let i = choose|i: int| 0 <= i < facts.len() && facts[i] == x;
            assert(facts[i].key == key);
        }
    }
    assert(fact_set(facts, key, field) =~= Set::<i32>::empty());
    let fl = facts.filter(about(key, field));
    if fl.len() > 0 {
        facts.lemma_filter_pred(about(key, field), 0);
        assert(fl.contains(fl[0]));
        facts.lemma_filter_contains_rev(about(key, field), fl[0]);
        let i = choose|i: int| 0 <= i < facts.len() && facts[i] == fl[0];
        assert(facts[i].key == key);
    }
    assert(fact_list(facts, key, field) =~= Seq::<i32>::empty());
    assert forall|f: F| !#[trigger] fact_fields(facts, key).contains(f) by {
        if fact_fields(facts, key).contains(f) {
            let i = choose|i: int| 0 <= i < facts.len() && #[trigger] facts[i].key == key && facts[i].field == f;
        }
    }
    assert(fact_fields(facts, key) =~= Set::<F>::empty());
}

/// No fact at all: every index built from it is empty.
pub proof fn lemma_no_facts<K, F>(key: K, field: F)
    ensures
        fact_keys(Seq::<Fact<K, F>>::empty()) == Set::<K>::empty(),
        fact_fields(Seq::<Fact<K, F>>::empty(), key) == Set::<F>::empty(),
        fact_set(Seq::<Fact<K, F>>::empty(), key, field) == Set::<i32>::empty(),
        fact_list(Seq::<Fact<K, F>>::empty(), key, field) == Seq::<i32>::empty(),
{
    assert(fact_keys(Seq::<Fact<K, F>>::empty()) =~= Set::<K>::empty());
    assert(fact_fields(Seq::<Fact<K, F>>::empty(), key) =~= Set::<F>::empty());
    assert(fact_set(Seq::<Fact<K, F>>::empty(), key, field) =~= Set::<i32>::empty());
    assert(Seq::<Fact<K, F>>::empty().filter(about(key, field)) =~= Seq::<Fact<K, F>>::empty());
    assert(fact_list(Seq::<Fact<K, F>>::empty(), key, field) =~= Seq::<i32>::empty());
}

/// A record that holds one set of ids per field, and possibly one scalar
/// besides.
pub trait SetRecord: Sized {
    /// Names the sets of the record.
    type Field: Copy;

    /// The ids in the set `f`.
    spec fn set_of(&self, f: Self::Field) -> Set<i32>;

    /// The record's scalar slot, where it has one.
    spec fn scalar(&self) -> Option<i32>;

    /// A record whose sets are all empty.
    fn blank() -> (r: Self)
        ensures
            forall|f: Self::Field| #[trigger] r.set_of(f) == Set::<i32>::empty(),
            r.scalar() is None,
    ;

    /// Adds `v` to the set `f`.
    fn add(&mut self, f: Self::Field, v: i32)
        ensures
            forall|g: Self::Field|
                #[trigger] final(self).set_of(g) == (if g == f {
                    old(self).set_of(g).insert(v)
                } else {
                    old(self).set_of(g)
                }),
            final(self).scalar() == old(self).scalar(),
    ;
}

/// The map holds exactly what the facts say.
pub open spec fn set_index<K, R: SetRecord>(m: Map<K, R>, facts: Seq<Fact<K, R::Field>>) -> bool {
    &&& m.dom() == fact_keys(facts)
    &&& forall|k: K, f: R::Field|
        #[trigger] m.contains_key(k) ==> #[trigger] m[k].set_of(f) == fact_set(facts, k, f)
}

/// No record of the map has its scalar set.
pub open spec fn no_scalars<K, R: SetRecord>(m: Map<K, R>) -> bool {
    forall|k: K| #[trigger] m.contains_key(k) ==> m[k].scalar() is None
}

/// Records one fact in an index keyed by integers.
pub fn index_add<R: SetRecord>(
    m: &mut BTreeMap<i32, R>,
    Ghost(facts): Ghost<Seq<Fact<i32, R::Field>>>,
    key: i32,
    field: R::Field,
    value: i32,
)
    requires
        set_index(old(m)@, facts),
    ensures
        set_index(final(m)@, facts.push(Fact { key, field, value })),
        no_scalars(old(m)@) ==> no_scalars(final(m)@),
{
    let ghost e = Fact { key, field, value };
    let ghost m0 = m@;
    let mut r = match m.remove(&key) {
        Some(r) => r,
        None => R::blank(),
    };
    r.add(field, value);
    m.insert(key, r);
    proof {
        lemma_fact_keys_push(facts, e);
        assert(m@.dom() =~= fact_keys(facts.push(e)));
        assert forall|k: i32, f: R::Field| #[trigger] m@.contains_key(k) implies #[trigger] m@[k].set_of(f)
            == fact_set(facts.push(e), k, f) by {
            lemma_fact_set_push(facts, e, k, f);
            if k == key && !m0.contains_key(key) {
                lemma_absent_key(facts, key, f);
            }
        }
    }
}

/// Records one fact in an index keyed by strings.
pub fn str_index_add<R: SetRecord>(
    m: &mut StrMap<R>,
    Ghost(facts): Ghost<Seq<Fact<Seq<char>, R::Field>>>,
    key: String,
    field: R::Field,
    value: i32,
)
    requires
        set_index(old(m).view(), facts),
    ensures
        set_index(final(m).view(), facts.push(Fact { key: key@, field, value })),
        no_scalars(old(m).view()) ==> no_scalars(final(m).view()),
{
    let ghost e = Fact { key: key@, field, value };
    let ghost m0 = m.view();
    let mut r = match m.take(key.as_str()) {
        Some(r) => r,
        None => R::blank(),
    };
    r.add(field, value);
    m.put(key, r);
    proof {
        lemma_fact_keys_push(facts, e);
        assert(m.view().dom() =~= fact_keys(facts.push(e)));
        assert forall|k: Seq<char>, f: R::Field| #[trigger] m.view().contains_key(k) implies #[trigger] m.view()[k].set_of(
            f,
        ) == fact_set(facts.push(e), k, f) by {
            lemma_fact_set_push(facts, e, k, f);
            if k == key@ && !m0.contains_key(key@) {
                lemma_absent_key(facts, key@, f);
            }
        }
    }
}

/// A record that holds one list of ids per field.
pub trait ListRecord: Sized {
    /// Names the lists of the record.
    type Field: Copy;

    /// The ids in the list `f`, in order.
    spec fn list_of(&self, f: Self::Field) -> Seq<i32>;

    /// A record whose lists are all empty.
    fn blank() -> (r: Self)
        ensures
            forall|f: Self::Field| #[trigger] r.list_of(f) == Seq::<i32>::empty(),
    ;

    /// Appends `v` to the list `f`.
    fn push(&mut self, f: Self::Field, v: i32)
        ensures
            forall|g: Self::Field|
                #[trigger] final(self).list_of(g) == (if g == f {
                    old(self).list_of(g).push(v)
                } else {
                    old(self).list_of(g)
                }),
    ;
}

/// The map holds exactly what the facts say, in fact order.
pub open spec fn list_index<K, R: ListRecord>(m: Map<K, R>, facts: Seq<Fact<K, R::Field>>) -> bool {
    &&& m.dom() == fact_keys(facts)
    &&& forall|k: K, f: R::Field|
        #[trigger] m.contains_key(k) ==> #[trigger] m[k].list_of(f) == fact_list(facts, k, f)
}

/// The field of a record that holds a single set or list.
#[derive(Clone, Copy, Debug)]
pub enum OneField {
    Ids,
}

/// A plain list is a record with a single list.
impl ListRecord for Vec<i32> {
    type Field = OneField;

    open spec fn list_of(&self, f: OneField) -> Seq<i32> {
        self@
    }

    fn blank() -> (r: Self) {
        Vec::new()
    }

    fn push(&mut self, f: OneField, v: i32) {
        Vec::push(self, v);
    }
}

/// Records one fact in a list index keyed by integers.
pub fn index_push<R: ListRecord>(
    m: &mut BTreeMap<i32, R>,
    Ghost(facts): Ghost<Seq<Fact<i32, R::Field>>>,
    key: i32,
    field: R::Field,
    value: i32,
)
    requires
        list_index(old(m)@, facts),
    ensures
        list_index(final(m)@, facts.push(Fact { key, field, value })),
{
    let ghost e = Fact { key, field, value };
    let ghost m0 = m@;
    let mut r = match m.remove(&key) {
        Some(r) => r,
        None => R::blank(),
    };
    r.push(field, value);
    m.insert(key, r);
    proof {
        lemma_fact_keys_push(facts, e);
        assert(m@.dom() =~= fact_keys(facts.push(e)));
        assert forall|k: i32, f: R::Field| #[trigger] m@.contains_key(k) implies #[trigger] m@[k].list_of(f)
            == fact_list(facts.push(e), k, f) by {
            lemma_fact_list_push(facts, e, k, f);
            if k == key && !m0.contains_key(key) {
                lemma_absent_key(facts, key, f);
            }
        }
    }
}

/// Records one fact in a list index kept in a hash map.
pub fn hindex_push<R: ListRecord>(
    m: &mut HashMap<i32, R>,
    Ghost(facts): Ghost<Seq<Fact<i32, R::Field>>>,
    key: i32,
    field: R::Field,
    value: i32,
)
    requires
        list_index(old(m)@, facts),
    ensures
        list_index(final(m)@, facts.push(Fact { key, field, value })),
{
    let ghost e = Fact { key, field, value };
    let ghost m0 = m@;
    let mut r = match m.remove(&key) {
        Some(r) => r,
        None => R::blank(),
    };
    r.push(field, value);
    m.insert(key, r);
    proof {
        lemma_fact_keys_push(facts, e);
        assert(m@.dom() =~= fact_keys(facts.push(e)));
        assert forall|k: i32, f: R::Field| #[trigger] m@.contains_key(k) implies #[trigger] m@[k].list_of(f)
            == fact_list(facts.push(e), k, f) by {
            lemma_fact_list_push(facts, e, k, f);
            if k == key && !m0.contains_key(key) {
                lemma_absent_key(facts, key, f);
            }
        }
    }
}

/// Records one fact in a list index keyed by strings.
pub fn str_index_push<R: ListRecord>(
    m: &mut StrMap<R>,
    Ghost(facts): Ghost<Seq<Fact<Seq<char>, R::Field>>>,
    key: String,
    field: R::Field,
    value: i32,
)
    requires
        list_index(old(m).view(), facts),
    ensures
        list_index(final(m).view(), facts.push(Fact { key: key@, field, value })),
{
    let ghost e = Fact { key: key@, field, value };
    let ghost m0 = m.view();
    let mut r = match m.take(key.as_str()) {
        Some(r) => r,
        None => R::blank(),
    };
    r.push(field, value);
    m.put(key, r);
    proof {
        lemma_fact_keys_push(facts, e);
        assert(m.view().dom() =~= fact_keys(facts.push(e)));
        assert forall|k: Seq<char>, f: R::Field| #[trigger] m.view().contains_key(k) implies #[trigger] m.view()[k].list_of(
            f,
        ) == fact_list(facts.push(e), k, f) by {
            lemma_fact_list_push(facts, e, k, f);
            if k == key@ && !m0.contains_key(key@) {
                lemma_absent_key(facts, key@, f);
            }
        }
    }
}

/// The facts about `key`, keyed by their field instead.
pub open spec fn nested<K, F>(facts: Seq<Fact<K, F>>, key: K) -> Seq<Fact<F, OneField>> {
    facts.filter(|e: Fact<K, F>| e.key == key).map_values(
        |e: Fact<K, F>| Fact { key: e.field, field: OneField::Ids, value: e.value },
    )
}

/// One more fact adds to the facts about its own key only.
pub proof fn lemma_nested_push<K, F>(facts: Seq<Fact<K, F>>, e: Fact<K, F>, key: K)
    ensures
        nested(facts.push(e), key) == (if e.key == key {
            nested(facts, key).push(Fact { key: e.field, field: OneField::Ids, value: e.value })
        } else {
            nested(facts, key)
        }),
{
    let p = |x: Fact<K, F>| x.key == key;
    let g = |x: Fact<K, F>| Fact { key: x.field, field: OneField::Ids, value: x.value };
    facts.lemma_filter_push(e, p);
    if e.key == key {
        facts.filter(p).lemma_push_map_commute(g, e);
        assert(facts.filter(p).push(e).map_values(g) =~= facts.filter(p).map_values(g).push(g(e)));
    }
}

/// A key that no fact names has no facts about it.
pub proof fn lemma_nested_absent<K, F>(facts: Seq<Fact<K, F>>, key: K)
    requires
        !fact_keys(facts).contains(key),
    ensures
        nested(facts, key) == Seq::<Fact<F, OneField>>::empty(),
{
    let p = |x: Fact<K, F>| x.key == key;
    let fl = facts.filter(p);
    if fl.len() > 0 {
        facts.lemma_filter_pred(p, 0);
        assert(fl.contains(fl[0]));
        facts.lemma_filter_contains_rev(p, fl[0]);
        let i = choose|i: int| 0 <= i < facts.len() && facts[i] == fl[0];
        assert(facts[i].key == key);
    }
    assert(nested(facts, key) =~= Seq::<Fact<F, OneField>>::empty());
}

/// The map holds, for each key, the last value that the pairs give it.
pub open spec fn last_values<K, V>(pairs: Seq<(K, V)>) -> Map<K, V>
    decreases pairs.len(),
{
    if pairs.len() == 0 {
        Map::empty()
    } else {
        last_values(pairs.drop_last()).insert(pairs.last().0, pairs.last().1)
    }
}

/// One more pair overwrites its key.
pub proof fn lemma_last_values_push<K, V>(pairs: Seq<(K, V)>, p: (K, V))
    ensures
        last_values(pairs.push(p)) == last_values(pairs).insert(p.0, p.1),
{
    assert(pairs.push(p).drop_last() =~= pairs);
}

/// A key has an entry exactly where some pair names it, and the entry is
/// the value of the last such pair.
pub proof fn lemma_last_values<K, V>(pairs: Seq<(K, V)>, k: K)
    ensures
        last_values(pairs).contains_key(k) <==> exists|i: int|
            0 <= i < pairs.len() && #[trigger] pairs[i].0 == k,
        last_values(pairs).contains_key(k) ==> exists|i: int|
            0 <= i < pairs.len() && #[trigger] pairs[i].0 == k && last_values(pairs)[k] == pairs[i].1
                && forall|j: int| i < j < pairs.len() ==> #[trigger] pairs[j].0 != k,
    decreases pairs.len(),
{
    if pairs.len() > 0 {
        let d = pairs.drop_last();
        lemma_last_values(d, k);
        let n = pairs.len() - 1;
        if pairs.last().0 == k {
            assert(pairs[n].0 == k);
        } else {
            if last_values(d).contains_key(k) {
                let i = choose|i: int|
                    0 <= i < d.len() && #[trigger] d[i].0 == k && last_values(d)[k] == d[i].1
                        && forall|j: int| i < j < d.len() ==> #[trigger] d[j].0 != k;
                assert(pairs[i] == d[i]);
                assert forall|j: int| i < j < pairs.len() implies #[trigger] pairs[j].0 != k by {
                    if j < n {
                        assert(pairs[j] == d[j]);
                    }
                }
            }
            if exists|i: int| 0 <= i < pairs.len() && #[trigger] pairs[i].0 == k {
                let i = choose|i: int| 0 <= i < pairs.len() && #[trigger] pairs[i].0 == k;
                assert(d[i] == pairs[i]);
            }
        }
    }
}

} // verus!
