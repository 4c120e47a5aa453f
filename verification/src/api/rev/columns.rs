//! # What the indices say of the rows' columns
//!
//! The reverse lookup is built from facts that each row contributes. The
//! laws here state, over the columns of the rows themselves, where a row
//! ends up in the indices that are answered by `rev/objects`,
//! `rev/missions`, `rev/factions`, `rev/skills` and `rev/loot_table_index`.

use vstd::prelude::*;
use super::data::{
    ReverseLookup, activity_facts, behavior_facts, component_facts, currency_pairs, mission_type_facts,
    gate_version_facts, object_texts, object_type_facts, search_pairs, task_pairs, cooldown_facts, faction_facts, lemma_table_facts_contains, loot_facts, mission_facts, nested_pairs,
    object_facts, skill_facts,
};
use super::facts::faction_list_value;
use super::fill::lemma_table_facts_take;
use super::index::{
    Fact, ListRecord, OneField, SetRecord, fact_keys, fact_list, fact_set, last_values, lemma_last_values,
    lemma_nested_push, about,
    nested, set_index,
};
use super::records::{GateField, BehaviorField, FactionField, MissionField, ObjectField, SkillField};
use super::facts::is_reward_item;
use super::rows::{
    BehaviorParameterRow, CollectibleComponentRow, ComponentsRegistryRow, DeletionRestrictionRow, DestructibleComponentRow, Feeds, InventoryComponentRow,
    ItemComponentRow, ItemSetRow, ItemSetSkillRow, JetPackPadComponentRow, LootTableRow, MissionRow,
    MissionTaskRow, NpcIconRow, ObjectSkillRow, RebuildComponentRow, RebuildSectionRow, RevTables,
    RewardCodeRow, SkillRow, Gated, GatedRow, gate_facts, keyed,
    opt_bytes, opt_id_list, opt_keys, table_facts,
};
use crate::latin1::latin1_decoded;
use crate::lists::{spec_id_list, spec_plain_id_list, spec_prereq_ids};

verus! {

broadcast use vstd::seq_lib::group_seq_properties, vstd::seq_lib::lemma_seq_concat_contains_all_elements;

/// A fact of one row is a fact of its table.
proof fn lemma_row_fact<F, T: Feeds<F>>(rows: Seq<T>, i: int, x: Fact<i32, F>)
    requires
        0 <= i < rows.len(),
        rows[i].fed().contains(x),
    ensures
        table_facts::<F, T>(rows).contains(x),
{
    lemma_table_facts_contains::<F, T>(rows, x);
}

/// A table has a fact exactly where one of its rows has the property that
/// gives that fact.
proof fn lemma_table_has<F, T: Feeds<F>>(rows: Seq<T>, x: Fact<i32, F>, p: spec_fn(T) -> bool)
    requires
        forall|i: int| 0 <= i < rows.len() ==> (#[trigger] rows[i]).fed().contains(x) == p(rows[i]),
    ensures
        table_facts::<F, T>(rows).contains(x) <==> exists|i: int| 0 <= i < rows.len() && p(#[trigger] rows[i]),
{
    lemma_table_facts_contains::<F, T>(rows, x);
    if exists|i: int| 0 <= i < rows.len() && p(#[trigger] rows[i]) {
        let i = choose|i: int| 0 <= i < rows.len() && p(#[trigger] rows[i]);
        assert(rows[i].fed().contains(x));
    }
}

/// The facts of one key under one field.
proof fn lemma_keyed_contains<F>(keys: Seq<i32>, field: F, value: i32, x: Fact<i32, F>)
    ensures
        keyed(keys, field, value).contains(x) <==> (x.field == field && x.value == value && keys.contains(x.key)),
{
    let s = keyed(keys, field, value);
    if s.contains(x) {
        let j = choose|j: int| 0 <= j < s.len() && s[j] == x;
        assert(keys[j] == x.key);
    }
    if x.field == field && x.value == value && keys.contains(x.key) {
        let j = choose|j: int| 0 <= j < keys.len() && keys[j] == x.key;
        assert(s[j] == x);
    }
}

/// A set index holds a fact exactly where its facts have it.
proof fn lemma_set_holds<K, R: SetRecord>(m: Map<K, R>, f: Seq<Fact<K, R::Field>>, x: Fact<K, R::Field>)
    requires
        set_index(m, f),
    ensures
        (m.contains_key(x.key) && m[x.key].set_of(x.field).contains(x.value)) <==> f.contains(x),
{
    if f.contains(x) {
        let j = choose|j: int| 0 <= j < f.len() && f[j] == x;
        assert(fact_keys(f).contains(x.key));
        assert(fact_set(f, x.key, x.field).contains(x.value));
    }
    if m.contains_key(x.key) {
        assert(m[x.key].set_of(x.field) == fact_set(f, x.key, x.field));
    }
}

/// A list of an index holds a value exactly where a fact gives it.
proof fn lemma_fact_list_contains<K, F>(f: Seq<Fact<K, F>>, k: K, g: F, v: i32)
    ensures
        fact_list(f, k, g).contains(v) <==> f.contains(Fact { key: k, field: g, value: v }),
{
    let x = Fact { key: k, field: g, value: v };
    let p = about(k, g);
    let fl = f.filter(p);
    let val = |e: Fact<K, F>| e.value;
    if fact_list(f, k, g).contains(v) {
        let j = choose|j: int| 0 <= j < fl.map_values(val).len() && fl.map_values(val)[j] == v;
        f.lemma_filter_pred(p, j);
        assert(fl[j] == x);
        assert(fl.contains(x));
        f.lemma_filter_contains_rev(p, x);
    }
    if f.contains(x) {
        let i = choose|i: int| 0 <= i < f.len() && f[i] == x;
        f.lemma_filter_contains(p, i);
        let j = choose|j: int| 0 <= j < fl.len() && fl[j] == x;
        assert(fl.map_values(val)[j] == v);
    }
}

/// Whether a loot table row belongs to index `k`.
pub open spec fn in_loot_index(k: i32) -> spec_fn(LootTableRow) -> bool {
    |r: LootTableRow| r.loot_table_index == k
}

/// The id of a loot table row and the item it drops.
pub open spec fn row_item() -> spec_fn(LootTableRow) -> (i32, i32) {
    |r: LootTableRow| (r.id, r.itemid)
}

/// The rows of loot table index `k`, in row order, each as its id and the
/// item it drops.
pub open spec fn loot_rows(rows: Seq<LootTableRow>, k: i32) -> Seq<(i32, i32)> {
    rows.filter(in_loot_index(k)).map_values(row_item())
}

proof fn lemma_loot_pairs(rows: Seq<LootTableRow>, k: i32)
    ensures
        nested_pairs(table_facts::<i32, LootTableRow>(rows), k) == loot_rows(rows, k),
    decreases rows.len(),
{
    let pair = |e: Fact<i32, OneField>| (e.key, e.value);
    if rows.len() == 0 {
        let f = |r: LootTableRow| r.fed();
        assert(rows.map_values(f) =~= Seq::<Seq<Fact<i32, i32>>>::empty());
        assert(table_facts::<i32, LootTableRow>(rows) =~= Seq::<Fact<i32, i32>>::empty());
        assert(Seq::<Fact<i32, i32>>::empty().filter(|e: Fact<i32, i32>| e.key == k) =~= Seq::<
            Fact<i32, i32>,
        >::empty());
        assert(rows.filter(in_loot_index(k)) =~= Seq::<LootTableRow>::empty());
        assert(nested_pairs(table_facts::<i32, LootTableRow>(rows), k) =~= loot_rows(rows, k));
    } else {
        let n = rows.len() - 1;
        let init = rows.drop_last();
        let r = rows[n];
        lemma_loot_pairs(init, k);
        lemma_table_facts_take::<i32, LootTableRow>(rows, n);
        assert(rows.take(n + 1) =~= rows);
        assert(rows.take(n) =~= init);
        let e = Fact { key: r.loot_table_index, field: r.id, value: r.itemid };
        assert(r.fed() =~= seq![e]);
        let cur = table_facts::<i32, LootTableRow>(init);
        assert(table_facts::<i32, LootTableRow>(rows) =~= cur.push(e));
        lemma_nested_push(cur, e, k);
        assert(rows =~= init.push(r));
        init.lemma_filter_push(r, in_loot_index(k));
        if r.loot_table_index == k {
            let ne = Fact { key: e.field, field: OneField::Ids, value: e.value };
            assert(nested(cur, k).push(ne).map_values(pair) =~= nested_pairs(cur, k).push((r.id, r.itemid)));
            assert(init.filter(in_loot_index(k)).push(r).map_values(row_item()) =~= init.filter(
                in_loot_index(k),
            ).map_values(row_item()).push((r.id, r.itemid)));
        }
    }
}

impl ReverseLookup {
    /// Every inventory component is listed under the item it holds: for
    /// each `InventoryComponent` row, the object entry of its `itemid` has
    /// the row's `id` among its inventory components.
    pub proof fn lemma_inventory_holders(&self, t: RevTables, i: int)
        requires
            self.built_from(t),
            0 <= i < t.inventory_component@.len(),
        ensures
            self.objects.rev@.contains_key(t.inventory_component@[i].itemid),
            self.objects.rev@[t.inventory_component@[i].itemid].inventory_component@.contains(
                t.inventory_component@[i].id,
            ),
    {
        let r = t.inventory_component@[i];
        let x = Fact { key: r.itemid, field: ObjectField::InventoryComponent, value: r.id };
        assert(r.fed()[0] == x);
        lemma_row_fact::<ObjectField, InventoryComponentRow>(t.inventory_component@, i, x);
        let f = object_facts(t);
        assert(f.contains(x));
        let j = choose|j: int| 0 <= j < f.len() && f[j] == x;
        assert(fact_keys(f).contains(x.key));
        assert(fact_set(f, x.key, x.field).contains(x.value));
        assert(self.objects.rev@.contains_key(x.key));
        assert(self.objects.rev@[x.key].set_of(x.field) == fact_set(f, x.key, x.field));
    }

    /// The objects that can cast a skill are exactly those that an
    /// `ObjectSkills` row pairs with it: skill `k` lists object `v` exactly
    /// where some row has `skillID` `k` and `objectTemplate` `v`.
    pub proof fn lemma_skill_casters(&self, t: RevTables, k: i32, v: i32)
        requires
            self.built_from(t),
        ensures
            (self.skill_ids@.contains_key(k) && self.skill_ids@[k].objects@.contains(v)) <==> exists|i: int|
                0 <= i < t.object_skills@.len() && (#[trigger] t.object_skills@[i]).skill_id == k
                    && t.object_skills@[i].object_template == v,
    {
        let x = Fact { key: k, field: SkillField::Objects, value: v };
        let f = skill_facts(t);
        let a = table_facts::<SkillField, ItemSetSkillRow>(t.item_set_skills@);
        let b = table_facts::<SkillField, MissionTaskRow>(t.mission_tasks@);
        let c = table_facts::<SkillField, ObjectSkillRow>(t.object_skills@);
        lemma_fact_list_contains(f, k, SkillField::Objects, v);
        assert forall|i: int| 0 <= i < t.item_set_skills@.len() implies !(#[trigger] t.item_set_skills@[i]).fed().contains(x) by {
            let fed = t.item_set_skills@[i].fed();
            if fed.contains(x) {
                let j = choose|j: int| 0 <= j < fed.len() && fed[j] == x;
            }
        }
        lemma_table_has::<SkillField, ItemSetSkillRow>(t.item_set_skills@, x, |r: ItemSetSkillRow| false);
        assert forall|i: int| 0 <= i < t.mission_tasks@.len() implies !(#[trigger] t.mission_tasks@[i]).fed().contains(x) by {
            let r = t.mission_tasks@[i];
            if r.task_type == 10 {
                match opt_bytes(r.task_param1) {
                    Some(bs) => {
                        lemma_keyed_contains(
                            crate::lists::spec_plain_id_list(crate::latin1::latin1_decoded(bs)),
                            SkillField::MissionTasks,
                            r.uid,
                            x,
                        );
                    },
                    None => {},
                }
            }
        }
        lemma_table_has::<SkillField, MissionTaskRow>(t.mission_tasks@, x, |r: MissionTaskRow| false);
        let p = |r: ObjectSkillRow| r.skill_id == k && r.object_template == v;
        assert forall|i: int| 0 <= i < t.object_skills@.len() implies (#[trigger] t.object_skills@[i]).fed().contains(x)
            == p(t.object_skills@[i]) by {
            let fed = t.object_skills@[i].fed();
            assert(fed.len() == 1);
            if fed.contains(x) {
                let j = choose|j: int| 0 <= j < fed.len() && fed[j] == x;
            }
            if p(t.object_skills@[i]) {
                assert(fed[0] == x);
            }
        }
        lemma_table_has::<SkillField, ObjectSkillRow>(t.object_skills@, x, p);
        assert(f == a + b + c);
        if f.contains(x) {
            let j = choose|j: int| 0 <= j < f.len() && f[j] == x;
            assert(fact_keys(f).contains(k));
        }
        if self.skill_ids@.contains_key(k) {
            assert(self.skill_ids@[k].list_of(SkillField::Objects) == fact_list(f, k, SkillField::Objects));
        }
    }

    /// The destructible components of a faction are exactly those whose
    /// `faction` column names it, and those of its faction list exactly
    /// those whose `factionList` holds its id, where that is not negative.
    pub proof fn lemma_faction_members(&self, t: RevTables, f: i32, v: i32)
        requires
            self.built_from(t),
        ensures
            (self.factions@.contains_key(f) && self.factions@[f].destructible@.contains(v)) <==> exists|i: int|
                0 <= i < t.destructible_component@.len() && (#[trigger] t.destructible_component@[i]).id == v
                    && t.destructible_component@[i].faction == Some(f),
            (self.factions@.contains_key(f) && self.factions@[f].destructible_list@.contains(v)) <==> exists|i: int|
                0 <= i < t.destructible_component@.len() && (#[trigger] t.destructible_component@[i]).id == v
                    && f >= 0 && faction_list_value(opt_bytes(t.destructible_component@[i].faction_list)) == Some(f),
    {
        let rows = t.destructible_component@;
        let xd = Fact { key: f, field: FactionField::Destructible, value: v };
        let xl = Fact { key: f, field: FactionField::DestructibleList, value: v };
        let pd = |r: DestructibleComponentRow| r.id == v && r.faction == Some(f);
        let pl = |r: DestructibleComponentRow| r.id == v && f >= 0 && faction_list_value(opt_bytes(r.faction_list)) == Some(f);
        assert forall|i: int| 0 <= i < rows.len() implies (#[trigger] rows[i]).fed().contains(xd) == pd(rows[i])
            && rows[i].fed().contains(xl) == pl(rows[i]) by {
            let r = rows[i];
            let head = keyed(opt_keys(r.faction), FactionField::Destructible, r.id);
            let tail = match faction_list_value(opt_bytes(r.faction_list)) {
                Some(n) => if n >= 0 {
                    seq![Fact { key: n, field: FactionField::DestructibleList, value: r.id }]
                } else {
                    Seq::empty()
                },
                None => Seq::empty(),
            };
            assert(r.fed() == head + tail);
            lemma_keyed_contains(opt_keys(r.faction), FactionField::Destructible, r.id, xd);
            lemma_keyed_contains(opt_keys(r.faction), FactionField::Destructible, r.id, xl);
            if tail.contains(xd) {
                let j = choose|j: int| 0 <= j < tail.len() && tail[j] == xd;
            }
            if tail.contains(xl) {
                let j = choose|j: int| 0 <= j < tail.len() && tail[j] == xl;
            }
            if pl(r) {
                assert(tail[0] == xl);
            }
            if r.faction == Some(f) {
                assert(opt_keys(r.faction)[0] == f);
            }
        }
        lemma_table_has::<FactionField, DestructibleComponentRow>(rows, xd, pd);
        lemma_table_has::<FactionField, DestructibleComponentRow>(rows, xl, pl);
        lemma_set_holds(self.factions@, faction_facts(t), xd);
        lemma_set_holds(self.factions@, faction_facts(t), xl);
    }

    /// The items of a loot table index are those of its rows: the index
    /// has an entry exactly where some `LootTable` row names it, and the
    /// entry maps each row `id` to the `itemid` of the last row of that
    /// index with that id.
    pub proof fn lemma_loot_items(&self, t: RevTables, k: i32)
        requires
            self.built_from(t),
        ensures
            self.loot_table_index@.contains_key(k) <==> exists|i: int|
                0 <= i < t.loot_table@.len() && (#[trigger] t.loot_table@[i]).loot_table_index == k,
            self.loot_table_index@.contains_key(k) ==> self.loot_table_index@[k].items@ == last_values(
                loot_rows(t.loot_table@, k),
            ),
    {
        let rows = t.loot_table@;
        let f = loot_facts(t);
        lemma_loot_pairs(rows, k);
        if fact_keys(f).contains(k) {
            let j = choose|j: int| 0 <= j < f.len() && #[trigger] f[j].key == k;
            lemma_table_facts_contains::<i32, LootTableRow>(rows, f[j]);
            let i = choose|i: int| 0 <= i < rows.len() && (#[trigger] rows[i]).fed().contains(f[j]);
            let fed = rows[i].fed();
            let q = choose|q: int| 0 <= q < fed.len() && fed[q] == f[j];
            assert(rows[i].loot_table_index == k);
        }
        if exists|i: int| 0 <= i < rows.len() && (#[trigger] rows[i]).loot_table_index == k {
            let i = choose|i: int| 0 <= i < rows.len() && (#[trigger] rows[i]).loot_table_index == k;
            let e = Fact { key: k, field: rows[i].id, value: rows[i].itemid };
            assert(rows[i].fed()[0] == e);
            lemma_row_fact::<i32, LootTableRow>(rows, i, e);
            let j = choose|j: int| 0 <= j < f.len() && f[j] == e;
            assert(f[j].key == k);
            assert(fact_keys(f).contains(k));
        }
    }

    /// What a mission is a requirement for: its item components are exactly
    /// the `ItemComponent` rows whose `reqAchievementID` names it, and its
    /// collectibles exactly the `CollectibleComponent` rows whose
    /// `requirement_mission` names it.
    pub proof fn lemma_mission_requirements(&self, t: RevTables, m: i32, v: i32)
        requires
            self.built_from(t),
        ensures
            (self.missions@.contains_key(m) && self.missions@[m].item_components.requirement_for@.contains(v))
                <==> exists|i: int|
                0 <= i < t.item_component@.len() && (#[trigger] t.item_component@[i]).id == v
                    && t.item_component@[i].req_achievement_id == Some(m),
            (self.missions@.contains_key(m) && self.missions@[m].collectible_components.requirement_for@.contains(v))
                <==> exists|i: int|
                0 <= i < t.collectible_component@.len() && (#[trigger] t.collectible_component@[i]).id == v
                    && t.collectible_component@[i].requirement_mission == Some(m),
    {
        let xi = Fact { key: m, field: MissionField::ItemComponents, value: v };
        let xc = Fact { key: m, field: MissionField::CollectibleComponents, value: v };
        let cs = t.collectible_component@;
        let is = t.item_component@;
        let ms = t.missions@;
        let pc = |r: CollectibleComponentRow| r.id == v && r.requirement_mission == Some(m);
        let pi = |r: ItemComponentRow| r.id == v && r.req_achievement_id == Some(m);
        assert forall|i: int| 0 <= i < cs.len() implies (#[trigger] cs[i]).fed().contains(xc) == pc(cs[i])
            && !cs[i].fed().contains(xi) by {
            let r = cs[i];
            lemma_keyed_contains(opt_keys(r.requirement_mission), MissionField::CollectibleComponents, r.id, xc);
            lemma_keyed_contains(opt_keys(r.requirement_mission), MissionField::CollectibleComponents, r.id, xi);
            if r.requirement_mission == Some(m) {
                assert(opt_keys(r.requirement_mission)[0] == m);
            }
        }
        assert forall|i: int| 0 <= i < is.len() implies <ItemComponentRow as Feeds<MissionField>>::fed(
            &#[trigger] is[i],
        ).contains(xi) == pi(is[i]) && !<ItemComponentRow as Feeds<MissionField>>::fed(&is[i]).contains(xc) by {
            let r = is[i];
            lemma_keyed_contains(opt_keys(r.req_achievement_id), MissionField::ItemComponents, r.id, xi);
            lemma_keyed_contains(opt_keys(r.req_achievement_id), MissionField::ItemComponents, r.id, xc);
            if r.req_achievement_id == Some(m) {
                assert(opt_keys(r.req_achievement_id)[0] == m);
            }
        }
        assert forall|i: int| 0 <= i < ms.len() implies !<MissionRow as Feeds<MissionField>>::fed(
            &#[trigger] ms[i],
        ).contains(xi) && !<MissionRow as Feeds<MissionField>>::fed(&ms[i]).contains(xc) by {
            let r = ms[i];
            match opt_bytes(r.prereq_mission_id) {
                Some(b) => if b.len() > 0 {
                    let ks = crate::lists::spec_prereq_ids(crate::latin1::latin1_decoded(b));
                    lemma_keyed_contains(ks, MissionField::Missions, r.id, xi);
                    lemma_keyed_contains(ks, MissionField::Missions, r.id, xc);
                },
                None => {},
            }
        }
        lemma_table_has::<MissionField, CollectibleComponentRow>(cs, xc, pc);
        lemma_table_has::<MissionField, CollectibleComponentRow>(cs, xi, |r: CollectibleComponentRow| false);
        lemma_table_has::<MissionField, ItemComponentRow>(is, xi, pi);
        lemma_table_has::<MissionField, ItemComponentRow>(is, xc, |r: ItemComponentRow| false);
        lemma_table_has::<MissionField, MissionRow>(ms, xi, |r: MissionRow| false);
        lemma_table_has::<MissionField, MissionRow>(ms, xc, |r: MissionRow| false);
        lemma_set_holds(self.missions@, mission_facts(t), xi);
        lemma_set_holds(self.missions@, mission_facts(t), xc);
    }

    /// The inventory components listed under an object are exactly those
    /// that hold it: object `k` lists `v` exactly where some
    /// `InventoryComponent` row has `itemid` `k` and `id` `v`.
    pub proof fn lemma_inventory_components(&self, t: RevTables, k: i32, v: i32)
        requires
            self.built_from(t),
        ensures
            (self.objects.rev@.contains_key(k) && self.objects.rev@[k].inventory_component@.contains(v))
                <==> exists|i: int|
                0 <= i < t.inventory_component@.len() && (#[trigger] t.inventory_component@[i]).itemid == k
                    && t.inventory_component@[i].id == v,
    {
        self.lemma_object_uses(t, k, ObjectField::InventoryComponent, v);
        if exists|i: int|
            0 <= i < t.inventory_component@.len() && (#[trigger] t.inventory_component@[i]).itemid == k
                && t.inventory_component@[i].id == v {
            let i = choose|i: int|
                0 <= i < t.inventory_component@.len() && (#[trigger] t.inventory_component@[i]).itemid == k
                    && t.inventory_component@[i].id == v;
            assert(inventory_refers(t.inventory_component@[i], k, ObjectField::InventoryComponent, v));
        }

    }
}

/// Whether a `DeletionRestrictions` row puts `v` under `g` of object `k`:
/// a restriction of check type 0 lists its `id` under each object of its
/// `ids`.
pub open spec fn deletion_refers(r: DeletionRestrictionRow, k: i32, g: ObjectField, v: i32) -> bool {
    g == ObjectField::DeletionRestrictions && r.check_type == 0 && r.id == v && opt_id_list(
        opt_bytes(r.ids),
    ).contains(k)
}

/// Whether an `InventoryComponent` row puts `v` under `g` of object `k`:
/// its `id` under the item it holds.
pub open spec fn inventory_refers(r: InventoryComponentRow, k: i32, g: ObjectField, v: i32) -> bool {
    g == ObjectField::InventoryComponent && r.itemid == k && r.id == v
}

/// Whether an `ItemComponent` row puts `v` under `g` of object `k`: its
/// `id` under its currency, its commendation currency and each sub item.
pub open spec fn item_component_refers(r: ItemComponentRow, k: i32, g: ObjectField, v: i32) -> bool {
    r.id == v && ((g == ObjectField::CurrencyLot && r.currency_lot == Some(k)) || (g
        == ObjectField::CommendationLot && r.commendation_lot == Some(k)) || (g == ObjectField::Subitems
        && opt_id_list(opt_bytes(r.sub_items)).contains(k)))
}

/// Whether an `ItemSets` row puts `v` under `g` of object `k`: its set id
/// under each of its items.
pub open spec fn item_set_refers(r: ItemSetRow, k: i32, g: ObjectField, v: i32) -> bool {
    g == ObjectField::ItemSets && r.set_id == v && spec_id_list(latin1_decoded(r.item_i_ds@)).contains(k)
}

/// Whether a `JetPackPadComponent` row puts `v` under `g` of object `k`:
/// its `id` under its warning volume and under its blocker.
pub open spec fn jet_pack_refers(r: JetPackPadComponentRow, k: i32, g: ObjectField, v: i32) -> bool {
    r.id == v && ((g == ObjectField::LotWarningVolume && r.lot_warning_volume == Some(k)) || (g
        == ObjectField::LotBlocker && r.lot_blocker == Some(k)))
}

/// Whether a `Missions` row puts `v` under `g` of object `k`: its `id`
/// under each positive reward item.
pub open spec fn mission_rewards(r: MissionRow, k: i32, g: ObjectField, v: i32) -> bool {
    g == ObjectField::RewardItems && r.id == v && k > 0 && r.reward_items@.contains(k)
}

/// Whether an `NpcIcons` row puts `v` under `g` of object `k`.
pub open spec fn npc_icon_refers(r: NpcIconRow, k: i32, g: ObjectField, v: i32) -> bool {
    g == ObjectField::NpcIconsLot && r.lot == k && r.id == v
}

/// Whether a `RebuildSections` row puts `v` under `g` of object `k`.
pub open spec fn rebuild_section_refers(r: RebuildSectionRow, k: i32, g: ObjectField, v: i32) -> bool {
    g == ObjectField::RebuildSections && r.object_id == k && r.id == v
}

/// Whether a `RewardCodes` row puts `v` under `g` of object `k`.
pub open spec fn reward_code_refers(r: RewardCodeRow, k: i32, g: ObjectField, v: i32) -> bool {
    g == ObjectField::RewardCodes && r.attachment_lot == Some(k) && r.id == v
}

/// Whether some row of the tables puts `v` under `g` of object `k`.
pub open spec fn object_refers(t: RevTables, k: i32, g: ObjectField, v: i32) -> bool {
    ||| exists|i: int|
        0 <= i < t.deletion_restrictions@.len() && deletion_refers(#[trigger] t.deletion_restrictions@[i], k, g, v)
    ||| exists|i: int|
        0 <= i < t.inventory_component@.len() && inventory_refers(#[trigger] t.inventory_component@[i], k, g, v)
    ||| exists|i: int|
        0 <= i < t.item_component@.len() && item_component_refers(#[trigger] t.item_component@[i], k, g, v)
    ||| exists|i: int| 0 <= i < t.item_sets@.len() && item_set_refers(#[trigger] t.item_sets@[i], k, g, v)
    ||| exists|i: int|
        0 <= i < t.jet_pack_pad_component@.len() && jet_pack_refers(
            #[trigger] t.jet_pack_pad_component@[i],
            k,
            g,
            v,
        )
    ||| exists|i: int| 0 <= i < t.missions@.len() && mission_rewards(#[trigger] t.missions@[i], k, g, v)
    ||| exists|i: int| 0 <= i < t.npc_icons@.len() && npc_icon_refers(#[trigger] t.npc_icons@[i], k, g, v)
    ||| exists|i: int|
        0 <= i < t.rebuild_sections@.len() && rebuild_section_refers(#[trigger] t.rebuild_sections@[i], k, g, v)
    ||| exists|i: int| 0 <= i < t.reward_codes@.len() && reward_code_refers(#[trigger] t.reward_codes@[i], k, g, v)
}

/// An optional column gives one key, where it holds one.
proof fn lemma_opt_keyed<F>(o: Option<i32>, field: F, value: i32, x: Fact<i32, F>)
    ensures
        keyed(opt_keys(o), field, value).contains(x) <==> (x.field == field && x.value == value && o == Some(
            x.key,
        )),
{
    lemma_keyed_contains(opt_keys(o), field, value, x);
    if o == Some(x.key) {
        assert(opt_keys(o)[0] == x.key);
    }
}

/// The object facts hold a fact exactly where some row of the tables puts
/// its value under its field of its object.
proof fn lemma_object_fact(t: RevTables, x: Fact<i32, ObjectField>)
    ensures
        object_facts(t).contains(x) <==> object_refers(t, x.key, x.field, x.value),
{
    let (k, g, v) = (x.key, x.field, x.value);
    assert forall|i: int| 0 <= i < t.deletion_restrictions@.len() implies (#[trigger] t.deletion_restrictions@[i]).fed().contains(x)
        == deletion_refers(t.deletion_restrictions@[i], k, g, v) by {
        let r = t.deletion_restrictions@[i];
        lemma_keyed_contains(opt_id_list(opt_bytes(r.ids)), ObjectField::DeletionRestrictions, r.id, x);
    }
    lemma_table_has::<ObjectField, DeletionRestrictionRow>(t.deletion_restrictions@, x, |r: DeletionRestrictionRow| deletion_refers(r, k, g, v));
    assert forall|i: int| 0 <= i < t.inventory_component@.len() implies (#[trigger] t.inventory_component@[i]).fed().contains(x)
        == inventory_refers(t.inventory_component@[i], k, g, v) by {
        let r = t.inventory_component@[i];
        lemma_one_fact(Fact { key: r.itemid, field: ObjectField::InventoryComponent, value: r.id }, x);
    }
    lemma_table_has::<ObjectField, InventoryComponentRow>(t.inventory_component@, x, |r: InventoryComponentRow| inventory_refers(r, k, g, v));
    assert forall|i: int| 0 <= i < t.item_component@.len() implies <ItemComponentRow as Feeds<ObjectField>>::fed(&#[trigger] t.item_component@[i]).contains(x)
        == item_component_refers(t.item_component@[i], k, g, v) by {
        let r = t.item_component@[i];
        lemma_opt_keyed(r.currency_lot, ObjectField::CurrencyLot, r.id, x);
        lemma_opt_keyed(r.commendation_lot, ObjectField::CommendationLot, r.id, x);
        lemma_keyed_contains(opt_id_list(opt_bytes(r.sub_items)), ObjectField::Subitems, r.id, x);
    }
    lemma_table_has::<ObjectField, ItemComponentRow>(t.item_component@, x, |r: ItemComponentRow| item_component_refers(r, k, g, v));
    assert forall|i: int| 0 <= i < t.item_sets@.len() implies (#[trigger] t.item_sets@[i]).fed().contains(x)
        == item_set_refers(t.item_sets@[i], k, g, v) by {
        let r = t.item_sets@[i];
        lemma_keyed_contains(spec_id_list(latin1_decoded(r.item_i_ds@)), ObjectField::ItemSets, r.set_id, x);
    }
    lemma_table_has::<ObjectField, ItemSetRow>(t.item_sets@, x, |r: ItemSetRow| item_set_refers(r, k, g, v));
    assert forall|i: int| 0 <= i < t.jet_pack_pad_component@.len() implies (#[trigger] t.jet_pack_pad_component@[i]).fed().contains(x)
        == jet_pack_refers(t.jet_pack_pad_component@[i], k, g, v) by {
        let r = t.jet_pack_pad_component@[i];
        lemma_opt_keyed(r.lot_warning_volume, ObjectField::LotWarningVolume, r.id, x);
        lemma_opt_keyed(r.lot_blocker, ObjectField::LotBlocker, r.id, x);
    }
    lemma_table_has::<ObjectField, JetPackPadComponentRow>(t.jet_pack_pad_component@, x, |r: JetPackPadComponentRow| jet_pack_refers(r, k, g, v));
    assert forall|i: int| 0 <= i < t.missions@.len() implies <MissionRow as Feeds<ObjectField>>::fed(&#[trigger] t.missions@[i]).contains(x)
        == mission_rewards(t.missions@[i], k, g, v) by {
        let r = t.missions@[i];
        let p = |lot: i32| is_reward_item(lot);
        let items = r.reward_items@;
        lemma_keyed_contains(items.filter(p), ObjectField::RewardItems, r.id, x);
        if items.filter(p).contains(k) {
            items.lemma_filter_contains_rev(p, k);
            let j = choose|j: int| 0 <= j < items.filter(p).len() && items.filter(p)[j] == k;
            items.lemma_filter_pred(p, j);
        }
        if k > 0 && items.contains(k) {
            let j = choose|j: int| 0 <= j < items.len() && items[j] == k;
            items.lemma_filter_contains(p, j);
        }
    }
    lemma_table_has::<ObjectField, MissionRow>(t.missions@, x, |r: MissionRow| mission_rewards(r, k, g, v));
    assert forall|i: int| 0 <= i < t.npc_icons@.len() implies (#[trigger] t.npc_icons@[i]).fed().contains(x)
        == npc_icon_refers(t.npc_icons@[i], k, g, v) by {
        let r = t.npc_icons@[i];
        lemma_one_fact(Fact { key: r.lot, field: ObjectField::NpcIconsLot, value: r.id }, x);
    }
    lemma_table_has::<ObjectField, NpcIconRow>(t.npc_icons@, x, |r: NpcIconRow| npc_icon_refers(r, k, g, v));
    assert forall|i: int| 0 <= i < t.rebuild_sections@.len() implies (#[trigger] t.rebuild_sections@[i]).fed().contains(x)
        == rebuild_section_refers(t.rebuild_sections@[i], k, g, v) by {
        let r = t.rebuild_sections@[i];
        lemma_one_fact(Fact { key: r.object_id, field: ObjectField::RebuildSections, value: r.id }, x);
    }
    lemma_table_has::<ObjectField, RebuildSectionRow>(t.rebuild_sections@, x, |r: RebuildSectionRow| rebuild_section_refers(r, k, g, v));
    assert forall|i: int| 0 <= i < t.reward_codes@.len() implies (#[trigger] t.reward_codes@[i]).fed().contains(x)
        == reward_code_refers(t.reward_codes@[i], k, g, v) by {
        let r = t.reward_codes@[i];
        lemma_opt_keyed(r.attachment_lot, ObjectField::RewardCodes, r.id, x);
    }
    lemma_table_has::<ObjectField, RewardCodeRow>(t.reward_codes@, x, |r: RewardCodeRow| reward_code_refers(r, k, g, v));
}

impl ReverseLookup {
    /// What refers to an object: object `k` has `v` under `g` exactly where
    /// some row of the tables puts it there, as `object_refers` tells by
    /// the rows' columns.
    pub proof fn lemma_object_uses(&self, t: RevTables, k: i32, g: ObjectField, v: i32)
        requires
            self.built_from(t),
        ensures
            (self.objects.rev@.contains_key(k) && self.objects.rev@[k].set_of(g).contains(v)) <==> object_refers(
                t,
                k,
                g,
                v,
            ),
    {
        let x = Fact { key: k, field: g, value: v };
        let f = object_facts(t);
        lemma_object_fact(t, x);
        if f.contains(x) {
            let j = choose|j: int| 0 <= j < f.len() && f[j] == x;
            assert(f[j].key == k);
            assert(fact_keys(f).contains(k));
            assert(fact_set(f, k, g).contains(v));
        }
        if self.objects.rev@.contains_key(k) {
            assert(self.objects.rev@[k].set_of(g) == fact_set(f, k, g));
        }
    }
}

/// Whether a row of the tables puts `v` under `g` of skill `k`: an item set
/// skill row its set under its skill, a mission task of type 10 its `uid`
/// under each skill of its first parameter, an object skill row its object
/// under its skill.
pub open spec fn skill_refers(t: RevTables, k: i32, g: SkillField, v: i32) -> bool {
    ||| (g == SkillField::ItemSets && exists|i: int|
        0 <= i < t.item_set_skills@.len() && (#[trigger] t.item_set_skills@[i]).skill_id == k
            && t.item_set_skills@[i].skill_set_id == v)
    ||| (g == SkillField::MissionTasks && exists|i: int|
        0 <= i < t.mission_tasks@.len() && (#[trigger] t.mission_tasks@[i]).task_type == 10
            && t.mission_tasks@[i].uid == v && t.mission_tasks@[i].task_param1 is Some && spec_plain_id_list(
            latin1_decoded(t.mission_tasks@[i].task_param1->Some_0@),
        ).contains(k))
    ||| (g == SkillField::Objects && exists|i: int|
        0 <= i < t.object_skills@.len() && (#[trigger] t.object_skills@[i]).skill_id == k
            && t.object_skills@[i].object_template == v)
}

impl ReverseLookup {
    /// What refers to a skill: skill `k` lists `v` under `g` exactly where
    /// some row of the tables puts it there, as `skill_refers` tells by the
    /// rows' columns.
    pub proof fn lemma_skill_uses(&self, t: RevTables, k: i32, g: SkillField, v: i32)
        requires
            self.built_from(t),
        ensures
            (self.skill_ids@.contains_key(k) && self.skill_ids@[k].list_of(g).contains(v)) <==> skill_refers(
                t,
                k,
                g,
                v,
            ),
    {
        let x = Fact { key: k, field: g, value: v };
        let f = skill_facts(t);
        lemma_fact_list_contains(f, k, g, v);
        let pa = |r: ItemSetSkillRow| g == SkillField::ItemSets && r.skill_id == k && r.skill_set_id == v;
        let pb = |r: MissionTaskRow|
            g == SkillField::MissionTasks && r.task_type == 10 && r.uid == v && r.task_param1 is Some
                && spec_plain_id_list(latin1_decoded(r.task_param1->Some_0@)).contains(k);
        let pc = |r: ObjectSkillRow| g == SkillField::Objects && r.skill_id == k && r.object_template == v;
        assert forall|i: int| 0 <= i < t.item_set_skills@.len() implies (#[trigger] t.item_set_skills@[i]).fed().contains(x)
            == pa(t.item_set_skills@[i]) by {
            let r = t.item_set_skills@[i];
            lemma_one_fact(Fact { key: r.skill_id, field: SkillField::ItemSets, value: r.skill_set_id }, x);
        }
        assert forall|i: int| 0 <= i < t.mission_tasks@.len() implies (#[trigger] t.mission_tasks@[i]).fed().contains(x)
            == pb(t.mission_tasks@[i]) by {
            let r = t.mission_tasks@[i];
            if r.task_type == 10 {
                match opt_bytes(r.task_param1) {
                    Some(b) => {
                        lemma_keyed_contains(spec_plain_id_list(latin1_decoded(b)), SkillField::MissionTasks, r.uid, x);
                    },
                    None => {},
                }
            }
        }
        assert forall|i: int| 0 <= i < t.object_skills@.len() implies (#[trigger] t.object_skills@[i]).fed().contains(x)
            == pc(t.object_skills@[i]) by {
            let r = t.object_skills@[i];
            lemma_one_fact(Fact { key: r.skill_id, field: SkillField::Objects, value: r.object_template }, x);
        }
        lemma_table_has::<SkillField, ItemSetSkillRow>(t.item_set_skills@, x, pa);
        lemma_table_has::<SkillField, MissionTaskRow>(t.mission_tasks@, x, pb);
        lemma_table_has::<SkillField, ObjectSkillRow>(t.object_skills@, x, pc);
        if f.contains(x) {
            let j = choose|j: int| 0 <= j < f.len() && f[j] == x;
            assert(f[j].key == k);
            assert(fact_keys(f).contains(k));
        }
        if self.skill_ids@.contains_key(k) {
            assert(self.skill_ids@[k].list_of(g) == fact_list(f, k, g));
        }
    }

    /// The skills of a behavior are exactly those whose root behavior it
    /// is, and the skills of a cooldown group exactly those of that group.
    pub proof fn lemma_skill_roots(&self, t: RevTables, b: i32, s: i32)
        requires
            self.built_from(t),
        ensures
            (self.behaviors@.contains_key(b) && self.behaviors@[b].skill@.contains(s)) <==> exists|i: int|
                0 <= i < t.skills@.len() && (#[trigger] t.skills@[i]).behavior_id == b && t.skills@[i].skill_id == s,
            (self.skill_cooldown_groups@.contains_key(b) && self.skill_cooldown_groups@[b].skills@.contains(s))
                <==> exists|i: int|
                0 <= i < t.skills@.len() && (#[trigger] t.skills@[i]).cooldowngroup == Some(b)
                    && t.skills@[i].skill_id == s,
    {
        let x = Fact { key: b, field: BehaviorField::Skill, value: s };
        let y = Fact { key: b, field: OneField::Ids, value: s };
        let ps = t.behavior_parameters@;
        let sk = t.skills@;
        assert forall|i: int| 0 <= i < ps.len() implies !(#[trigger] ps[i]).fed().contains(x) by {
            let fed = ps[i].fed();
            if fed.contains(x) {
                let j = choose|j: int| 0 <= j < fed.len() && fed[j] == x;
            }
        }
        lemma_table_has::<BehaviorField, BehaviorParameterRow>(ps, x, |r: BehaviorParameterRow| false);
        let px = |r: SkillRow| r.behavior_id == b && r.skill_id == s;
        let py = |r: SkillRow| r.cooldowngroup == Some(b) && r.skill_id == s;
        assert forall|i: int| 0 <= i < sk.len() implies <SkillRow as Feeds<BehaviorField>>::fed(&#[trigger] sk[i]).contains(x)
            == px(sk[i]) && <SkillRow as Feeds<OneField>>::fed(&sk[i]).contains(y) == py(sk[i]) by {
            let r = sk[i];
            lemma_one_fact(Fact { key: r.behavior_id, field: BehaviorField::Skill, value: r.skill_id }, x);
            lemma_opt_keyed(r.cooldowngroup, OneField::Ids, r.skill_id, y);
        }
        lemma_table_has::<BehaviorField, SkillRow>(sk, x, px);
        lemma_table_has::<OneField, SkillRow>(sk, y, py);
        lemma_set_holds(self.behaviors@, behavior_facts(t), x);
        lemma_set_holds(self.skill_cooldown_groups@, cooldown_facts(t), y);
    }

    /// The rebuild components of an activity are exactly those whose
    /// `activityID` names it.
    pub proof fn lemma_activity_rebuilds(&self, t: RevTables, a: i32, v: i32)
        requires
            self.built_from(t),
        ensures
            (self.activities@.contains_key(a) && self.activities@[a].rebuild@.contains(v)) <==> exists|i: int|
                0 <= i < t.rebuild_component@.len() && (#[trigger] t.rebuild_component@[i]).activity_id == Some(a)
                    && t.rebuild_component@[i].id == v,
    {
        let x = Fact { key: a, field: OneField::Ids, value: v };
        let f = activity_facts(t);
        let rows = t.rebuild_component@;
        lemma_fact_list_contains(f, a, OneField::Ids, v);
        let p = |r: RebuildComponentRow| r.activity_id == Some(a) && r.id == v;
        assert forall|i: int| 0 <= i < rows.len() implies (#[trigger] rows[i]).fed().contains(x) == p(rows[i]) by {
            lemma_opt_keyed(rows[i].activity_id, OneField::Ids, rows[i].id, x);
        }
        lemma_table_has::<OneField, RebuildComponentRow>(rows, x, p);
        if f.contains(x) {
            let j = choose|j: int| 0 <= j < f.len() && f[j] == x;
            assert(f[j].key == a);
            assert(fact_keys(f).contains(a));
        }
        if self.activities@.contains_key(a) {
            assert(self.activities@[a].list_of(OneField::Ids) == fact_list(f, a, OneField::Ids));
        }
    }
}

/// Whether the prerequisite text of a mission names mission `m`.
pub open spec fn names_prereq(r: MissionRow, m: i32) -> bool {
    r.prereq_mission_id is Some && r.prereq_mission_id->Some_0@.len() > 0 && spec_prereq_ids(
        latin1_decoded(r.prereq_mission_id->Some_0@),
    ).contains(m)
}

impl ReverseLookup {
    /// The missions that a mission is a prerequisite for are exactly those
    /// whose `prereqMissionID` text names it.
    pub proof fn lemma_mission_prereqs(&self, t: RevTables, m: i32, v: i32)
        requires
            self.built_from(t),
        ensures
            (self.missions@.contains_key(m) && self.missions@[m].missions.prereq_for@.contains(v)) <==> exists|i: int|
                0 <= i < t.missions@.len() && (#[trigger] t.missions@[i]).id == v && names_prereq(t.missions@[i], m),
    {
        let x = Fact { key: m, field: MissionField::Missions, value: v };
        let cs = t.collectible_component@;
        let is = t.item_component@;
        let ms = t.missions@;
        let p = |r: MissionRow| r.id == v && names_prereq(r, m);
        assert forall|i: int| 0 <= i < cs.len() implies !(#[trigger] cs[i]).fed().contains(x) by {
            lemma_opt_keyed(cs[i].requirement_mission, MissionField::CollectibleComponents, cs[i].id, x);
        }
        assert forall|i: int| 0 <= i < is.len() implies !<ItemComponentRow as Feeds<MissionField>>::fed(
            &#[trigger] is[i],
        ).contains(x) by {
            lemma_opt_keyed(is[i].req_achievement_id, MissionField::ItemComponents, is[i].id, x);
        }
        assert forall|i: int| 0 <= i < ms.len() implies <MissionRow as Feeds<MissionField>>::fed(&#[trigger] ms[i]).contains(x)
            == p(ms[i]) by {
            let r = ms[i];
            match opt_bytes(r.prereq_mission_id) {
                Some(b) => {
                    lemma_keyed_contains(spec_prereq_ids(latin1_decoded(b)), MissionField::Missions, r.id, x);
                },
                None => {},
            }
        }
        lemma_table_has::<MissionField, CollectibleComponentRow>(cs, x, |r: CollectibleComponentRow| false);
        lemma_table_has::<MissionField, ItemComponentRow>(is, x, |r: ItemComponentRow| false);
        lemma_table_has::<MissionField, MissionRow>(ms, x, p);
        lemma_set_holds(self.missions@, mission_facts(t), x);
    }
}

/// The facts about one key, keyed by their field, hold a fact exactly where
/// the facts do.
proof fn lemma_nested_contains<K, F>(f: Seq<Fact<K, F>>, k: K, c: F, v: i32)
    ensures
        nested(f, k).contains(Fact { key: c, field: OneField::Ids, value: v }) <==> f.contains(
            Fact { key: k, field: c, value: v },
        ),
{
    let x = Fact { key: k, field: c, value: v };
    let y = Fact { key: c, field: OneField::Ids, value: v };
    let p = |e: Fact<K, F>| e.key == k;
    let g = |e: Fact<K, F>| Fact { key: e.field, field: OneField::Ids, value: e.value };
    let fl = f.filter(p);
    if nested(f, k).contains(y) {
        let j = choose|j: int| 0 <= j < fl.map_values(g).len() && fl.map_values(g)[j] == y;
        f.lemma_filter_pred(p, j);
        assert(fl[j] == x);
        assert(fl.contains(x));
        f.lemma_filter_contains_rev(p, x);
    }
    if f.contains(x) {
        let i = choose|i: int| 0 <= i < f.len() && f[i] == x;
        f.lemma_filter_contains(p, i);
        let j = choose|j: int| 0 <= j < fl.len() && fl[j] == x;
        assert(fl.map_values(g)[j] == y);
    }
}

impl ReverseLookup {
    /// The objects that have a component are exactly those that a
    /// `ComponentsRegistry` row gives it: under component type `ty`,
    /// component `c` lists object `v` exactly where some row has that
    /// `component_type`, that `component_id` and that `id`.
    pub proof fn lemma_component_users(&self, t: RevTables, ty: i32, c: i32, v: i32)
        requires
            self.built_from(t),
        ensures
            (self.component_use.0@.contains_key(ty) && self.component_use.0@[ty].components@.contains_key(c)
                && self.component_use.0@[ty].components@[c].lots@.contains(v)) <==> exists|i: int|
                0 <= i < t.comp_reg@.len() && (#[trigger] t.comp_reg@[i]).component_type == ty
                    && t.comp_reg@[i].component_id == c && t.comp_reg@[i].id == v,
    {
        let x = Fact { key: ty, field: c, value: v };
        let y = Fact { key: c, field: OneField::Ids, value: v };
        let f = component_facts(t);
        let rows = t.comp_reg@;
        let p = |r: ComponentsRegistryRow| r.component_type == ty && r.component_id == c && r.id == v;
        assert forall|i: int| 0 <= i < rows.len() implies (#[trigger] rows[i]).fed().contains(x) == p(rows[i]) by {
            let r = rows[i];
            lemma_one_fact(Fact { key: r.component_type, field: r.component_id, value: r.id }, x);
        }
        lemma_table_has::<i32, ComponentsRegistryRow>(rows, x, p);
        lemma_nested_contains(f, ty, c, v);
        let nf = nested(f, ty);
        lemma_fact_list_contains(nf, c, OneField::Ids, v);
        if f.contains(x) {
            let j = choose|j: int| 0 <= j < f.len() && f[j] == x;
            assert(f[j].key == ty);
            assert(fact_keys(f).contains(ty));
            let q = choose|q: int| 0 <= q < nf.len() && nf[q] == y;
            assert(nf[q].key == c);
            assert(fact_keys(nf).contains(c));
        }
        if self.component_use.0@.contains_key(ty) {
            let inner = self.component_use.0@[ty].components@;
            assert(super::index::list_index(inner, nf));
            if inner.contains_key(c) {
                assert(inner[c].list_of(OneField::Ids) == fact_list(nf, c, OneField::Ids));
            }
        }
    }
}

impl ReverseLookup {
    /// The mission of a mission task `uid` is the `id` of the last
    /// `MissionTasks` row with that `uid`, and there is one exactly where
    /// some row has it.
    pub proof fn lemma_task_missions(&self, t: RevTables, u: i32)
        requires
            self.built_from(t),
        ensures
            self.mission_task_uids@.contains_key(u) <==> exists|i: int|
                0 <= i < t.mission_tasks@.len() && (#[trigger] t.mission_tasks@[i]).uid == u,
            self.mission_task_uids@.contains_key(u) ==> exists|i: int|
                0 <= i < t.mission_tasks@.len() && (#[trigger] t.mission_tasks@[i]).uid == u
                    && self.mission_task_uids@[u].mission == t.mission_tasks@[i].id && forall|j: int|
                    i < j < t.mission_tasks@.len() ==> (#[trigger] t.mission_tasks@[j]).uid != u,
    {
        let rows = t.mission_tasks@;
        let pairs = task_pairs(t);
        lemma_last_values(pairs, u);
        if self.mission_task_uids@.contains_key(u) {
            let i = choose|i: int|
                0 <= i < pairs.len() && #[trigger] pairs[i].0 == u && last_values(pairs)[u] == pairs[i].1
                    && forall|j: int| i < j < pairs.len() ==> #[trigger] pairs[j].0 != u;
            assert(rows[i].uid == u);
            assert forall|j: int| i < j < rows.len() implies (#[trigger] rows[j]).uid != u by {
                assert(pairs[j].0 != u);
            }
        }
        if exists|i: int| 0 <= i < rows.len() && (#[trigger] rows[i]).uid == u {
            let i = choose|i: int| 0 <= i < rows.len() && (#[trigger] rows[i]).uid == u;
            assert(pairs[i].0 == u);
        }
    }

    /// The search texts of an object are those of the last `Objects` row
    /// with its id, and there are some exactly where some row has it.
    pub proof fn lemma_search_texts(&self, t: RevTables, k: i32)
        requires
            self.built_from(t),
        ensures
            self.objects.search_index@.contains_key(k) <==> exists|i: int|
                0 <= i < t.objects@.len() && (#[trigger] t.objects@[i]).id == k,
            self.objects.search_index@.contains_key(k) ==> exists|i: int|
                0 <= i < t.objects@.len() && (#[trigger] t.objects@[i]).id == k
                    && self.objects.search_index@[k]@ == object_texts(t.objects@[i]) && forall|j: int|
                    i < j < t.objects@.len() ==> (#[trigger] t.objects@[j]).id != k,
    {
        let rows = t.objects@;
        let pairs = search_pairs(t);
        lemma_last_values(pairs, k);
        if self.objects.search_index@.contains_key(k) {
            let i = choose|i: int|
                0 <= i < pairs.len() && #[trigger] pairs[i].0 == k && last_values(pairs)[k] == pairs[i].1
                    && forall|j: int| i < j < pairs.len() ==> #[trigger] pairs[j].0 != k;
            assert(rows[i].id == k);
            assert forall|j: int| i < j < rows.len() implies (#[trigger] rows[j]).id != k by {
                assert(pairs[j].0 != k);
            }
        }
        if exists|i: int| 0 <= i < rows.len() && (#[trigger] rows[i]).id == k {
            let i = choose|i: int| 0 <= i < rows.len() && (#[trigger] rows[i]).id == k;
            assert(pairs[i].0 == k);
        }
    }

    /// The denomination of a currency object is the `value` of the last
    /// `CurrencyDenominations` row with its `objectid`, and it has one
    /// exactly where some row names it.
    pub proof fn lemma_currency_values(&self, t: RevTables, k: i32)
        requires
            self.built_from(t),
        ensures
            (exists|i: int|
                0 <= i < t.currency_denominations@.len() && (#[trigger] t.currency_denominations@[i]).objectid == k)
                ==> self.objects.rev@.contains_key(k),
            self.objects.rev@.contains_key(k) ==> (self.objects.rev@[k].currency_denomination is Some <==> exists|i: int|
                0 <= i < t.currency_denominations@.len() && (#[trigger] t.currency_denominations@[i]).objectid == k),
            self.objects.rev@.contains_key(k) && self.objects.rev@[k].currency_denomination is Some ==> exists|i: int|
                0 <= i < t.currency_denominations@.len() && (#[trigger] t.currency_denominations@[i]).objectid == k
                    && self.objects.rev@[k].currency_denomination == Some(t.currency_denominations@[i].value)
                    && forall|j: int|
                    i < j < t.currency_denominations@.len() ==> (#[trigger] t.currency_denominations@[j]).objectid != k,
    {
        let rows = t.currency_denominations@;
        let pairs = currency_pairs(t);
        lemma_last_values(pairs, k);
        if last_values(pairs).contains_key(k) {
            let i = choose|i: int|
                0 <= i < pairs.len() && #[trigger] pairs[i].0 == k && last_values(pairs)[k] == pairs[i].1
                    && forall|j: int| i < j < pairs.len() ==> #[trigger] pairs[j].0 != k;
            assert(rows[i].objectid == k);
            assert forall|j: int| i < j < rows.len() implies (#[trigger] rows[j]).objectid != k by {
                assert(pairs[j].0 != k);
            }
        }
        if exists|i: int| 0 <= i < rows.len() && (#[trigger] rows[i]).objectid == k {
            let i = choose|i: int| 0 <= i < rows.len() && (#[trigger] rows[i]).objectid == k;
            assert(pairs[i].0 == k);
            assert(last_values(pairs).dom().contains(k));
        }
    }

    /// The objects of a type are exactly the `Objects` rows whose decoded
    /// `type` is that text.
    pub proof fn lemma_objects_of_type(&self, t: RevTables, ty: Seq<char>, v: i32)
        requires
            self.built_from(t),
        ensures
            (self.object_types.view().contains_key(ty) && self.object_types.view()[ty]@.contains(v)) <==> exists|i: int|
                0 <= i < t.objects@.len() && (#[trigger] t.objects@[i]).id == v && latin1_decoded(
                    t.objects@[i].object_type@,
                ) == ty,
    {
        let f = object_type_facts(t);
        let rows = t.objects@;
        let x = Fact { key: ty, field: OneField::Ids, value: v };
        lemma_fact_list_contains(f, ty, OneField::Ids, v);
        if f.contains(x) {
            let j = choose|j: int| 0 <= j < f.len() && f[j] == x;
            assert(rows[j].id == v);
            assert(f[j].key == ty);
            assert(fact_keys(f).contains(ty));
        }
        if exists|i: int| 0 <= i < rows.len() && (#[trigger] rows[i]).id == v && latin1_decoded(rows[i].object_type@) == ty {
            let i = choose|i: int| 0 <= i < rows.len() && (#[trigger] rows[i]).id == v && latin1_decoded(rows[i].object_type@) == ty;
            assert(f[i] == x);
        }
        if self.object_types.view().contains_key(ty) {
            assert(self.object_types.view()[ty].list_of(OneField::Ids) == fact_list(f, ty, OneField::Ids));
        }
    }

    /// The missions of a type and subtype are exactly the `Missions` rows
    /// with that decoded `defined_type` and `defined_subtype`, a missing
    /// subtype reading as the empty text.
    pub proof fn lemma_missions_of_type(&self, t: RevTables, ty: Seq<char>, sub: Seq<char>, v: i32)
        requires
            self.built_from(t),
        ensures
            (self.mission_types.view().contains_key(ty) && self.mission_types.view()[ty].view().contains_key(sub)
                && self.mission_types.view()[ty].view()[sub]@.contains(v)) <==> exists|i: int|
                0 <= i < t.missions@.len() && (#[trigger] t.missions@[i]).id == v && latin1_decoded(
                    t.missions@[i].defined_type@,
                ) == ty && match t.missions@[i].defined_subtype {
                    Some(b) => latin1_decoded(b@) == sub,
                    None => sub == Seq::<char>::empty(),
                },
    {
        let f = mission_type_facts(t);
        let rows = t.missions@;
        let x = Fact { key: ty, field: sub, value: v };
        let y = Fact { key: sub, field: OneField::Ids, value: v };
        lemma_nested_contains(f, ty, sub, v);
        let nf = nested(f, ty);
        lemma_fact_list_contains(nf, sub, OneField::Ids, v);
        if f.contains(x) {
            let j = choose|j: int| 0 <= j < f.len() && f[j] == x;
            assert(rows[j].id == v);
            assert(f[j].key == ty);
            assert(fact_keys(f).contains(ty));
            let q = choose|q: int| 0 <= q < nf.len() && nf[q] == y;
            assert(nf[q].key == sub);
            assert(fact_keys(nf).contains(sub));
        }
        if exists|i: int|
            0 <= i < rows.len() && (#[trigger] rows[i]).id == v && latin1_decoded(rows[i].defined_type@) == ty
                && match rows[i].defined_subtype {
                Some(b) => latin1_decoded(b@) == sub,
                None => sub == Seq::<char>::empty(),
            } {
            let i = choose|i: int|
                0 <= i < rows.len() && (#[trigger] rows[i]).id == v && latin1_decoded(rows[i].defined_type@) == ty
                    && match rows[i].defined_subtype {
                    Some(b) => latin1_decoded(b@) == sub,
                    None => sub == Seq::<char>::empty(),
                };
            assert(f[i] == x);
        }
        if self.mission_types.view().contains_key(ty) {
            let inner = self.mission_types.view()[ty].view();
            if inner.contains_key(sub) {
                assert(inner[sub].list_of(OneField::Ids) == fact_list(nf, sub, OneField::Ids));
            }
        }
    }
}

/// Whether a row has a gate that reads `name`, and is filed under `v`.
pub open spec fn gate_gives<T: Gated>(r: T, name: Seq<char>, v: i32) -> bool {
    r.gate_spec() is Some && latin1_decoded(r.gate_spec()->Some_0) == name && r.gated_id() == v
}

/// What a table files by game version: a fact exactly where one of its
/// rows has a gate that reads its key and is filed under its value.
proof fn lemma_gate_facts_contains<G, T: Gated>(rows: Seq<T>, field: G, x: Fact<Seq<char>, G>)
    ensures
        gate_facts(rows, field).contains(x) <==> (x.field == field && exists|i: int|
            0 <= i < rows.len() && gate_gives(#[trigger] rows[i], x.key, x.value)),
    decreases rows.len(),
{
    if rows.len() == 0 {
        assert(gate_facts(rows, field) =~= Seq::<Fact<Seq<char>, G>>::empty());
    } else {
        let n = rows.len() - 1;
        let init = rows.drop_last();
        lemma_gate_facts_contains(init, field, x);
        let r = rows[n];
        let rest = gate_facts(init, field);
        let one = match r.gate_spec() {
            Some(g) => seq![Fact { key: latin1_decoded(g), field, value: r.gated_id() }],
            None => Seq::<Fact<Seq<char>, G>>::empty(),
        };
        assert(rows.last() == r);
        assert(gate_facts(rows, field) == rest + one);
        match r.gate_spec() {
            Some(g) => {
                lemma_one_fact(Fact { key: latin1_decoded(g), field, value: r.gated_id() }, x);
            },
            None => {},
        }
        if exists|i: int| 0 <= i < rows.len() && gate_gives(#[trigger] rows[i], x.key, x.value) {
            let i = choose|i: int| 0 <= i < rows.len() && gate_gives(#[trigger] rows[i], x.key, x.value);
            if i < n {
                assert(init[i] == rows[i]);
            }
        }
        if exists|i: int| 0 <= i < init.len() && gate_gives(#[trigger] init[i], x.key, x.value) {
            let i = choose|i: int| 0 <= i < init.len() && gate_gives(#[trigger] init[i], x.key, x.value);
            assert(rows[i] == init[i]);
        }
    }
}

/// A single fact is the one fact it holds.
proof fn lemma_one_fact<K, F>(e: Fact<K, F>, x: Fact<K, F>)
    ensures
        seq![e].contains(x) <==> e == x,
{
    if seq![e].contains(x) {
        let j = choose|j: int| 0 <= j < 1 && seq![e][j] == x;
    }
    if e == x {
        assert(seq![e][0] == x);
    }
}

/// Whether a row of a plain gated table has a gate that reads `name` and
/// the id `v`.
pub open spec fn gated_rows_have(rows: Seq<GatedRow>, name: Seq<char>, v: i32) -> bool {
    exists|i: int|
        0 <= i < rows.len() && (#[trigger] rows[i]).id == v && rows[i].gate_version is Some && latin1_decoded(
            rows[i].gate_version->Some_0@,
        ) == name
}

/// Whether a table's optional gate column reads `name`.
pub open spec fn gate_reads(gate: Option<Vec<u8>>, name: Seq<char>) -> bool {
    gate is Some && latin1_decoded(gate->Some_0@) == name
}

/// Whether game version `name` unlocks `v` under `g`: some row of the table
/// of `g` has a gate that reads `name` and is filed under `v` (by its
/// `id`, an item set by its `setID`, a mission task by its `uid`, a skill
/// by its `skillID`).
pub open spec fn gate_unlocks(t: RevTables, name: Seq<char>, g: GateField, v: i32) -> bool {
    match g {
        GateField::Activities => gated_rows_have(t.activities@, name, v),
        GateField::DeletionRestrictions => exists|i: int|
            0 <= i < t.deletion_restrictions@.len() && (#[trigger] t.deletion_restrictions@[i]).id == v
                && gate_reads(t.deletion_restrictions@[i].gate_version, name),
        GateField::Emotes => gated_rows_have(t.emotes@, name, v),
        GateField::LootMatrix => gated_rows_have(t.loot_matrix@, name, v),
        GateField::ItemSets => exists|i: int|
            0 <= i < t.item_sets@.len() && (#[trigger] t.item_sets@[i]).set_id == v && gate_reads(
                t.item_sets@[i].gate_version,
                name,
            ),
        GateField::Missions => exists|i: int|
            0 <= i < t.missions@.len() && (#[trigger] t.missions@[i]).id == v && gate_reads(
                t.missions@[i].gate_version,
                name,
            ),
        GateField::MissionTasks => exists|i: int|
            0 <= i < t.mission_tasks@.len() && (#[trigger] t.mission_tasks@[i]).uid == v && gate_reads(
                t.mission_tasks@[i].gate_version,
                name,
            ),
        GateField::Objects => exists|i: int|
            0 <= i < t.objects@.len() && (#[trigger] t.objects@[i]).id == v && gate_reads(
                t.objects@[i].gate_version,
                name,
            ),
        GateField::PlayerStatistics => gated_rows_have(t.player_statistics@, name, v),
        GateField::Preconditions => gated_rows_have(t.preconditions@, name, v),
        GateField::PropertyTemplate => gated_rows_have(t.property_template@, name, v),
        GateField::RewardCodes => exists|i: int|
            0 <= i < t.reward_codes@.len() && (#[trigger] t.reward_codes@[i]).id == v && gate_reads(
                t.reward_codes@[i].gate_version,
                name,
            ),
        GateField::SpeedchatMenu => gated_rows_have(t.speedchat_menu@, name, v),
        GateField::Skills => exists|i: int|
            0 <= i < t.skills@.len() && (#[trigger] t.skills@[i]).skill_id == v && gate_reads(
                t.skills@[i].gate_version,
                name,
            ),
        GateField::UgBehaviorSounds => gated_rows_have(t.ug_behavior_sounds@, name, v),
        GateField::WhatsCoolItemSpotlight => gated_rows_have(t.whats_cool_item_spotlight@, name, v),
        GateField::WhatsCoolNewsAndTips => gated_rows_have(t.whats_cool_news_and_tips@, name, v),
        GateField::ZoneLoadingTips => exists|i: int|
            0 <= i < t.zone_loading_tips@.len() && (#[trigger] t.zone_loading_tips@[i]).id == v && latin1_decoded(
                t.zone_loading_tips@[i].gate_version@,
            ) == name,
        GateField::Zones => gated_rows_have(t.zone_table@, name, v),
    }
}

/// What all tables file by game version: a fact exactly where its version
/// unlocks its value under its field.
proof fn lemma_gate_fact(t: RevTables, x: Fact<Seq<char>, GateField>)
    ensures
        gate_version_facts(t).contains(x) <==> gate_unlocks(t, x.key, x.field, x.value),
{
    lemma_gate_facts_contains(t.activities@, GateField::Activities, x);
    lemma_gate_facts_contains(t.deletion_restrictions@, GateField::DeletionRestrictions, x);
    lemma_gate_facts_contains(t.emotes@, GateField::Emotes, x);
    lemma_gate_facts_contains(t.loot_matrix@, GateField::LootMatrix, x);
    lemma_gate_facts_contains(t.item_sets@, GateField::ItemSets, x);
    lemma_gate_facts_contains(t.missions@, GateField::Missions, x);
    lemma_gate_facts_contains(t.mission_tasks@, GateField::MissionTasks, x);
    lemma_gate_facts_contains(t.objects@, GateField::Objects, x);
    lemma_gate_facts_contains(t.player_statistics@, GateField::PlayerStatistics, x);
    lemma_gate_facts_contains(t.preconditions@, GateField::Preconditions, x);
    lemma_gate_facts_contains(t.property_template@, GateField::PropertyTemplate, x);
    lemma_gate_facts_contains(t.reward_codes@, GateField::RewardCodes, x);
    lemma_gate_facts_contains(t.skills@, GateField::Skills, x);
    lemma_gate_facts_contains(t.speedchat_menu@, GateField::SpeedchatMenu, x);
    lemma_gate_facts_contains(t.ug_behavior_sounds@, GateField::UgBehaviorSounds, x);
    lemma_gate_facts_contains(t.whats_cool_item_spotlight@, GateField::WhatsCoolItemSpotlight, x);
    lemma_gate_facts_contains(t.whats_cool_news_and_tips@, GateField::WhatsCoolNewsAndTips, x);
    lemma_gate_facts_contains(t.zone_loading_tips@, GateField::ZoneLoadingTips, x);
    lemma_gate_facts_contains(t.zone_table@, GateField::Zones, x);
}

impl ReverseLookup {
    /// What a game version unlocks: version `name` has `v` under `g`
    /// exactly where `gate_unlocks` tells so by the rows' columns.
    pub proof fn lemma_gate_unlocks(&self, t: RevTables, name: Seq<char>, g: GateField, v: i32)
        requires
            self.built_from(t),
        ensures
            (self.gate_versions.view().contains_key(name) && self.gate_versions.view()[name].set_of(g).contains(v))
                <==> gate_unlocks(t, name, g, v),
    {
        let x = Fact { key: name, field: g, value: v };
        lemma_gate_fact(t, x);
        lemma_set_holds(self.gate_versions.view(), gate_version_facts(t), x);
    }
}

impl ReverseLookup {
    /// Each list of an object entry, by the column that feeds it: the
    /// entry of object `k` lists `v` in a list exactly where a row of the
    /// table behind that list puts it there; no table feeds the pet taming
    /// lists.
    pub proof fn lemma_object_lists(&self, t: RevTables, k: i32, v: i32)
        requires
            self.built_from(t),
        ensures
            (self.objects.rev@.contains_key(k) && self.objects.rev@[k].deletion_restrictions@.contains(v)) <==> exists|i: int|
                0 <= i < t.deletion_restrictions@.len() && deletion_refers(#[trigger] t.deletion_restrictions@[i], k, ObjectField::DeletionRestrictions, v),
            (self.objects.rev@.contains_key(k) && self.objects.rev@[k].inventory_component@.contains(v)) <==> exists|i: int|
                0 <= i < t.inventory_component@.len() && inventory_refers(#[trigger] t.inventory_component@[i], k, ObjectField::InventoryComponent, v),
            (self.objects.rev@.contains_key(k) && self.objects.rev@[k].item_component.currency_lot@.contains(v)) <==> exists|i: int|
                0 <= i < t.item_component@.len() && item_component_refers(#[trigger] t.item_component@[i], k, ObjectField::CurrencyLot, v),
            (self.objects.rev@.contains_key(k) && self.objects.rev@[k].item_component.commendation_lot@.contains(v)) <==> exists|i: int|
                0 <= i < t.item_component@.len() && item_component_refers(#[trigger] t.item_component@[i], k, ObjectField::CommendationLot, v),
            (self.objects.rev@.contains_key(k) && self.objects.rev@[k].item_component.subitems@.contains(v)) <==> exists|i: int|
                0 <= i < t.item_component@.len() && item_component_refers(#[trigger] t.item_component@[i], k, ObjectField::Subitems, v),
            (self.objects.rev@.contains_key(k) && self.objects.rev@[k].item_sets@.contains(v)) <==> exists|i: int|
                0 <= i < t.item_sets@.len() && item_set_refers(#[trigger] t.item_sets@[i], k, ObjectField::ItemSets, v),
            (self.objects.rev@.contains_key(k) && self.objects.rev@[k].jet_pack_pad_component.lot_blocker@.contains(v)) <==> exists|i: int|
                0 <= i < t.jet_pack_pad_component@.len() && jet_pack_refers(#[trigger] t.jet_pack_pad_component@[i], k, ObjectField::LotBlocker, v),
            (self.objects.rev@.contains_key(k) && self.objects.rev@[k].jet_pack_pad_component.lot_warning_volume@.contains(v)) <==> exists|i: int|
                0 <= i < t.jet_pack_pad_component@.len() && jet_pack_refers(#[trigger] t.jet_pack_pad_component@[i], k, ObjectField::LotWarningVolume, v),
            (self.objects.rev@.contains_key(k) && self.objects.rev@[k].npc_icons_lot@.contains(v)) <==> exists|i: int|
                0 <= i < t.npc_icons@.len() && npc_icon_refers(#[trigger] t.npc_icons@[i], k, ObjectField::NpcIconsLot, v),
            (self.objects.rev@.contains_key(k) && self.objects.rev@[k].rebuild_sections@.contains(v)) <==> exists|i: int|
                0 <= i < t.rebuild_sections@.len() && rebuild_section_refers(#[trigger] t.rebuild_sections@[i], k, ObjectField::RebuildSections, v),
            (self.objects.rev@.contains_key(k) && self.objects.rev@[k].missions.reward_items@.contains(v)) <==> exists|i: int|
                0 <= i < t.missions@.len() && mission_rewards(#[trigger] t.missions@[i], k, ObjectField::RewardItems, v),
            (self.objects.rev@.contains_key(k) && self.objects.rev@[k].reward_codes@.contains(v)) <==> exists|i: int|
                0 <= i < t.reward_codes@.len() && reward_code_refers(#[trigger] t.reward_codes@[i], k, ObjectField::RewardCodes, v),
            !(self.objects.rev@.contains_key(k) && self.objects.rev@[k].pet_taming_puzzles.model_lot@.contains(v)),
            !(self.objects.rev@.contains_key(k) && self.objects.rev@[k].pet_taming_puzzles.npc_lot@.contains(v)),
    {
        self.lemma_object_uses(t, k, ObjectField::DeletionRestrictions, v);
        self.lemma_object_uses(t, k, ObjectField::InventoryComponent, v);
        self.lemma_object_uses(t, k, ObjectField::CurrencyLot, v);
        self.lemma_object_uses(t, k, ObjectField::CommendationLot, v);
        self.lemma_object_uses(t, k, ObjectField::Subitems, v);
        self.lemma_object_uses(t, k, ObjectField::ItemSets, v);
        self.lemma_object_uses(t, k, ObjectField::LotBlocker, v);
        self.lemma_object_uses(t, k, ObjectField::LotWarningVolume, v);
        self.lemma_object_uses(t, k, ObjectField::NpcIconsLot, v);
        self.lemma_object_uses(t, k, ObjectField::RebuildSections, v);
        self.lemma_object_uses(t, k, ObjectField::RewardItems, v);
        self.lemma_object_uses(t, k, ObjectField::RewardCodes, v);
        self.lemma_object_uses(t, k, ObjectField::ModelLot, v);
        self.lemma_object_uses(t, k, ObjectField::NpcLot, v);
    }
}

impl ReverseLookup {
    /// Each list of a skill entry, by the table that feeds it.
    pub proof fn lemma_skill_lists(&self, t: RevTables, k: i32, v: i32)
        requires
            self.built_from(t),
        ensures
            (self.skill_ids@.contains_key(k) && self.skill_ids@[k].item_sets@.contains(v)) <==> skill_refers(
                t,
                k,
                SkillField::ItemSets,
                v,
            ),
            (self.skill_ids@.contains_key(k) && self.skill_ids@[k].mission_tasks@.contains(v)) <==> skill_refers(
                t,
                k,
                SkillField::MissionTasks,
                v,
            ),
            (self.skill_ids@.contains_key(k) && self.skill_ids@[k].objects@.contains(v)) <==> skill_refers(
                t,
                k,
                SkillField::Objects,
                v,
            ),
    {
        self.lemma_skill_uses(t, k, SkillField::ItemSets, v);
        self.lemma_skill_uses(t, k, SkillField::MissionTasks, v);
        self.lemma_skill_uses(t, k, SkillField::Objects, v);
    }
}

impl ReverseLookup {
    /// Each list of a game version entry, by the table that feeds it.
    pub proof fn lemma_gate_lists(&self, t: RevTables, name: Seq<char>, v: i32)
        requires
            self.built_from(t),
        ensures
            (self.gate_versions.view().contains_key(name) && self.gate_versions.view()[name].activities@.contains(v))
                <==> gate_unlocks(t, name, GateField::Activities, v),
            (self.gate_versions.view().contains_key(name) && self.gate_versions.view()[name].deletion_restrictions@.contains(v))
                <==> gate_unlocks(t, name, GateField::DeletionRestrictions, v),
            (self.gate_versions.view().contains_key(name) && self.gate_versions.view()[name].emotes@.contains(v))
                <==> gate_unlocks(t, name, GateField::Emotes, v),
            (self.gate_versions.view().contains_key(name) && self.gate_versions.view()[name].loot_matrix@.contains(v))
                <==> gate_unlocks(t, name, GateField::LootMatrix, v),
            (self.gate_versions.view().contains_key(name) && self.gate_versions.view()[name].item_sets@.contains(v))
                <==> gate_unlocks(t, name, GateField::ItemSets, v),
            (self.gate_versions.view().contains_key(name) && self.gate_versions.view()[name].missions@.contains(v))
                <==> gate_unlocks(t, name, GateField::Missions, v),
            (self.gate_versions.view().contains_key(name) && self.gate_versions.view()[name].mission_tasks@.contains(v))
                <==> gate_unlocks(t, name, GateField::MissionTasks, v),
            (self.gate_versions.view().contains_key(name) && self.gate_versions.view()[name].objects@.contains(v))
                <==> gate_unlocks(t, name, GateField::Objects, v),
            (self.gate_versions.view().contains_key(name) && self.gate_versions.view()[name].player_statistics@.contains(v))
                <==> gate_unlocks(t, name, GateField::PlayerStatistics, v),
            (self.gate_versions.view().contains_key(name) && self.gate_versions.view()[name].preconditions@.contains(v))
                <==> gate_unlocks(t, name, GateField::Preconditions, v),
            (self.gate_versions.view().contains_key(name) && self.gate_versions.view()[name].property_template@.contains(v))
                <==> gate_unlocks(t, name, GateField::PropertyTemplate, v),
            (self.gate_versions.view().contains_key(name) && self.gate_versions.view()[name].reward_codes@.contains(v))
                <==> gate_unlocks(t, name, GateField::RewardCodes, v),
            (self.gate_versions.view().contains_key(name) && self.gate_versions.view()[name].speedchat_menu@.contains(v))
                <==> gate_unlocks(t, name, GateField::SpeedchatMenu, v),
            (self.gate_versions.view().contains_key(name) && self.gate_versions.view()[name].skills@.contains(v))
                <==> gate_unlocks(t, name, GateField::Skills, v),
            (self.gate_versions.view().contains_key(name) && self.gate_versions.view()[name].ug_behavior_sounds@.contains(v))
                <==> gate_unlocks(t, name, GateField::UgBehaviorSounds, v),
            (self.gate_versions.view().contains_key(name) && self.gate_versions.view()[name].whats_cool_item_spotlight@.contains(v))
                <==> gate_unlocks(t, name, GateField::WhatsCoolItemSpotlight, v),
            (self.gate_versions.view().contains_key(name) && self.gate_versions.view()[name].whats_cool_news_and_tips@.contains(v))
                <==> gate_unlocks(t, name, GateField::WhatsCoolNewsAndTips, v),
            (self.gate_versions.view().contains_key(name) && self.gate_versions.view()[name].zone_loading_tips@.contains(v))
                <==> gate_unlocks(t, name, GateField::ZoneLoadingTips, v),
            (self.gate_versions.view().contains_key(name) && self.gate_versions.view()[name].zones@.contains(v))
                <==> gate_unlocks(t, name, GateField::Zones, v),
    {
        self.lemma_gate_unlocks(t, name, GateField::Activities, v);
        self.lemma_gate_unlocks(t, name, GateField::DeletionRestrictions, v);
        self.lemma_gate_unlocks(t, name, GateField::Emotes, v);
        self.lemma_gate_unlocks(t, name, GateField::LootMatrix, v);
        self.lemma_gate_unlocks(t, name, GateField::ItemSets, v);
        self.lemma_gate_unlocks(t, name, GateField::Missions, v);
        self.lemma_gate_unlocks(t, name, GateField::MissionTasks, v);
        self.lemma_gate_unlocks(t, name, GateField::Objects, v);
        self.lemma_gate_unlocks(t, name, GateField::PlayerStatistics, v);
        self.lemma_gate_unlocks(t, name, GateField::Preconditions, v);
        self.lemma_gate_unlocks(t, name, GateField::PropertyTemplate, v);
        self.lemma_gate_unlocks(t, name, GateField::RewardCodes, v);
        self.lemma_gate_unlocks(t, name, GateField::SpeedchatMenu, v);
        self.lemma_gate_unlocks(t, name, GateField::Skills, v);
        self.lemma_gate_unlocks(t, name, GateField::UgBehaviorSounds, v);
        self.lemma_gate_unlocks(t, name, GateField::WhatsCoolItemSpotlight, v);
        self.lemma_gate_unlocks(t, name, GateField::WhatsCoolNewsAndTips, v);
        self.lemma_gate_unlocks(t, name, GateField::ZoneLoadingTips, v);
        self.lemma_gate_unlocks(t, name, GateField::Zones, v);
    }
}

} // verus!
