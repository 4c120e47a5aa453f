//! # Index structures
//!
//! The reverse lookup: indices over the game database that answer "what
//! refers to this id", built once at startup from the tables of
//! [`super::rows::RevTables`] and then only read.

use vstd::prelude::*;
use vstd::std_specs::iter::IteratorSpec;
use std::collections::{BTreeMap, BTreeSet, HashMap};
use crate::latin1::{decode, latin1_decoded};
use crate::data::skill_system::is_action_key;
use crate::strmap::StrMap;
use crate::text::{parse_i32, str_chars};
use super::facts::faction_list_value;
use super::fill::{add_gates, add_table, hpush_table, push_table};
use super::index::{
    Fact, OneField, SetRecord, fact_keys, fact_set, last_values, lemma_absent_key,
    lemma_fact_keys_push, lemma_last_values_push, lemma_nested_absent, lemma_nested_push, lemma_no_facts, list_index,
    nested, no_scalars, set_index, index_push, str_index_push,
};
use super::records::{
    ActivityRev, BehaviorField, BehaviorKeyIndex, ComponentUse, ComponentsUse, FactionField,
    FactionRev, GateField, GateVersionUse, LootTableIndexRev, MissionField, MissionRev,
    MissionTaskUIDLookup, ObjectField, ObjectStrings, ObjectsUse, SkillCooldownGroup, SkillField,
    SkillIdLookup,
};
use super::rows::{
    BehaviorParameterRow, CollectibleComponentRow, ComponentsRegistryRow, CurrencyDenominationRow,
    DeletionRestrictionRow, DestructibleComponentRow, GatedRow, InventoryComponentRow,
    ItemComponentRow, ItemSetRow, ItemSetSkillRow, JetPackPadComponentRow, LootTableRow,
    MissionRow, MissionTaskRow, NpcIconRow, ObjectRow, ObjectSkillRow, RebuildComponentRow,
    RebuildSectionRow, RevTables, RewardCodeRow, SkillRow, ZoneLoadingTipRow, Feeds, gate_facts,
    opt_bytes, table_facts,
};

verus! {

broadcast use vstd::seq_lib::group_seq_properties;

/// The links between behaviors and to skills.
pub open spec fn behavior_facts(t: RevTables) -> Seq<Fact<i32, BehaviorField>> {
    table_facts::<BehaviorField, BehaviorParameterRow>(t.behavior_parameters@) + table_facts::<
        BehaviorField,
        SkillRow,
    >(t.skills@)
}

/// Whether some behavior parameter of the rows makes behavior `a` use
/// behavior `b`: a parameter of `a` with an action name whose value is `b`.
pub open spec fn param_links(rows: Seq<BehaviorParameterRow>, a: i32, b: i32) -> bool {
    exists|i: int|
        0 <= i < rows.len() && (#[trigger] rows[i]).behavior_id == a && is_action_key(rows[i].parameter_id@) && rows[i].value == b
}

/// A fact of the rows is a fact of one row.
pub(crate) proof fn lemma_table_facts_contains<F, T: Feeds<F>>(rows: Seq<T>, x: Fact<i32, F>)
    ensures
        table_facts::<F, T>(rows).contains(x) <==> exists|i: int|
            0 <= i < rows.len() && (#[trigger] rows[i]).fed().contains(x),
    decreases rows.len(),
{
    let f = |r: T| r.fed();
    if rows.len() == 0 {
        assert(rows.map_values(f) =~= Seq::<Seq<Fact<i32, F>>>::empty());
        assert(table_facts::<F, T>(rows) =~= Seq::<Fact<i32, F>>::empty());
    } else {
        let init = rows.drop_last();
        lemma_table_facts_contains::<F, T>(init, x);
        assert(rows.map_values(f) =~= init.map_values(f).push(rows.last().fed()));
        init.map_values(f).lemma_flatten_push(rows.last().fed());
        let a = table_facts::<F, T>(init);
        let b = rows.last().fed();
        assert(table_facts::<F, T>(rows) == a + b);
        vstd::seq_lib::lemma_seq_concat_contains_all_elements(a, b, x);
        if (a + b).contains(x) {
            let j = choose|j: int| 0 <= j < (a + b).len() && (a + b)[j] == x;
            if j < a.len() {
                assert(a[j] == x);
            } else {
                assert(b[j - a.len()] == x);
                assert(rows[rows.len() - 1] == rows.last());
            }
        }
        if exists|i: int| 0 <= i < rows.len() && (#[trigger] rows[i]).fed().contains(x) {
            let i = choose|i: int| 0 <= i < rows.len() && (#[trigger] rows[i]).fed().contains(x);
            if i < init.len() {
                assert(init[i] == rows[i]);
            }
        }
    }
}

/// The skills only tell a behavior's skill.
proof fn lemma_skill_facts(rows: Seq<SkillRow>, x: Fact<i32, BehaviorField>)
    requires
        table_facts::<BehaviorField, SkillRow>(rows).contains(x),
    ensures
        x.field == BehaviorField::Skill,
{
    lemma_table_facts_contains::<BehaviorField, SkillRow>(rows, x);
    let i = choose|i: int|
        0 <= i < rows.len() && <SkillRow as Feeds<BehaviorField>>::fed(#[trigger] &rows[i]).contains(x);
    let fed = <SkillRow as Feeds<BehaviorField>>::fed(&rows[i]);
    let k = choose|k: int| 0 <= k < fed.len() && fed[k] == x;
}

/// Whether the behavior facts hold `x`: exactly where one behavior
/// parameter row gives it.
proof fn lemma_behavior_fact(t: RevTables, x: Fact<i32, BehaviorField>)
    requires
        x.field != BehaviorField::Skill,
    ensures
        behavior_facts(t).contains(x) <==> exists|i: int|
            0 <= i < t.behavior_parameters@.len() && (#[trigger] t.behavior_parameters@[i]).fed().contains(x),
{
    let a = table_facts::<BehaviorField, BehaviorParameterRow>(t.behavior_parameters@);
    let b = table_facts::<BehaviorField, SkillRow>(t.skills@);
    lemma_table_facts_contains::<BehaviorField, BehaviorParameterRow>(t.behavior_parameters@, x);
    vstd::seq_lib::lemma_seq_concat_contains_all_elements(a, b, x);
    if (a + b).contains(x) {
        let j = choose|j: int| 0 <= j < (a + b).len() && (a + b)[j] == x;
        if j < a.len() {
            assert(a[j] == x);
        } else {
            assert(b[j - a.len()] == x);
            lemma_skill_facts(t.skills@, x);
        }
    }
}

/// A set index holds a fact exactly where the facts have it.
proof fn lemma_index_holds(m: Map<i32, BehaviorKeyIndex>, f: Seq<Fact<i32, BehaviorField>>, x: Fact<i32, BehaviorField>)
    requires
        set_index(m, f),
    ensures
        (m.contains_key(x.key) && m[x.key].set_of(x.field).contains(x.value)) <==> f.contains(x),
{
    if f.contains(x) {
        let j = choose|j: int| 0 <= j < f.len() && f[j] == x;
        assert(fact_keys(f).contains(x.key));
        assert(fact_set(f, x.key, x.field).contains(x.value));
    }
    if m.contains_key(x.key) {
        assert(m[x.key].set_of(x.field) == fact_set(f, x.key, x.field));
    }
}

/// The behavior facts link `a` to `b`, both ways, exactly where a behavior
/// parameter does.
proof fn lemma_link_facts(t: RevTables, a: i32, b: i32)
    ensures
        behavior_facts(t).contains(Fact { key: a, field: BehaviorField::Uses, value: b }) <==> param_links(
            t.behavior_parameters@,
            a,
            b,
        ),
        behavior_facts(t).contains(Fact { key: b, field: BehaviorField::UsedBy, value: a }) <==> param_links(
            t.behavior_parameters@,
            a,
            b,
        ),
{
    let rows = t.behavior_parameters@;
    let xu = Fact { key: a, field: BehaviorField::Uses, value: b };
    let xb = Fact { key: b, field: BehaviorField::UsedBy, value: a };
    lemma_behavior_fact(t, xu);
    lemma_behavior_fact(t, xb);
    assert forall|i: int| 0 <= i < rows.len() implies (#[trigger] rows[i]).fed().contains(xu) == (
    rows[i].behavior_id == a && is_action_key(rows[i].parameter_id@) && rows[i].value == b)
        && rows[i].fed().contains(xb) == (rows[i].behavior_id == a && is_action_key(rows[i].parameter_id@)
        && rows[i].value == b) by {
        let fed = rows[i].fed();
        if is_action_key(rows[i].parameter_id@) {
            assert(fed[0] == Fact { key: rows[i].behavior_id, field: BehaviorField::Uses, value: rows[i].value });
            assert(fed[1] == Fact { key: rows[i].value, field: BehaviorField::UsedBy, value: rows[i].behavior_id });
            if fed.contains(xu) {
                let k = choose|k: int| 0 <= k < fed.len() && fed[k] == xu;
            }
            if fed.contains(xb) {
                let k = choose|k: int| 0 <= k < fed.len() && fed[k] == xb;
            }
        } else {
            assert(fed.len() == 0);
        }
    }
}

/// What refers to missions.
pub open spec fn mission_facts(t: RevTables) -> Seq<Fact<i32, MissionField>> {
    table_facts::<MissionField, CollectibleComponentRow>(t.collectible_component@) + table_facts::<
        MissionField,
        ItemComponentRow,
    >(t.item_component@) + table_facts::<MissionField, MissionRow>(t.missions@)
}

/// What refers to factions.
pub open spec fn faction_facts(t: RevTables) -> Seq<Fact<i32, FactionField>> {
    table_facts::<FactionField, DestructibleComponentRow>(t.destructible_component@)
}

/// The skills of each cooldown group.
pub open spec fn cooldown_facts(t: RevTables) -> Seq<Fact<i32, OneField>> {
    table_facts::<OneField, SkillRow>(t.skills@)
}

/// The rebuild components of each activity.
pub open spec fn activity_facts(t: RevTables) -> Seq<Fact<i32, OneField>> {
    table_facts::<OneField, RebuildComponentRow>(t.rebuild_component@)
}

/// What refers to skills.
pub open spec fn skill_facts(t: RevTables) -> Seq<Fact<i32, SkillField>> {
    table_facts::<SkillField, ItemSetSkillRow>(t.item_set_skills@) + table_facts::<
        SkillField,
        MissionTaskRow,
    >(t.mission_tasks@) + table_facts::<SkillField, ObjectSkillRow>(t.object_skills@)
}

/// What refers to objects.
pub open spec fn object_facts(t: RevTables) -> Seq<Fact<i32, ObjectField>> {
    table_facts::<ObjectField, DeletionRestrictionRow>(t.deletion_restrictions@) + table_facts::<
        ObjectField,
        InventoryComponentRow,
    >(t.inventory_component@) + table_facts::<ObjectField, ItemComponentRow>(t.item_component@)
        + table_facts::<ObjectField, ItemSetRow>(t.item_sets@) + table_facts::<
        ObjectField,
        JetPackPadComponentRow,
    >(t.jet_pack_pad_component@) + table_facts::<ObjectField, MissionRow>(t.missions@)
        + table_facts::<ObjectField, NpcIconRow>(t.npc_icons@) + table_facts::<
        ObjectField,
        RebuildSectionRow,
    >(t.rebuild_sections@) + table_facts::<ObjectField, RewardCodeRow>(t.reward_codes@)
}

/// The component types, and per type the components, that objects have.
pub open spec fn component_facts(t: RevTables) -> Seq<Fact<i32, i32>> {
    table_facts::<i32, ComponentsRegistryRow>(t.comp_reg@)
}

/// The items of each loot table index, by loot table row.
pub open spec fn loot_facts(t: RevTables) -> Seq<Fact<i32, i32>> {
    table_facts::<i32, LootTableRow>(t.loot_table@)
}

/// The denomination of each currency object, one pair per row.
pub open spec fn currency_pairs(t: RevTables) -> Seq<(i32, i32)> {
    t.currency_denominations@.map_values(|r: CurrencyDenominationRow| (r.objectid, r.value))
}

/// The mission of each mission task, one pair per row.
pub open spec fn task_pairs(t: RevTables) -> Seq<(i32, MissionTaskUIDLookup)> {
    t.mission_tasks@.map_values(|r: MissionTaskRow| (r.uid, MissionTaskUIDLookup { mission: r.id }))
}

/// The text of an optional database string.
pub open spec fn opt_decoded(o: Option<Vec<u8>>) -> Option<Seq<char>> {
    match o {
        Some(b) => Some(latin1_decoded(b@)),
        None => None,
    }
}

/// The search texts of an object row.
pub open spec fn object_texts(o: ObjectRow) -> (
    Seq<char>,
    Option<Seq<char>>,
    Option<Seq<char>>,
    Option<Seq<char>>,
) {
    (
        latin1_decoded(o.name@),
        opt_decoded(o.description),
        opt_decoded(o.display_name),
        opt_decoded(o.internal_notes),
    )
}

/// The search texts of each object, one pair per row.
pub open spec fn search_pairs(t: RevTables) -> Seq<
    (i32, (Seq<char>, Option<Seq<char>>, Option<Seq<char>>, Option<Seq<char>>)),
> {
    t.objects@.map_values(|o: ObjectRow| (o.id, object_texts(o)))
}

/// The missions of each defined type and subtype (a missing subtype is
/// the empty text).
pub open spec fn mission_type_facts(t: RevTables) -> Seq<Fact<Seq<char>, Seq<char>>> {
    t.missions@.map_values(
        |m: MissionRow|
            Fact {
                key: latin1_decoded(m.defined_type@),
                field: match opt_decoded(m.defined_subtype) {
                    Some(s) => s,
                    None => Seq::empty(),
                },
                value: m.id,
            },
    )
}

/// The objects of each type.
pub open spec fn object_type_facts(t: RevTables) -> Seq<Fact<Seq<char>, OneField>> {
    t.objects@.map_values(
        |o: ObjectRow| Fact { key: latin1_decoded(o.object_type@), field: OneField::Ids, value: o.id },
    )
}

/// What each game version unlocks.
pub open spec fn gate_version_facts(t: RevTables) -> Seq<Fact<Seq<char>, GateField>> {
    gate_facts(t.activities@, GateField::Activities) + gate_facts(
        t.deletion_restrictions@,
        GateField::DeletionRestrictions,
    ) + gate_facts(t.emotes@, GateField::Emotes) + gate_facts(t.loot_matrix@, GateField::LootMatrix)
        + gate_facts(t.item_sets@, GateField::ItemSets) + gate_facts(
        t.missions@,
        GateField::Missions,
    ) + gate_facts(t.mission_tasks@, GateField::MissionTasks) + gate_facts(
        t.objects@,
        GateField::Objects,
    ) + gate_facts(t.player_statistics@, GateField::PlayerStatistics) + gate_facts(
        t.preconditions@,
        GateField::Preconditions,
    ) + gate_facts(t.property_template@, GateField::PropertyTemplate) + gate_facts(
        t.reward_codes@,
        GateField::RewardCodes,
    ) + gate_facts(t.skills@, GateField::Skills) + gate_facts(
        t.speedchat_menu@,
        GateField::SpeedchatMenu,
    ) + gate_facts(t.ug_behavior_sounds@, GateField::UgBehaviorSounds) + gate_facts(
        t.whats_cool_item_spotlight@,
        GateField::WhatsCoolItemSpotlight,
    ) + gate_facts(t.whats_cool_news_and_tips@, GateField::WhatsCoolNewsAndTips) + gate_facts(
        t.zone_loading_tips@,
        GateField::ZoneLoadingTips,
    ) + gate_facts(t.zone_table@, GateField::Zones)
}

fn empty_set_index<R: SetRecord>() -> (m: BTreeMap<i32, R>)
    ensures
        set_index(m@, Seq::empty()),
        no_scalars(m@),
{
    let m: BTreeMap<i32, R> = BTreeMap::new();
    proof {
        lemma_no_facts::<i32, R::Field>(0, arbitrary());
        assert(m@.dom() =~= fact_keys(Seq::<Fact<i32, R::Field>>::empty()));
    }
    m
}

fn build_behaviors(t: &RevTables) -> (m: BTreeMap<i32, BehaviorKeyIndex>)
    ensures
        set_index(m@, behavior_facts(*t)),
{
    let mut m = empty_set_index();
    add_table(&mut m, Ghost(Seq::empty()), t.behavior_parameters.as_slice());
    let ghost f1 = Seq::empty() + table_facts::<BehaviorField, BehaviorParameterRow>(t.behavior_parameters@);
    add_table(&mut m, Ghost(f1), t.skills.as_slice());
    assert(f1 + table_facts::<BehaviorField, SkillRow>(t.skills@) =~= behavior_facts(*t));
    m
}

fn build_missions(t: &RevTables) -> (m: BTreeMap<i32, MissionRev>)
    ensures
        set_index(m@, mission_facts(*t)),
{
    let mut m = empty_set_index();
    add_table(&mut m, Ghost(Seq::empty()), t.collectible_component.as_slice());
    let ghost f1 = Seq::empty() + table_facts::<MissionField, CollectibleComponentRow>(
        t.collectible_component@,
    );
    add_table(&mut m, Ghost(f1), t.item_component.as_slice());
    let ghost f2 = f1 + table_facts::<MissionField, ItemComponentRow>(t.item_component@);
    add_table(&mut m, Ghost(f2), t.missions.as_slice());
    assert(f2 + table_facts::<MissionField, MissionRow>(t.missions@) =~= mission_facts(*t));
    m
}

fn build_factions(t: &RevTables) -> (m: BTreeMap<i32, FactionRev>)
    ensures
        set_index(m@, faction_facts(*t)),
{
    let mut m = empty_set_index();
    add_table(&mut m, Ghost(Seq::empty()), t.destructible_component.as_slice());
    assert(Seq::empty() + table_facts::<FactionField, DestructibleComponentRow>(
        t.destructible_component@,
    ) =~= faction_facts(*t));
    m
}

fn build_cooldown_groups(t: &RevTables) -> (m: BTreeMap<i32, SkillCooldownGroup>)
    ensures
        set_index(m@, cooldown_facts(*t)),
{
    let mut m = empty_set_index();
    add_table(&mut m, Ghost(Seq::empty()), t.skills.as_slice());
    assert(Seq::empty() + table_facts::<OneField, SkillRow>(t.skills@) =~= cooldown_facts(*t));
    m
}

fn build_activities(t: &RevTables) -> (m: BTreeMap<i32, ActivityRev>)
    ensures
        list_index(m@, activity_facts(*t)),
{
    let mut m: BTreeMap<i32, ActivityRev> = BTreeMap::new();
    proof {
        lemma_no_facts::<i32, OneField>(0, OneField::Ids);
        assert(m@.dom() =~= fact_keys(Seq::<Fact<i32, OneField>>::empty()));
    }
    push_table(&mut m, Ghost(Seq::empty()), t.rebuild_component.as_slice());
    assert(Seq::empty() + table_facts::<OneField, RebuildComponentRow>(t.rebuild_component@)
        =~= activity_facts(*t));
    m
}

fn build_skill_ids(t: &RevTables) -> (m: HashMap<i32, SkillIdLookup>)
    ensures
        list_index(m@, skill_facts(*t)),
{
    let mut m: HashMap<i32, SkillIdLookup> = HashMap::new();
    proof {
        lemma_no_facts::<i32, SkillField>(0, SkillField::ItemSets);
        assert(m@.dom() =~= fact_keys(Seq::<Fact<i32, SkillField>>::empty()));
    }
    hpush_table(&mut m, Ghost(Seq::empty()), t.item_set_skills.as_slice());
    let ghost f1 = Seq::empty() + table_facts::<SkillField, ItemSetSkillRow>(t.item_set_skills@);
    hpush_table(&mut m, Ghost(f1), t.mission_tasks.as_slice());
    let ghost f2 = f1 + table_facts::<SkillField, MissionTaskRow>(t.mission_tasks@);
    hpush_table(&mut m, Ghost(f2), t.object_skills.as_slice());
    assert(f2 + table_facts::<SkillField, ObjectSkillRow>(t.object_skills@) =~= skill_facts(*t));
    m
}

/// The object index holds the facts about objects, and the last
/// denomination of each currency object.
pub open spec fn objects_index(
    m: Map<i32, ObjectsUse>,
    facts: Seq<Fact<i32, ObjectField>>,
    pairs: Seq<(i32, i32)>,
) -> bool {
    &&& m.dom() == fact_keys(facts).union(last_values(pairs).dom())
    &&& forall|k: i32, f: ObjectField|
        #[trigger] m.contains_key(k) ==> #[trigger] m[k].set_of(f) == fact_set(facts, k, f)
    &&& forall|k: i32|
        #[trigger] m.contains_key(k) ==> m[k].currency_denomination == (if last_values(
            pairs,
        ).contains_key(k) {
            Some(last_values(pairs)[k])
        } else {
            None
        })
}

fn build_object_uses(t: &RevTables) -> (m: BTreeMap<i32, ObjectsUse>)
    ensures
        objects_index(m@, object_facts(*t), currency_pairs(*t)),
{
    let mut m = empty_set_index();
    add_table(&mut m, Ghost(Seq::empty()), t.deletion_restrictions.as_slice());
    let ghost f1 = Seq::empty() + table_facts::<ObjectField, DeletionRestrictionRow>(
        t.deletion_restrictions@,
    );
    add_table(&mut m, Ghost(f1), t.inventory_component.as_slice());
    let ghost f2 = f1 + table_facts::<ObjectField, InventoryComponentRow>(t.inventory_component@);
    add_table(&mut m, Ghost(f2), t.item_component.as_slice());
    let ghost f3 = f2 + table_facts::<ObjectField, ItemComponentRow>(t.item_component@);
    add_table(&mut m, Ghost(f3), t.item_sets.as_slice());
    let ghost f4 = f3 + table_facts::<ObjectField, ItemSetRow>(t.item_sets@);
    add_table(&mut m, Ghost(f4), t.jet_pack_pad_component.as_slice());
    let ghost f5 = f4 + table_facts::<ObjectField, JetPackPadComponentRow>(
        t.jet_pack_pad_component@,
    );
    add_table(&mut m, Ghost(f5), t.missions.as_slice());
    let ghost f6 = f5 + table_facts::<ObjectField, MissionRow>(t.missions@);
    add_table(&mut m, Ghost(f6), t.npc_icons.as_slice());
    let ghost f7 = f6 + table_facts::<ObjectField, NpcIconRow>(t.npc_icons@);
    add_table(&mut m, Ghost(f7), t.rebuild_sections.as_slice());
    let ghost f8 = f7 + table_facts::<ObjectField, RebuildSectionRow>(t.rebuild_sections@);
    add_table(&mut m, Ghost(f8), t.reward_codes.as_slice());
    let ghost of = object_facts(*t);
    assert(f8 + table_facts::<ObjectField, RewardCodeRow>(t.reward_codes@) =~= of);
    let ghost pairs = currency_pairs(*t);
    proof {
        assert(pairs.take(0) =~= Seq::<(i32, i32)>::empty());
        assert(last_values(pairs.take(0)).dom() =~= Set::<i32>::empty());
        assert(m@.dom() =~= fact_keys(of).union(last_values(pairs.take(0)).dom()));
    }
    let rows = &t.currency_denominations;
    for i in 0..rows.len()
        invariant
            rows@ == t.currency_denominations@,
            pairs == currency_pairs(*t),
            of == object_facts(*t),
            objects_index(m@, of, pairs.take(i as int)),
    {
        let row = &rows[i];
        let ghost m0 = m@;
        let ghost p = (row.objectid, row.value);
        let mut u = match m.remove(&row.objectid) {
            Some(u) => u,
            None => ObjectsUse::blank(),
        };
        let ghost u0 = u;
        u.currency_denomination = Some(row.value);
        let ghost u1 = u;
        m.insert(row.objectid, u);
        proof {
            assert(pairs.take(i + 1) =~= pairs.take(i as int).push(p));
            lemma_last_values_push(pairs.take(i as int), p);
            assert(m@.dom() =~= fact_keys(of).union(last_values(pairs.take(i + 1)).dom()));
            assert forall|k: i32, f: ObjectField| #[trigger] m@.contains_key(k) implies #[trigger] m@[k].set_of(
                f,
            ) == fact_set(of, k, f) by {
                if k == row.objectid {
                    assert(u1.set_of(f) == u0.set_of(f));
                    if !m0.contains_key(k) {
                        lemma_absent_key(of, k, f);
                    }
                }
            }
        }
    }
    assert(pairs.take(rows@.len() as int) =~= pairs);
    m
}

/// Decodes an optional database string.
fn opt_decode(o: &Option<Vec<u8>>) -> (r: Option<String>)
    ensures
        super::records::opt_text(r) == opt_decoded(*o),
{
    match o {
        Some(b) => Some(decode(b.as_slice())),
        None => None,
    }
}

fn build_search_index(t: &RevTables) -> (m: BTreeMap<i32, ObjectStrings>)
    ensures
        m@.dom() == last_values(search_pairs(*t)).dom(),
        forall|k: i32| #[trigger] m@.contains_key(k) ==> m@[k]@ == last_values(search_pairs(*t))[k],
{
    let mut m: BTreeMap<i32, ObjectStrings> = BTreeMap::new();
    let ghost sp = search_pairs(*t);
    let rows = &t.objects;
    proof {
        assert(sp.take(0) =~= Seq::empty());
        assert(m@.dom() =~= last_values(sp.take(0)).dom());
    }
    for i in 0..rows.len()
        invariant
            rows@ == t.objects@,
            sp == search_pairs(*t),
            m@.dom() == last_values(sp.take(i as int)).dom(),
            forall|k: i32| #[trigger] m@.contains_key(k) ==> m@[k]@ == last_values(sp.take(i as int))[k],
    {
        let o = &rows[i];
        let strings = ObjectStrings {
            n: decode(o.name.as_slice()),
            d: opt_decode(&o.description),
            i: opt_decode(&o.display_name),
            t: opt_decode(&o.internal_notes),
        };
        let ghost p = (o.id, object_texts(*o));
        assert(strings@ == p.1);
        m.insert(o.id, strings);
        proof {
            assert(sp.take(i + 1) =~= sp.take(i as int).push(p));
            lemma_last_values_push(sp.take(i as int), p);
            assert(m@.dom() =~= last_values(sp.take(i + 1)).dom());
        }
    }
    assert(sp.take(rows@.len() as int) =~= sp);
    m
}

fn build_task_uids(t: &RevTables) -> (m: HashMap<i32, MissionTaskUIDLookup>)
    ensures
        m@ == last_values(task_pairs(*t)),
{
    let mut m: HashMap<i32, MissionTaskUIDLookup> = HashMap::new();
    let ghost tp = task_pairs(*t);
    let rows = &t.mission_tasks;
    proof {
        assert(tp.take(0) =~= Seq::empty());
        assert(m@ =~= last_values(tp.take(0)));
    }
    for i in 0..rows.len()
        invariant
            rows@ == t.mission_tasks@,
            tp == task_pairs(*t),
            m@ == last_values(tp.take(i as int)),
    {
        let r = &rows[i];
        let ghost p = (r.uid, MissionTaskUIDLookup { mission: r.id });
        m.insert(r.uid, MissionTaskUIDLookup { mission: r.id });
        proof {
            assert(tp.take(i + 1) =~= tp.take(i as int).push(p));
            lemma_last_values_push(tp.take(i as int), p);
        }
    }
    assert(tp.take(rows@.len() as int) =~= tp);
    m
}

/// An empty map keyed by strings.
fn empty_str_map<V>() -> (m: StrMap<V>)
    ensures
        m.view() == Map::<Seq<char>, V>::empty(),
{
    let m: StrMap<V> = StrMap::new();
    assert(m.view() =~= Map::<Seq<char>, V>::empty());
    m
}

fn build_gate_versions(t: &RevTables) -> (m: StrMap<GateVersionUse>)
    ensures
        set_index(m.view(), gate_version_facts(*t)),
{
    let mut m = empty_str_map();
    proof {
        lemma_no_facts::<Seq<char>, GateField>(Seq::empty(), GateField::Zones);
        assert(m.view().dom() =~= fact_keys(Seq::<Fact<Seq<char>, GateField>>::empty()));
    }
    add_gates(&mut m, Ghost(Seq::empty()), t.activities.as_slice(), GateField::Activities);
    let ghost g0 = Seq::empty() + gate_facts(t.activities@, GateField::Activities);
    add_gates(&mut m, Ghost(g0), t.deletion_restrictions.as_slice(), GateField::DeletionRestrictions);
    let ghost g1 = g0 + gate_facts(t.deletion_restrictions@, GateField::DeletionRestrictions);
    add_gates(&mut m, Ghost(g1), t.emotes.as_slice(), GateField::Emotes);
    let ghost g2 = g1 + gate_facts(t.emotes@, GateField::Emotes);
    add_gates(&mut m, Ghost(g2), t.loot_matrix.as_slice(), GateField::LootMatrix);
    let ghost g3 = g2 + gate_facts(t.loot_matrix@, GateField::LootMatrix);
    add_gates(&mut m, Ghost(g3), t.item_sets.as_slice(), GateField::ItemSets);
    let ghost g4 = g3 + gate_facts(t.item_sets@, GateField::ItemSets);
    add_gates(&mut m, Ghost(g4), t.missions.as_slice(), GateField::Missions);
    let ghost g5 = g4 + gate_facts(t.missions@, GateField::Missions);
    add_gates(&mut m, Ghost(g5), t.mission_tasks.as_slice(), GateField::MissionTasks);
    let ghost g6 = g5 + gate_facts(t.mission_tasks@, GateField::MissionTasks);
    add_gates(&mut m, Ghost(g6), t.objects.as_slice(), GateField::Objects);
    let ghost g7 = g6 + gate_facts(t.objects@, GateField::Objects);
    add_gates(&mut m, Ghost(g7), t.player_statistics.as_slice(), GateField::PlayerStatistics);
    let ghost g8 = g7 + gate_facts(t.player_statistics@, GateField::PlayerStatistics);
    add_gates(&mut m, Ghost(g8), t.preconditions.as_slice(), GateField::Preconditions);
    let ghost g9 = g8 + gate_facts(t.preconditions@, GateField::Preconditions);
    add_gates(&mut m, Ghost(g9), t.property_template.as_slice(), GateField::PropertyTemplate);
    let ghost g10 = g9 + gate_facts(t.property_template@, GateField::PropertyTemplate);
    add_gates(&mut m, Ghost(g10), t.reward_codes.as_slice(), GateField::RewardCodes);
    let ghost g11 = g10 + gate_facts(t.reward_codes@, GateField::RewardCodes);
    add_gates(&mut m, Ghost(g11), t.skills.as_slice(), GateField::Skills);
    let ghost g12 = g11 + gate_facts(t.skills@, GateField::Skills);
    add_gates(&mut m, Ghost(g12), t.speedchat_menu.as_slice(), GateField::SpeedchatMenu);
    let ghost g13 = g12 + gate_facts(t.speedchat_menu@, GateField::SpeedchatMenu);
    add_gates(&mut m, Ghost(g13), t.ug_behavior_sounds.as_slice(), GateField::UgBehaviorSounds);
    let ghost g14 = g13 + gate_facts(t.ug_behavior_sounds@, GateField::UgBehaviorSounds);
    add_gates(&mut m, Ghost(g14), t.whats_cool_item_spotlight.as_slice(), GateField::WhatsCoolItemSpotlight);
    let ghost g15 = g14 + gate_facts(t.whats_cool_item_spotlight@, GateField::WhatsCoolItemSpotlight);
    add_gates(&mut m, Ghost(g15), t.whats_cool_news_and_tips.as_slice(), GateField::WhatsCoolNewsAndTips);
    let ghost g16 = g15 + gate_facts(t.whats_cool_news_and_tips@, GateField::WhatsCoolNewsAndTips);
    add_gates(&mut m, Ghost(g16), t.zone_loading_tips.as_slice(), GateField::ZoneLoadingTips);
    let ghost g17 = g16 + gate_facts(t.zone_loading_tips@, GateField::ZoneLoadingTips);
    add_gates(&mut m, Ghost(g17), t.zone_table.as_slice(), GateField::Zones);
    let ghost g18 = g17 + gate_facts(t.zone_table@, GateField::Zones);
    assert(g18 =~= gate_version_facts(*t));
    m
}

/// The map of maps holds, per key, the list index of the facts about it.
pub open spec fn nested_str_index(
    m: Map<Seq<char>, StrMap<Vec<i32>>>,
    facts: Seq<Fact<Seq<char>, Seq<char>>>,
) -> bool {
    &&& m.dom() == fact_keys(facts)
    &&& forall|k: Seq<char>| #[trigger] m.contains_key(k) ==> list_index(m[k].view(), nested(facts, k))
}

fn build_mission_types(t: &RevTables) -> (m: StrMap<StrMap<Vec<i32>>>)
    ensures
        nested_str_index(m.view(), mission_type_facts(*t)),
{
    let mut m: StrMap<StrMap<Vec<i32>>> = empty_str_map();
    let ghost mf = mission_type_facts(*t);
    let rows = &t.missions;
    proof {
        assert(mf.take(0) =~= Seq::empty());
        lemma_no_facts::<Seq<char>, Seq<char>>(Seq::empty(), Seq::empty());
        assert(m.view().dom() =~= fact_keys(mf.take(0)));
    }
    for i in 0..rows.len()
        invariant
            rows@ == t.missions@,
            mf == mission_type_facts(*t),
            nested_str_index(m.view(), mf.take(i as int)),
    {
        let row = &rows[i];
        let ty = decode(row.defined_type.as_slice());
        let sub = match &row.defined_subtype {
            Some(b) => decode(b.as_slice()),
            None => String::new(),
        };
        let ghost cur = mf.take(i as int);
        let ghost e = Fact { key: ty@, field: sub@, value: row.id };
        assert(e == mf[i as int]);
        let ghost m0 = m.view();
        let mut inner = match m.take(ty.as_str()) {
            Some(x) => x,
            None => empty_str_map(),
        };
        proof {
            if !m0.contains_key(ty@) {
                lemma_nested_absent(cur, ty@);
                lemma_no_facts::<Seq<char>, OneField>(Seq::empty(), OneField::Ids);
                assert(inner.view().dom() =~= fact_keys(nested(cur, ty@)));
            }
        }
        str_index_push(&mut inner, Ghost(nested(cur, ty@)), sub, OneField::Ids, row.id);
        m.put(ty, inner);
        proof {
            assert(mf.take(i + 1) =~= cur.push(e));
            lemma_fact_keys_push(cur, e);
            assert(m.view().dom() =~= fact_keys(mf.take(i + 1)));
            assert forall|k: Seq<char>| #[trigger] m.view().contains_key(k) implies list_index(
                m.view()[k].view(),
                nested(mf.take(i + 1), k),
            ) by {
                lemma_nested_push(cur, e, k);
            }
        }
    }
    assert(mf.take(rows@.len() as int) =~= mf);
    m
}

fn build_object_types(t: &RevTables) -> (m: StrMap<Vec<i32>>)
    ensures
        list_index(m.view(), object_type_facts(*t)),
{
    let mut m: StrMap<Vec<i32>> = empty_str_map();
    let ghost tf = object_type_facts(*t);
    let rows = &t.objects;
    proof {
        assert(tf.take(0) =~= Seq::empty());
        lemma_no_facts::<Seq<char>, OneField>(Seq::empty(), OneField::Ids);
        assert(m.view().dom() =~= fact_keys(tf.take(0)));
    }
    for i in 0..rows.len()
        invariant
            rows@ == t.objects@,
            tf == object_type_facts(*t),
            list_index(m.view(), tf.take(i as int)),
    {
        let row = &rows[i];
        let ty = decode(row.object_type.as_slice());
        let ghost e = Fact { key: ty@, field: OneField::Ids, value: row.id };
        str_index_push(&mut m, Ghost(tf.take(i as int)), ty, OneField::Ids, row.id);
        assert(tf.take(i + 1) =~= tf.take(i as int).push(e));
    }
    assert(tf.take(rows@.len() as int) =~= tf);
    m
}

/// The component registry holds, per component type, the list index of the
/// facts about it.
pub open spec fn component_index(m: Map<i32, ComponentsUse>, facts: Seq<Fact<i32, i32>>) -> bool {
    &&& m.dom() == fact_keys(facts)
    &&& forall|k: i32| #[trigger] m.contains_key(k) ==> list_index(m[k].components@, nested(facts, k))
}

fn build_component_use(t: &RevTables) -> (m: BTreeMap<i32, ComponentsUse>)
    ensures
        component_index(m@, component_facts(*t)),
{
    let mut m: BTreeMap<i32, ComponentsUse> = BTreeMap::new();
    let ghost cf = component_facts(*t);
    let rows = &t.comp_reg;
    proof {
        lemma_no_facts::<i32, i32>(0, 0);
        assert(m@.dom() =~= fact_keys(table_facts::<i32, ComponentsRegistryRow>(rows@.take(0))));
    }
    for i in 0..rows.len()
        invariant
            rows@ == t.comp_reg@,
            cf == component_facts(*t),
            component_index(m@, table_facts::<i32, ComponentsRegistryRow>(rows@.take(i as int))),
    {
        let row = &rows[i];
        let ghost cur = table_facts::<i32, ComponentsRegistryRow>(rows@.take(i as int));
        let ghost e = Fact { key: row.component_type, field: row.component_id, value: row.id };
        let ghost m0 = m@;
        let mut cu = match m.remove(&row.component_type) {
            Some(c) => c,
            None => ComponentsUse { components: BTreeMap::new() },
        };
        proof {
            if !m0.contains_key(row.component_type) {
                lemma_nested_absent(cur, row.component_type);
                lemma_no_facts::<i32, OneField>(0, OneField::Ids);
                assert(cu.components@.dom() =~= fact_keys(nested(cur, row.component_type)));
            }
        }
        index_push(&mut cu.components, Ghost(nested(cur, row.component_type)), row.component_id, OneField::Ids, row.id);
        m.insert(row.component_type, cu);
        proof {
            super::fill::lemma_table_facts_take::<i32, ComponentsRegistryRow>(rows@, i as int);
            assert(rows@[i as int].fed() =~= seq![e]);
            assert(cur + seq![e] =~= cur.push(e));
            lemma_fact_keys_push(cur, e);
            assert(m@.dom() =~= fact_keys(cur.push(e)));
            assert forall|k: i32| #[trigger] m@.contains_key(k) implies list_index(
                m@[k].components@,
                nested(cur.push(e), k),
            ) by {
                lemma_nested_push(cur, e, k);
            }
        }
    }
    assert(rows@.take(rows@.len() as int) =~= rows@);
    m
}

/// The pairs of id and value of the facts about one key.
pub open spec fn nested_pairs(facts: Seq<Fact<i32, i32>>, k: i32) -> Seq<(i32, i32)> {
    nested(facts, k).map_values(|e: Fact<i32, OneField>| (e.key, e.value))
}

/// The loot table index holds, per index, the last item of each loot table
/// row.
pub open spec fn loot_index(m: Map<i32, LootTableIndexRev>, facts: Seq<Fact<i32, i32>>) -> bool {
    &&& m.dom() == fact_keys(facts)
    &&& forall|k: i32| #[trigger] m.contains_key(k) ==> m[k].items@ == last_values(nested_pairs(facts, k))
}

fn build_loot_table_index(t: &RevTables) -> (m: BTreeMap<i32, LootTableIndexRev>)
    ensures
        loot_index(m@, loot_facts(*t)),
{
    let mut m: BTreeMap<i32, LootTableIndexRev> = BTreeMap::new();
    let rows = &t.loot_table;
    proof {
        lemma_no_facts::<i32, i32>(0, 0);
        assert(m@.dom() =~= fact_keys(table_facts::<i32, LootTableRow>(rows@.take(0))));
    }
    for i in 0..rows.len()
        invariant
            rows@ == t.loot_table@,
            loot_index(m@, table_facts::<i32, LootTableRow>(rows@.take(i as int))),
    {
        let row = &rows[i];
        let ghost cur = table_facts::<i32, LootTableRow>(rows@.take(i as int));
        let ghost e = Fact { key: row.loot_table_index, field: row.id, value: row.itemid };
        let ghost m0 = m@;
        let mut entry = match m.remove(&row.loot_table_index) {
            Some(c) => c,
            None => LootTableIndexRev { items: BTreeMap::new() },
        };
        proof {
            if !m0.contains_key(row.loot_table_index) {
                lemma_nested_absent(cur, row.loot_table_index);
                assert(nested_pairs(cur, row.loot_table_index) =~= Seq::empty());
                assert(entry.items@ =~= last_values(nested_pairs(cur, row.loot_table_index)));
            }
        }
        entry.items.insert(row.id, row.itemid);
        m.insert(row.loot_table_index, entry);
        proof {
            super::fill::lemma_table_facts_take::<i32, LootTableRow>(rows@, i as int);
            assert(rows@[i as int].fed() =~= seq![e]);
            assert(cur + seq![e] =~= cur.push(e));
            lemma_fact_keys_push(cur, e);
            assert(m@.dom() =~= fact_keys(cur.push(e)));
            assert forall|k: i32| #[trigger] m@.contains_key(k) implies m@[k].items@ == last_values(
                nested_pairs(cur.push(e), k),
            ) by {
                lemma_nested_push(cur, e, k);
                if k == row.loot_table_index {
                    let ne = Fact { key: e.field, field: OneField::Ids, value: e.value };
                    assert(nested(cur, k).push(ne).map_values(|x: Fact<i32, OneField>| (x.key, x.value))
                        =~= nested_pairs(cur, k).push((row.id, row.itemid)));
                    lemma_last_values_push(nested_pairs(cur, k), (row.id, row.itemid));
                }
            }
        }
    }
    assert(rows@.take(rows@.len() as int) =~= rows@);
    m
}

/// Per component type, the components that objects have.
#[derive(Debug)]
pub struct ComponentRegistryRev(pub BTreeMap<i32, ComponentsUse>);

impl ComponentRegistryRev {
    /// Makes sure the registry has an entry for `type_id`, an empty one
    /// where it had none.
    pub fn ty_mut(&mut self, type_id: i32)
        ensures
            final(self).0@.dom() == old(self).0@.dom().insert(type_id),
            forall|k: i32| #[trigger] old(self).0@.contains_key(k) ==> final(self).0@[k] == old(self).0@[k],
            !old(self).0@.contains_key(type_id) ==> final(self).0@[type_id].components@ == Map::<
                i32,
                ComponentUse,
            >::empty(),
    {
        if !self.0.contains_key(&type_id) {
            self.0.insert(type_id, ComponentsUse { components: BTreeMap::new() });
        }
        assert(self.0@.dom() =~= old(self).0@.dom().insert(type_id));
    }

    /// The components of type `type_id`, if any object has one.
    pub fn ty(&self, type_id: i32) -> (r: Option<&ComponentsUse>)
        ensures
            r.is_some() == self.0@.contains_key(type_id),
            r matches Some(c) ==> *c == self.0@[type_id],
    {
        self.0.get(&type_id)
    }
}

/// What each game version unlocks, by version name.
#[derive(Debug)]
pub struct GateVersionsUse {
    inner: StrMap<GateVersionUse>,
}

impl GateVersionsUse {
    /// The versions, by name.
    pub closed spec fn view(&self) -> Map<Seq<char>, GateVersionUse> {
        self.inner.view()
    }

    /// The names of the versions, sorted.
    pub fn keys(&self) -> (r: Vec<String>)
        ensures
            forall|k: Seq<char>| #[trigger] self.view().contains_key(k) <==> exists|i: int|
                0 <= i < r@.len() && r@[i]@ == k,
            forall|i: int, j: int| 0 <= i < j < r@.len() ==> crate::strmap::str_lt(r@[i]@, r@[j]@),
    {
        let r = self.inner.keys();
        proof {
            assert forall|k: Seq<char>| #[trigger] self.view().contains_key(k) <==> exists|i: int|
                0 <= i < r@.len() && r@[i]@ == k by {
                if self.view().contains_key(k) {
                    let i = choose|i: int| 0 <= i < self.inner.key_seq().len() && self.inner.key_seq()[i] == k;
                    assert(r@[i]@ == k);
                }
                if exists|i: int| 0 <= i < r@.len() && r@[i]@ == k {
                    let i = choose|i: int| 0 <= i < r@.len() && r@[i]@ == k;
                    assert(self.inner.key_seq()[i] == k);
                }
            }
            assert forall|i: int, j: int| 0 <= i < j < r@.len() implies crate::strmap::str_lt(r@[i]@, r@[j]@) by {
                assert(r@[i]@ == self.inner.key_seq()[i]);
                assert(r@[j]@ == self.inner.key_seq()[j]);
            }
        }
        r
    }

    /// What the version `name` unlocks, if anything.
    pub fn get(&self, name: &str) -> (r: Option<&GateVersionUse>)
        ensures
            r.is_some() == self.view().contains_key(name@),
            r matches Some(g) ==> *g == self.view()[name@],
    {
        self.inner.get(name)
    }
}

/// The object indices.
#[derive(Debug)]
pub struct ObjectsRevData {
    /// The search texts of each object.
    pub search_index: BTreeMap<i32, ObjectStrings>,
    /// What refers to each object.
    pub rev: BTreeMap<i32, ObjectsUse>,
}

/// The reverse lookup.
#[derive(Debug)]
pub struct ReverseLookup {
    pub mission_task_uids: HashMap<i32, MissionTaskUIDLookup>,
    pub skill_cooldown_groups: BTreeMap<i32, SkillCooldownGroup>,
    pub skill_ids: HashMap<i32, SkillIdLookup>,
    pub behaviors: BTreeMap<i32, BehaviorKeyIndex>,
    pub mission_types: StrMap<StrMap<Vec<i32>>>,
    pub missions: BTreeMap<i32, MissionRev>,
    pub factions: BTreeMap<i32, FactionRev>,
    pub objects: ObjectsRevData,
    pub object_types: StrMap<Vec<i32>>,
    pub component_use: ComponentRegistryRev,
    pub activities: BTreeMap<i32, ActivityRev>,
    pub loot_table_index: BTreeMap<i32, LootTableIndexRev>,
    pub gate_versions: GateVersionsUse,
}

/// Whether every `factionList` that the destructible components have
/// holds an integer: the reverse lookup cannot be built otherwise.
pub open spec fn faction_lists_parse(t: RevTables) -> bool {
    forall|i: int|
        0 <= i < t.destructible_component@.len() && (#[trigger] t.destructible_component@[i]).faction_list
            is Some ==> faction_list_value(opt_bytes(t.destructible_component@[i].faction_list)) is Some
}

impl ReverseLookup {
    /// Whether every index holds exactly what the tables say.
    pub open spec fn built_from(&self, t: RevTables) -> bool {
        &&& self.mission_task_uids@ == last_values(task_pairs(t))
        &&& set_index(self.skill_cooldown_groups@, cooldown_facts(t))
        &&& list_index(self.skill_ids@, skill_facts(t))
        &&& set_index(self.behaviors@, behavior_facts(t))
        &&& nested_str_index(self.mission_types.view(), mission_type_facts(t))
        &&& set_index(self.missions@, mission_facts(t))
        &&& set_index(self.factions@, faction_facts(t))
        &&& objects_index(self.objects.rev@, object_facts(t), currency_pairs(t))
        &&& self.objects.search_index@.dom() == last_values(search_pairs(t)).dom()
        &&& forall|k: i32| #[trigger]
            self.objects.search_index@.contains_key(k) ==> self.objects.search_index@[k]@
                == last_values(search_pairs(t))[k]
        &&& list_index(self.object_types.view(), object_type_facts(t))
        &&& component_index(self.component_use.0@, component_facts(t))
        &&& list_index(self.activities@, activity_facts(t))
        &&& loot_index(self.loot_table_index@, loot_facts(t))
        &&& set_index(self.gate_versions.view(), gate_version_facts(t))
    }

    /// Builds every index from the tables.
    pub fn new(t: &RevTables) -> (r: Self)
        requires
            faction_lists_parse(*t),
        ensures
            r.built_from(*t),
    {
        let rev = build_object_uses(t);
        let search_index = build_search_index(t);
        let gates = build_gate_versions(t);
        ReverseLookup {
            mission_task_uids: build_task_uids(t),
            skill_cooldown_groups: build_cooldown_groups(t),
            skill_ids: build_skill_ids(t),
            behaviors: build_behaviors(t),
            mission_types: build_mission_types(t),
            missions: build_missions(t),
            factions: build_factions(t),
            objects: ObjectsRevData { search_index, rev },
            object_types: build_object_types(t),
            component_use: ComponentRegistryRev(build_component_use(t)),
            activities: build_activities(t),
            loot_table_index: build_loot_table_index(t),
            gate_versions: GateVersionsUse { inner: gates },
        }
    }

    /// Builds the indices, or `None` where some `factionList` holds no
    /// integer.
    pub fn try_new(t: &RevTables) -> (r: Option<Self>)
        ensures
            r is Some <==> faction_lists_parse(*t),
            r matches Some(x) ==> x.built_from(*t),
    {
        let rows = &t.destructible_component;
        for i in 0..rows.len()
            invariant
                rows@ == t.destructible_component@,
                forall|j: int|
                    0 <= j < i && (#[trigger] rows@[j]).faction_list is Some ==> faction_list_value(
                        opt_bytes(rows@[j].faction_list),
                    ) is Some,
        {
            match &rows[i].faction_list {
                Some(b) => {
                    let text = decode(b.as_slice());
                    let chars = str_chars(text.as_str());
                    if parse_i32(chars.as_slice()).is_none() {
                        return None;
                    }
                },
                None => {},
            }
        }
        Some(ReverseLookup::new(t))
    }
}

/// Whether behavior `a` runs behavior `b`: `b` is a positive id that `a`
/// names in an action parameter.
pub open spec fn runs(m: Map<i32, BehaviorKeyIndex>, a: i32, b: i32) -> bool {
    m.contains_key(a) && m[a].uses@.contains(b) && b > 0
}

/// Whether `p` is a chain of behaviors, each running the next.
pub open spec fn is_chain(m: Map<i32, BehaviorKeyIndex>, p: Seq<i32>) -> bool {
    &&& p.len() >= 1
    &&& forall|i: int| 0 <= i < p.len() - 1 ==> runs(m, #[trigger] p[i], p[i + 1])
}

/// Whether behavior `root` leads to behavior `b` (in no or more steps).
pub open spec fn leads_to(m: Map<i32, BehaviorKeyIndex>, root: i32, b: i32) -> bool {
    exists|p: Seq<i32>| #[trigger] is_chain(m, p) && p[0] == root && p.last() == b
}

proof fn lemma_leads_to_step(m: Map<i32, BehaviorKeyIndex>, root: i32, a: i32, b: i32)
    requires
        leads_to(m, root, a),
        runs(m, a, b),
    ensures
        leads_to(m, root, b),
{
    let p = choose|p: Seq<i32>| #[trigger] is_chain(m, p) && p[0] == root && p.last() == a;
    let q = p.push(b);
    assert forall|i: int| 0 <= i < q.len() - 1 implies runs(m, #[trigger] q[i], q[i + 1]) by {
        if i < p.len() - 1 {
            assert(q[i] == p[i] && q[i + 1] == p[i + 1]);
        }
    }
    assert(is_chain(m, q));
}

proof fn lemma_closed_holds_all(m: Map<i32, BehaviorKeyIndex>, s: Set<i32>, p: Seq<i32>, n: int)
    requires
        is_chain(m, p),
        s.contains(p[0]),
        forall|a: i32, b: i32| s.contains(a) && #[trigger] runs(m, a, b) ==> s.contains(b),
        0 <= n < p.len(),
    ensures
        s.contains(p[n]),
    decreases n,
{
    if n > 0 {
        lemma_closed_holds_all(m, s, p, n - 1);
        assert(runs(m, p[n - 1], p[n]));
    }
}

proof fn lemma_i32_set_bound(s: Set<i32>)
    requires
        s.finite(),
    ensures
        s.len() <= 0x1_0000_0000,
{
    let f = |x: i32| x as int;
    let img = s.map(f);
    vstd::set_lib::lemma_map_size(s, img, f);
    vstd::set_lib::lemma_int_range(i32::MIN as int, i32::MAX + 1);
    assert(img.subset_of(vstd::set_lib::set_int_range(i32::MIN as int, i32::MAX + 1)));
    vstd::set_lib::lemma_len_subset(img, vstd::set_lib::set_int_range(i32::MIN as int, i32::MAX + 1));
}

impl ReverseLookup {
    /// The uses and the users of the behaviors mirror each other: behavior
    /// `a` uses `b` exactly where `b` is used by `a`, exactly where a
    /// behavior parameter of `a` with an action name has the value `b`.
    pub proof fn lemma_uses_mirror(&self, t: RevTables, a: i32, b: i32)
        requires
            self.built_from(t),
        ensures
            (self.behaviors@.contains_key(a) && self.behaviors@[a].uses@.contains(b)) <==> param_links(
                t.behavior_parameters@,
                a,
                b,
            ),
            (self.behaviors@.contains_key(b) && self.behaviors@[b].used_by@.contains(a)) <==> param_links(
                t.behavior_parameters@,
                a,
                b,
            ),
    {
        let m = self.behaviors@;
        let f = behavior_facts(t);
        let xu = Fact { key: a, field: BehaviorField::Uses, value: b };
        let xb = Fact { key: b, field: BehaviorField::UsedBy, value: a };
        lemma_link_facts(t, a, b);
        lemma_index_holds(m, f, xu);
        lemma_index_holds(m, f, xb);
    }

    /// The behaviors that behavior `root` leads to, `root` included.
    pub fn get_behavior_set(&self, root: i32) -> (r: BTreeSet<i32>)
        ensures
            forall|b: i32| #[trigger] r@.contains(b) <==> leads_to(self.behaviors@, root, b),
    {
        let ghost m = self.behaviors@;
        let mut todo: Vec<i32> = Vec::new();
        let mut all: BTreeSet<i32> = BTreeSet::new();
        todo.push(root);
        proof {
            let p = seq![root];
            assert(is_chain(m, p));
        }
        while todo.len() > 0
            invariant
                m == self.behaviors@,
                all@.finite(),
                forall|x: i32| #[trigger] all@.contains(x) ==> leads_to(m, root, x),
                forall|j: int| 0 <= j < todo@.len() ==> leads_to(m, root, #[trigger] todo@[j]),
                all@.contains(root) || todo@.contains(root),
                forall|a: i32, b: i32|
                    all@.contains(a) && #[trigger] runs(m, a, b) ==> all@.contains(b) || todo@.contains(b),
            decreases 0x1_0000_0000 - all@.len(), todo@.len(),
        {
            proof {
                lemma_i32_set_bound(all@);
            }
            let ghost t0 = todo@;
            let ghost all0 = all@;
            let next = todo.pop().unwrap();
            let ghost popped = todo@;
            assert(t0 == popped.push(next));
            assert(leads_to(m, root, t0[t0.len() - 1]));
            if !all.contains(&next) {
                all.insert(next);
                proof {
                    lemma_i32_set_bound(all@);
                }
                match self.behaviors.get(&next) {
                    Some(data) => {
                        let ghost before = todo@;
                        let ghost full = vstd::std_specs::btree::spec_btree_keys_iter(&data.uses).remaining();
                        proof {
                            assert(full.unref().to_set() == data.uses@);
                        }
                        for x in it: data.uses.iter()
                            invariant
                                it.seq() == full,
                                full.unref().to_set() == data.uses@,
                                m == self.behaviors@,
                                m.contains_key(next),
                                *data == m[next],
                                leads_to(m, root, next),
                                forall|j: int| 0 <= j < todo@.len() ==> (#[trigger] todo@[j] == todo@[j])
                                    && (j < before.len() ==> todo@[j] == before[j]),
                                todo@.len() >= before.len(),
                                forall|j: int| before.len() <= j < todo@.len() ==> runs(m, next, #[trigger] todo@[j]),
                                forall|k: int| 0 <= k < it.index() && *full[k] > 0 ==> todo@.contains(
                                    *#[trigger] full[k],
                                ),
                        {
                            if *x > 0 {
                                proof {
                                    assert(full.unref()[it.index() as int] == *x);
                                    assert(full.unref().contains(*x));
                                }
                                todo.push(*x);
                            }
                        }
                        proof {
                            assert forall|j: int| 0 <= j < todo@.len() implies leads_to(
                                m,
                                root,
                                #[trigger] todo@[j],
                            ) by {
                                if j >= before.len() {
                                    lemma_leads_to_step(m, root, next, todo@[j]);
                                } else {
                                    assert(todo@[j] == before[j]);
                                }
                            }
                            assert forall|b: i32| runs(m, next, b) implies todo@.contains(b) by {
                                assert(full.unref().to_set().contains(b));
                                let k = choose|k: int| 0 <= k < full.len() && full.unref()[k] == b;
                                assert(*full[k] == b);
                            }
                        }
                    },
                    None => {},
                }
            }
            proof {
                assert(all@.contains(next));
                assert(all0.subset_of(all@));
                assert forall|x: i32| t0.contains(x) implies x == next || todo@.contains(x) by {
                    let j = choose|j: int| 0 <= j < t0.len() && t0[j] == x;
                    if j < popped.len() {
                        assert(popped[j] == x);
                        assert(todo@[j] == x);
                    }
                }
                assert forall|a: i32, b: i32| all@.contains(a) && #[trigger] runs(m, a, b) implies all@.contains(b)
                    || todo@.contains(b) by {
                    if all0.contains(a) {
                        assert(all0.contains(b) || t0.contains(b));
                    }
                }
            }
        }
        proof {
            assert forall|b: i32| leads_to(m, root, b) implies #[trigger] all@.contains(b) by {
                let p = choose|p: Seq<i32>| #[trigger] is_chain(m, p) && p[0] == root && p.last() == b;
                lemma_closed_holds_all(m, all@, p, p.len() - 1);
            }
        }
        all
    }
}

} // verus!
