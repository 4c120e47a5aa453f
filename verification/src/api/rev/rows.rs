//! # The rows the reverse lookup is built from
//!
//! Each table of the game database that feeds an index is given here as a
//! list of rows holding the columns that the indices read. A column that
//! may be NULL, or that a given database version does not have, is an
//! `Option` and reads `None` in either case. Text columns hold their
//! WINDOWS-1252 bytes.

use vstd::prelude::*;
use crate::latin1::{decode, latin1_decoded};
use crate::lists::{id_list, spec_id_list};
use crate::text::str_chars;
use super::index::Fact;

verus! {

broadcast use vstd::seq_lib::group_seq_properties;

/// A row with an id and the game version (gate) that unlocks it.
pub struct GatedRow {
    pub id: i32,
    pub gate_version: Option<Vec<u8>>,
}

/// `BehaviorParameter`: one named parameter of a behavior.
pub struct BehaviorParameterRow {
    pub behavior_id: i32,
    pub parameter_id: Vec<u8>,
    /// The parameter's value, a float in the database, converted with `as i32`.
    pub value: i32,
}

/// `CollectibleComponent`.
pub struct CollectibleComponentRow {
    pub id: i32,
    pub requirement_mission: Option<i32>,
}

/// `ComponentsRegistry`: which component an object template has.
pub struct ComponentsRegistryRow {
    pub id: i32,
    pub component_type: i32,
    pub component_id: i32,
}

/// `CurrencyDenominations`.
pub struct CurrencyDenominationRow {
    pub value: i32,
    pub objectid: i32,
}

/// `DeletionRestrictions`.
pub struct DeletionRestrictionRow {
    pub id: i32,
    pub check_type: i32,
    pub ids: Option<Vec<u8>>,
    pub gate_version: Option<Vec<u8>>,
}

/// `DestructibleComponent`.
pub struct DestructibleComponentRow {
    pub id: i32,
    pub faction: Option<i32>,
    /// The text of `factionList`, `None` where the database has no such column.
    pub faction_list: Option<Vec<u8>>,
}

/// `InventoryComponent`.
pub struct InventoryComponentRow {
    pub id: i32,
    pub itemid: i32,
}

/// `ItemComponent`.
pub struct ItemComponentRow {
    pub id: i32,
    pub currency_lot: Option<i32>,
    pub commendation_lot: Option<i32>,
    pub sub_items: Option<Vec<u8>>,
    pub req_achievement_id: Option<i32>,
}

/// `ItemSetSkills`.
pub struct ItemSetSkillRow {
    pub skill_set_id: i32,
    pub skill_id: i32,
}

/// `ItemSets`.
pub struct ItemSetRow {
    pub set_id: i32,
    pub item_i_ds: Vec<u8>,
    pub gate_version: Option<Vec<u8>>,
}

/// `JetPackPadComponent`.
pub struct JetPackPadComponentRow {
    pub id: i32,
    pub lot_warning_volume: Option<i32>,
    pub lot_blocker: Option<i32>,
}

/// `LootTable`.
pub struct LootTableRow {
    pub itemid: i32,
    pub loot_table_index: i32,
    pub id: i32,
}

/// `Missions`.
pub struct MissionRow {
    pub id: i32,
    pub defined_type: Vec<u8>,
    pub defined_subtype: Option<Vec<u8>>,
    pub gate_version: Option<Vec<u8>>,
    pub prereq_mission_id: Option<Vec<u8>>,
    /// `reward_item1` to `reward_item4`, then `reward_item1_repeatable` to
    /// `reward_item4_repeatable`.
    pub reward_items: [i32; 8],
}

/// `MissionTasks`.
pub struct MissionTaskRow {
    pub uid: i32,
    pub id: i32,
    pub task_type: i32,
    pub task_param1: Option<Vec<u8>>,
    pub gate_version: Option<Vec<u8>>,
}

/// `NpcIcons`.
pub struct NpcIconRow {
    pub id: i32,
    pub lot: i32,
}

/// `ObjectSkills`.
pub struct ObjectSkillRow {
    pub object_template: i32,
    pub skill_id: i32,
}

/// `Objects`.
pub struct ObjectRow {
    pub id: i32,
    pub name: Vec<u8>,
    pub object_type: Vec<u8>,
    pub description: Option<Vec<u8>>,
    pub display_name: Option<Vec<u8>>,
    pub internal_notes: Option<Vec<u8>>,
    pub gate_version: Option<Vec<u8>>,
}

/// `RebuildComponent`.
pub struct RebuildComponentRow {
    pub id: i32,
    pub activity_id: Option<i32>,
}

/// `RebuildSections`.
pub struct RebuildSectionRow {
    pub id: i32,
    pub object_id: i32,
}

/// `RewardCodes`.
pub struct RewardCodeRow {
    pub id: i32,
    pub attachment_lot: Option<i32>,
    pub gate_version: Option<Vec<u8>>,
}

/// `SkillBehavior`.
pub struct SkillRow {
    pub skill_id: i32,
    pub behavior_id: i32,
    pub cooldowngroup: Option<i32>,
    pub gate_version: Option<Vec<u8>>,
}

/// `ZoneLoadingTips`, whose gate is never NULL.
pub struct ZoneLoadingTipRow {
    pub id: i32,
    pub gate_version: Vec<u8>,
}

/// The tables the reverse lookup reads. A table that a database version
/// lacks is empty.
pub struct RevTables {
    /// `Activities`, by `ActivityID`.
    pub activities: Vec<GatedRow>,
    pub behavior_parameters: Vec<BehaviorParameterRow>,
    pub collectible_component: Vec<CollectibleComponentRow>,
    pub comp_reg: Vec<ComponentsRegistryRow>,
    pub currency_denominations: Vec<CurrencyDenominationRow>,
    pub deletion_restrictions: Vec<DeletionRestrictionRow>,
    pub destructible_component: Vec<DestructibleComponentRow>,
    pub emotes: Vec<GatedRow>,
    pub loot_matrix: Vec<GatedRow>,
    pub inventory_component: Vec<InventoryComponentRow>,
    pub item_component: Vec<ItemComponentRow>,
    pub item_set_skills: Vec<ItemSetSkillRow>,
    pub item_sets: Vec<ItemSetRow>,
    pub jet_pack_pad_component: Vec<JetPackPadComponentRow>,
    pub loot_table: Vec<LootTableRow>,
    pub missions: Vec<MissionRow>,
    pub mission_tasks: Vec<MissionTaskRow>,
    pub npc_icons: Vec<NpcIconRow>,
    pub object_skills: Vec<ObjectSkillRow>,
    pub objects: Vec<ObjectRow>,
    /// `PlayerStatistics`, by `statID`.
    pub player_statistics: Vec<GatedRow>,
    pub preconditions: Vec<GatedRow>,
    pub property_template: Vec<GatedRow>,
    pub rebuild_component: Vec<RebuildComponentRow>,
    pub rebuild_sections: Vec<RebuildSectionRow>,
    pub reward_codes: Vec<RewardCodeRow>,
    pub skills: Vec<SkillRow>,
    pub speedchat_menu: Vec<GatedRow>,
    pub ug_behavior_sounds: Vec<GatedRow>,
    pub whats_cool_item_spotlight: Vec<GatedRow>,
    pub whats_cool_news_and_tips: Vec<GatedRow>,
    pub zone_loading_tips: Vec<ZoneLoadingTipRow>,
    /// `ZoneTable`, by `zoneID`.
    pub zone_table: Vec<GatedRow>,
}

/// A row of a table that feeds an index whose fields are named by `F`:
/// the facts it contributes, keyed by integer.
pub trait Feeds<F> {
    /// The facts the row contributes, in order.
    spec fn fed(&self) -> Seq<Fact<i32, F>>;

    /// Computes the facts.
    fn feed(&self) -> (r: Vec<Fact<i32, F>>)
        ensures
            r@ == self.fed(),
    ;
}

/// The facts that a whole table contributes, row after row.
pub open spec fn table_facts<F, T: Feeds<F>>(rows: Seq<T>) -> Seq<Fact<i32, F>> {
    rows.flat_map(|r: T| r.fed())
}

/// A row of a table whose rows a game version (gate) may unlock.
pub trait Gated {
    /// The bytes of the row's gate, if it has one.
    spec fn gate_spec(&self) -> Option<Seq<u8>>;

    /// The id the row is filed under.
    spec fn gated_id(&self) -> i32;

    /// The row's gate, if it has one.
    fn gate(&self) -> (r: Option<&Vec<u8>>)
        ensures
            r matches Some(b) ==> self.gate_spec() == Some(b@),
            r is None ==> self.gate_spec() is None,
    ;

    /// The id the row is filed under.
    fn gate_id(&self) -> (r: i32)
        ensures
            r == self.gated_id(),
    ;
}

/// The facts of the gated rows of a table: each row's id, under `field`,
/// keyed by the decoded name of its gate.
pub open spec fn gate_facts<G, T: Gated>(rows: Seq<T>, field: G) -> Seq<Fact<Seq<char>, G>> {
    rows.filter_map(
        |r: T|
            match r.gate_spec() {
                Some(g) => Some(Fact { key: latin1_decoded(g), field, value: r.gated_id() }),
                None => None,
            },
    )
}

/// One fact per key, all with the same field and value.
pub open spec fn keyed<F>(keys: Seq<i32>, field: F, value: i32) -> Seq<Fact<i32, F>> {
    keys.map_values(|k: i32| Fact { key: k, field, value })
}

/// The keys an optional column holds: none or one.
pub open spec fn opt_keys(o: Option<i32>) -> Seq<i32> {
    match o {
        Some(k) => seq![k],
        None => Seq::empty(),
    }
}

/// The ids of an optional comma separated text column.
pub open spec fn opt_id_list(o: Option<Seq<u8>>) -> Seq<i32> {
    match o {
        Some(b) => spec_id_list(latin1_decoded(b)),
        None => Seq::empty(),
    }
}

/// The bytes of an optional text column.
pub open spec fn opt_bytes(o: Option<Vec<u8>>) -> Option<Seq<u8>> {
    match o {
        Some(b) => Some(b@),
        None => None,
    }
}

/// Appends one fact per key to `out`.
pub fn push_keyed<F: Copy>(out: &mut Vec<Fact<i32, F>>, keys: &[i32], field: F, value: i32)
    ensures
        final(out)@ == old(out)@ + keyed(keys@, field, value),
{
    let ghost start = out@;
    for i in 0..keys.len()
        invariant
            out@ == start + keyed(keys@.take(i as int), field, value),
    {
        out.push(Fact { key: keys[i], field, value });
        assert(keyed(keys@.take(i + 1), field, value) =~= keyed(keys@.take(i as int), field, value).push(
            Fact { key: keys@[i as int], field, value },
        ));
    }
    assert(keys@.take(keys@.len() as int) =~= keys@);
}

/// Appends the fact for an optional key to `out`.
pub fn push_opt<F: Copy>(out: &mut Vec<Fact<i32, F>>, key: Option<i32>, field: F, value: i32)
    ensures
        final(out)@ == old(out)@ + keyed(opt_keys(key), field, value),
{
    match key {
        Some(k) => {
            out.push(Fact { key: k, field, value });
            assert(keyed(opt_keys(key), field, value) =~= seq![Fact { key: k, field, value }]);
        },
        None => {
            assert(keyed(opt_keys(key), field, value) =~= Seq::<Fact<i32, F>>::empty());
        },
    }
}

/// The ids of a comma separated text column.
pub fn decoded_ids(bytes: &[u8]) -> (r: Vec<i32>)
    ensures
        r@ == spec_id_list(latin1_decoded(bytes@)),
{
    let s = decode(bytes);
    let chars = str_chars(s.as_str());
    id_list(chars.as_slice())
}

/// The ids of an optional comma separated text column.
pub fn opt_decoded_ids(bytes: &Option<Vec<u8>>) -> (r: Vec<i32>)
    ensures
        r@ == opt_id_list(opt_bytes(*bytes)),
{
    match bytes {
        Some(b) => decoded_ids(b.as_slice()),
        None => Vec::new(),
    }
}

} // verus!
