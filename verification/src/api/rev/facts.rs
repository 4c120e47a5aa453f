//! # What each row contributes
//!
//! For every table that feeds an index, the facts that one of its rows
//! contributes to that index, as the reverse lookup records them.

use vstd::prelude::*;
use crate::data::skill_system::{is_action_key, match_action_key};
use crate::latin1::{decode, latin1_decoded};
use crate::lists::{plain_id_list, prereq_ids, spec_plain_id_list, spec_prereq_ids, spec_id_list};
use crate::text::{parse_i32, spec_parse_i32, str_chars};
use super::index::{Fact, OneField};
use super::records::{BehaviorField, FactionField, MissionField, ObjectField, SkillField};
use super::rows::{
    BehaviorParameterRow, CollectibleComponentRow, ComponentsRegistryRow, DeletionRestrictionRow,
    DestructibleComponentRow, Feeds, Gated, GatedRow, InventoryComponentRow, ItemComponentRow,
    ItemSetRow, ItemSetSkillRow, JetPackPadComponentRow, LootTableRow, MissionRow, MissionTaskRow,
    NpcIconRow, ObjectRow, ObjectSkillRow, RebuildComponentRow, RebuildSectionRow, RewardCodeRow,
    SkillRow, ZoneLoadingTipRow, decoded_ids, keyed, opt_bytes, opt_decoded_ids, opt_id_list,
    opt_keys, push_keyed, push_opt,
};

verus! {

broadcast use vstd::seq_lib::group_seq_properties;

/// A deletion restriction of check type 0 restricts the objects its `ids`
/// list names.
impl Feeds<ObjectField> for DeletionRestrictionRow {
    open spec fn fed(&self) -> Seq<Fact<i32, ObjectField>> {
        if self.check_type == 0 {
            keyed(opt_id_list(opt_bytes(self.ids)), ObjectField::DeletionRestrictions, self.id)
        } else {
            Seq::empty()
        }
    }

    fn feed(&self) -> (r: Vec<Fact<i32, ObjectField>>) {
        let mut r: Vec<Fact<i32, ObjectField>> = Vec::new();
        if self.check_type == 0 {
            let lots = opt_decoded_ids(&self.ids);
            push_keyed(&mut r, lots.as_slice(), ObjectField::DeletionRestrictions, self.id);
            assert(r@ =~= keyed(opt_id_list(opt_bytes(self.ids)), ObjectField::DeletionRestrictions, self.id));
        }
        r
    }
}

/// An inventory component refers to the item it holds.
impl Feeds<ObjectField> for InventoryComponentRow {
    open spec fn fed(&self) -> Seq<Fact<i32, ObjectField>> {
        seq![Fact { key: self.itemid, field: ObjectField::InventoryComponent, value: self.id }]
    }

    fn feed(&self) -> (r: Vec<Fact<i32, ObjectField>>) {
        let mut r: Vec<Fact<i32, ObjectField>> = Vec::new();
        r.push(Fact { key: self.itemid, field: ObjectField::InventoryComponent, value: self.id });
        assert(r@ =~= seq![Fact { key: self.itemid, field: ObjectField::InventoryComponent, value: self.id }]);
        r
    }
}

/// An item component refers to its currency and commendation objects and to
/// each of its sub items.
impl Feeds<ObjectField> for ItemComponentRow {
    open spec fn fed(&self) -> Seq<Fact<i32, ObjectField>> {
        keyed(opt_keys(self.currency_lot), ObjectField::CurrencyLot, self.id) + keyed(
            opt_keys(self.commendation_lot),
            ObjectField::CommendationLot,
            self.id,
        ) + keyed(opt_id_list(opt_bytes(self.sub_items)), ObjectField::Subitems, self.id)
    }

    fn feed(&self) -> (r: Vec<Fact<i32, ObjectField>>) {
        let mut r: Vec<Fact<i32, ObjectField>> = Vec::new();
        push_opt(&mut r, self.currency_lot, ObjectField::CurrencyLot, self.id);
        push_opt(&mut r, self.commendation_lot, ObjectField::CommendationLot, self.id);
        let subs = opt_decoded_ids(&self.sub_items);
        push_keyed(&mut r, subs.as_slice(), ObjectField::Subitems, self.id);
        assert(r@ =~= self.fed());
        r
    }
}

/// An item set refers to each item of its `itemIDs` list.
impl Feeds<ObjectField> for ItemSetRow {
    open spec fn fed(&self) -> Seq<Fact<i32, ObjectField>> {
        keyed(spec_id_list(latin1_decoded(self.item_i_ds@)), ObjectField::ItemSets, self.set_id)
    }

    fn feed(&self) -> (r: Vec<Fact<i32, ObjectField>>) {
        let mut r: Vec<Fact<i32, ObjectField>> = Vec::new();
        let lots = decoded_ids(self.item_i_ds.as_slice());
        push_keyed(&mut r, lots.as_slice(), ObjectField::ItemSets, self.set_id);
        assert(r@ =~= self.fed());
        r
    }
}

/// A jet pack pad refers to its warning volume and its blocker.
impl Feeds<ObjectField> for JetPackPadComponentRow {
    open spec fn fed(&self) -> Seq<Fact<i32, ObjectField>> {
        keyed(opt_keys(self.lot_warning_volume), ObjectField::LotWarningVolume, self.id) + keyed(
            opt_keys(self.lot_blocker),
            ObjectField::LotBlocker,
            self.id,
        )
    }

    fn feed(&self) -> (r: Vec<Fact<i32, ObjectField>>) {
        let mut r: Vec<Fact<i32, ObjectField>> = Vec::new();
        push_opt(&mut r, self.lot_warning_volume, ObjectField::LotWarningVolume, self.id);
        push_opt(&mut r, self.lot_blocker, ObjectField::LotBlocker, self.id);
        assert(r@ =~= self.fed());
        r
    }
}

/// Whether a reward item column names an item.
pub open spec fn is_reward_item(lot: i32) -> bool {
    lot > 0
}

/// A mission refers to each of its reward items.
impl Feeds<ObjectField> for MissionRow {
    open spec fn fed(&self) -> Seq<Fact<i32, ObjectField>> {
        keyed(self.reward_items@.filter(|lot: i32| is_reward_item(lot)), ObjectField::RewardItems, self.id)
    }

    fn feed(&self) -> (r: Vec<Fact<i32, ObjectField>>) {
        let mut r: Vec<Fact<i32, ObjectField>> = Vec::new();
        let ghost p = |lot: i32| is_reward_item(lot);
        let ghost items = self.reward_items@;
        for i in 0..8
            invariant
                items == self.reward_items@,
                items.len() == 8,
                p == (|lot: i32| is_reward_item(lot)),
                r@ == keyed(items.take(i as int).filter(p), ObjectField::RewardItems, self.id),
        {
            let lot = self.reward_items[i];
            proof {
                assert(items.take(i + 1) =~= items.take(i as int).push(lot));
                items.take(i as int).lemma_filter_push(lot, p);
            }
            if lot > 0 {
                r.push(Fact { key: lot, field: ObjectField::RewardItems, value: self.id });
                assert(r@ =~= keyed(items.take(i + 1).filter(p), ObjectField::RewardItems, self.id));
            }
        }
        assert(items.take(8) =~= items);
        r
    }
}

/// An NPC icon refers to the object it marks.
impl Feeds<ObjectField> for NpcIconRow {
    open spec fn fed(&self) -> Seq<Fact<i32, ObjectField>> {
        seq![Fact { key: self.lot, field: ObjectField::NpcIconsLot, value: self.id }]
    }

    fn feed(&self) -> (r: Vec<Fact<i32, ObjectField>>) {
        let mut r: Vec<Fact<i32, ObjectField>> = Vec::new();
        r.push(Fact { key: self.lot, field: ObjectField::NpcIconsLot, value: self.id });
        assert(r@ =~= seq![Fact { key: self.lot, field: ObjectField::NpcIconsLot, value: self.id }]);
        r
    }
}

/// A rebuild section refers to the object it is made of.
impl Feeds<ObjectField> for RebuildSectionRow {
    open spec fn fed(&self) -> Seq<Fact<i32, ObjectField>> {
        seq![Fact { key: self.object_id, field: ObjectField::RebuildSections, value: self.id }]
    }

    fn feed(&self) -> (r: Vec<Fact<i32, ObjectField>>) {
        let mut r: Vec<Fact<i32, ObjectField>> = Vec::new();
        r.push(Fact { key: self.object_id, field: ObjectField::RebuildSections, value: self.id });
        assert(r@ =~= seq![Fact { key: self.object_id, field: ObjectField::RebuildSections, value: self.id }]);
        r
    }
}

/// A reward code refers to the object it attaches.
impl Feeds<ObjectField> for RewardCodeRow {
    open spec fn fed(&self) -> Seq<Fact<i32, ObjectField>> {
        keyed(opt_keys(self.attachment_lot), ObjectField::RewardCodes, self.id)
    }

    fn feed(&self) -> (r: Vec<Fact<i32, ObjectField>>) {
        let mut r: Vec<Fact<i32, ObjectField>> = Vec::new();
        push_opt(&mut r, self.attachment_lot, ObjectField::RewardCodes, self.id);
        assert(r@ =~= keyed(opt_keys(self.attachment_lot), ObjectField::RewardCodes, self.id));
        r
    }
}

/// A collectible refers to the mission it requires.
impl Feeds<MissionField> for CollectibleComponentRow {
    open spec fn fed(&self) -> Seq<Fact<i32, MissionField>> {
        keyed(opt_keys(self.requirement_mission), MissionField::CollectibleComponents, self.id)
    }

    fn feed(&self) -> (r: Vec<Fact<i32, MissionField>>) {
        let mut r: Vec<Fact<i32, MissionField>> = Vec::new();
        push_opt(&mut r, self.requirement_mission, MissionField::CollectibleComponents, self.id);
        assert(r@ =~= keyed(opt_keys(self.requirement_mission), MissionField::CollectibleComponents, self.id));
        r
    }
}

/// An item component refers to the mission it requires.
impl Feeds<MissionField> for ItemComponentRow {
    open spec fn fed(&self) -> Seq<Fact<i32, MissionField>> {
        keyed(opt_keys(self.req_achievement_id), MissionField::ItemComponents, self.id)
    }

    fn feed(&self) -> (r: Vec<Fact<i32, MissionField>>) {
        let mut r: Vec<Fact<i32, MissionField>> = Vec::new();
        push_opt(&mut r, self.req_achievement_id, MissionField::ItemComponents, self.id);
        assert(r@ =~= keyed(opt_keys(self.req_achievement_id), MissionField::ItemComponents, self.id));
        r
    }
}

/// A mission refers to each mission its prerequisite list names.
impl Feeds<MissionField> for MissionRow {
    open spec fn fed(&self) -> Seq<Fact<i32, MissionField>> {
        match opt_bytes(self.prereq_mission_id) {
            Some(b) => if b.len() > 0 {
                keyed(spec_prereq_ids(latin1_decoded(b)), MissionField::Missions, self.id)
            } else {
                Seq::empty()
            },
            None => Seq::empty(),
        }
    }

    fn feed(&self) -> (r: Vec<Fact<i32, MissionField>>) {
        let mut r: Vec<Fact<i32, MissionField>> = Vec::new();
        match &self.prereq_mission_id {
            Some(b) => {
                if b.len() > 0 {
                    let text = decode(b.as_slice());
                    let chars = str_chars(text.as_str());
                    let ids = prereq_ids(chars.as_slice());
                    push_keyed(&mut r, ids.as_slice(), MissionField::Missions, self.id);
                    assert(r@ =~= self.fed());
                }
            },
            None => {},
        }
        r
    }
}

/// A behavior parameter with an action name links two behaviors: the one
/// it belongs to uses the one it names.
impl Feeds<BehaviorField> for BehaviorParameterRow {
    open spec fn fed(&self) -> Seq<Fact<i32, BehaviorField>> {
        if is_action_key(self.parameter_id@) {
            seq![
                Fact { key: self.behavior_id, field: BehaviorField::Uses, value: self.value },
                Fact { key: self.value, field: BehaviorField::UsedBy, value: self.behavior_id },
            ]
        } else {
            Seq::empty()
        }
    }

    fn feed(&self) -> (r: Vec<Fact<i32, BehaviorField>>) {
        let mut r: Vec<Fact<i32, BehaviorField>> = Vec::new();
        if match_action_key(self.parameter_id.as_slice()) {
            r.push(Fact { key: self.behavior_id, field: BehaviorField::Uses, value: self.value });
            r.push(Fact { key: self.value, field: BehaviorField::UsedBy, value: self.behavior_id });
            assert(r@ =~= self.fed());
        }
        r
    }
}

/// A skill refers to its root behavior.
impl Feeds<BehaviorField> for SkillRow {
    open spec fn fed(&self) -> Seq<Fact<i32, BehaviorField>> {
        seq![Fact { key: self.behavior_id, field: BehaviorField::Skill, value: self.skill_id }]
    }

    fn feed(&self) -> (r: Vec<Fact<i32, BehaviorField>>) {
        let mut r: Vec<Fact<i32, BehaviorField>> = Vec::new();
        r.push(Fact { key: self.behavior_id, field: BehaviorField::Skill, value: self.skill_id });
        assert(r@ =~= seq![Fact { key: self.behavior_id, field: BehaviorField::Skill, value: self.skill_id }]);
        r
    }
}

/// A skill belongs to its cooldown group.
impl Feeds<OneField> for SkillRow {
    open spec fn fed(&self) -> Seq<Fact<i32, OneField>> {
        keyed(opt_keys(self.cooldowngroup), OneField::Ids, self.skill_id)
    }

    fn feed(&self) -> (r: Vec<Fact<i32, OneField>>) {
        let mut r: Vec<Fact<i32, OneField>> = Vec::new();
        push_opt(&mut r, self.cooldowngroup, OneField::Ids, self.skill_id);
        assert(r@ =~= keyed(opt_keys(self.cooldowngroup), OneField::Ids, self.skill_id));
        r
    }
}

/// The value of the `factionList` column, where it has one that parses.
pub open spec fn faction_list_value(o: Option<Seq<u8>>) -> Option<i32> {
    match o {
        Some(b) => spec_parse_i32(latin1_decoded(b)),
        None => None,
    }
}

/// A destructible component belongs to its faction, and to the faction its
/// `factionList` names where that is not negative.
impl Feeds<FactionField> for DestructibleComponentRow {
    open spec fn fed(&self) -> Seq<Fact<i32, FactionField>> {
        keyed(opt_keys(self.faction), FactionField::Destructible, self.id) + match faction_list_value(
            opt_bytes(self.faction_list),
        ) {
            Some(n) => if n >= 0 {
                seq![Fact { key: n, field: FactionField::DestructibleList, value: self.id }]
            } else {
                Seq::empty()
            },
            None => Seq::empty(),
        }
    }

    fn feed(&self) -> (r: Vec<Fact<i32, FactionField>>) {
        let mut r: Vec<Fact<i32, FactionField>> = Vec::new();
        push_opt(&mut r, self.faction, FactionField::Destructible, self.id);
        match &self.faction_list {
            Some(b) => {
                let text = decode(b.as_slice());
                let chars = str_chars(text.as_str());
                match parse_i32(chars.as_slice()) {
                    Some(n) => {
                        if n >= 0 {
                            r.push(Fact { key: n, field: FactionField::DestructibleList, value: self.id });
                        }
                    },
                    None => {},
                }
            },
            None => {},
        }
        assert(r@ =~= self.fed());
        r
    }
}

/// A rebuild component belongs to its activity.
impl Feeds<OneField> for RebuildComponentRow {
    open spec fn fed(&self) -> Seq<Fact<i32, OneField>> {
        keyed(opt_keys(self.activity_id), OneField::Ids, self.id)
    }

    fn feed(&self) -> (r: Vec<Fact<i32, OneField>>) {
        let mut r: Vec<Fact<i32, OneField>> = Vec::new();
        push_opt(&mut r, self.activity_id, OneField::Ids, self.id);
        assert(r@ =~= keyed(opt_keys(self.activity_id), OneField::Ids, self.id));
        r
    }
}

/// An item set skill row enables a skill for an item set.
impl Feeds<SkillField> for ItemSetSkillRow {
    open spec fn fed(&self) -> Seq<Fact<i32, SkillField>> {
        seq![Fact { key: self.skill_id, field: SkillField::ItemSets, value: self.skill_set_id }]
    }

    fn feed(&self) -> (r: Vec<Fact<i32, SkillField>>) {
        let mut r: Vec<Fact<i32, SkillField>> = Vec::new();
        r.push(Fact { key: self.skill_id, field: SkillField::ItemSets, value: self.skill_set_id });
        assert(r@ =~= seq![Fact { key: self.skill_id, field: SkillField::ItemSets, value: self.skill_set_id }]);
        r
    }
}

/// An object skill row lets an object cast a skill.
impl Feeds<SkillField> for ObjectSkillRow {
    open spec fn fed(&self) -> Seq<Fact<i32, SkillField>> {
        seq![Fact { key: self.skill_id, field: SkillField::Objects, value: self.object_template }]
    }

    fn feed(&self) -> (r: Vec<Fact<i32, SkillField>>) {
        let mut r: Vec<Fact<i32, SkillField>> = Vec::new();
        r.push(Fact { key: self.skill_id, field: SkillField::Objects, value: self.object_template });
        assert(r@ =~= seq![Fact { key: self.skill_id, field: SkillField::Objects, value: self.object_template }]);
        r
    }
}

/// A mission task of type 10 (use a skill) names the skills in its first
/// parameter.
impl Feeds<SkillField> for MissionTaskRow {
    open spec fn fed(&self) -> Seq<Fact<i32, SkillField>> {
        if self.task_type == 10 {
            match opt_bytes(self.task_param1) {
                Some(b) => keyed(spec_plain_id_list(latin1_decoded(b)), SkillField::MissionTasks, self.uid),
                None => Seq::empty(),
            }
        } else {
            Seq::empty()
        }
    }

    fn feed(&self) -> (r: Vec<Fact<i32, SkillField>>) {
        let mut r: Vec<Fact<i32, SkillField>> = Vec::new();
        if self.task_type == 10 {
            match &self.task_param1 {
                Some(b) => {
                    let text = decode(b.as_slice());
                    let chars = str_chars(text.as_str());
                    let ids = plain_id_list(chars.as_slice());
                    push_keyed(&mut r, ids.as_slice(), SkillField::MissionTasks, self.uid);
                    assert(r@ =~= self.fed());
                },
                None => {},
            }
        }
        r
    }
}

/// A registry row puts an object under one component of one type.
impl Feeds<i32> for ComponentsRegistryRow {
    open spec fn fed(&self) -> Seq<Fact<i32, i32>> {
        seq![Fact { key: self.component_type, field: self.component_id, value: self.id }]
    }

    fn feed(&self) -> (r: Vec<Fact<i32, i32>>) {
        let mut r: Vec<Fact<i32, i32>> = Vec::new();
        r.push(Fact { key: self.component_type, field: self.component_id, value: self.id });
        assert(r@ =~= seq![Fact { key: self.component_type, field: self.component_id, value: self.id }]);
        r
    }
}

/// A loot table row maps its id to its item, within its loot table index.
impl Feeds<i32> for LootTableRow {
    open spec fn fed(&self) -> Seq<Fact<i32, i32>> {
        seq![Fact { key: self.loot_table_index, field: self.id, value: self.itemid }]
    }

    fn feed(&self) -> (r: Vec<Fact<i32, i32>>) {
        let mut r: Vec<Fact<i32, i32>> = Vec::new();
        r.push(Fact { key: self.loot_table_index, field: self.id, value: self.itemid });
        assert(r@ =~= seq![Fact { key: self.loot_table_index, field: self.id, value: self.itemid }]);
        r
    }
}

/// A `GatedRow` is filed under its `id`.
impl Gated for GatedRow {
    open spec fn gate_spec(&self) -> Option<Seq<u8>> {
        opt_bytes(self.gate_version)
    }

    open spec fn gated_id(&self) -> i32 {
        self.id
    }

    fn gate(&self) -> (r: Option<&Vec<u8>>) {
        match &self.gate_version {
            Some(b) => Some(b),
            None => None,
        }
    }

    fn gate_id(&self) -> (r: i32) {
        self.id
    }
}

/// A `DeletionRestrictionRow` is filed under its `id`.
impl Gated for DeletionRestrictionRow {
    open spec fn gate_spec(&self) -> Option<Seq<u8>> {
        opt_bytes(self.gate_version)
    }

    open spec fn gated_id(&self) -> i32 {
        self.id
    }

    fn gate(&self) -> (r: Option<&Vec<u8>>) {
        match &self.gate_version {
            Some(b) => Some(b),
            None => None,
        }
    }

    fn gate_id(&self) -> (r: i32) {
        self.id
    }
}

/// A `ItemSetRow` is filed under its `set_id`.
impl Gated for ItemSetRow {
    open spec fn gate_spec(&self) -> Option<Seq<u8>> {
        opt_bytes(self.gate_version)
    }

    open spec fn gated_id(&self) -> i32 {
        self.set_id
    }

    fn gate(&self) -> (r: Option<&Vec<u8>>) {
        match &self.gate_version {
            Some(b) => Some(b),
            None => None,
        }
    }

    fn gate_id(&self) -> (r: i32) {
        self.set_id
    }
}

/// A `MissionRow` is filed under its `id`.
impl Gated for MissionRow {
    open spec fn gate_spec(&self) -> Option<Seq<u8>> {
        opt_bytes(self.gate_version)
    }

    open spec fn gated_id(&self) -> i32 {
        self.id
    }

    fn gate(&self) -> (r: Option<&Vec<u8>>) {
        match &self.gate_version {
            Some(b) => Some(b),
            None => None,
        }
    }

    fn gate_id(&self) -> (r: i32) {
        self.id
    }
}

/// A `MissionTaskRow` is filed under its `uid`.
impl Gated for MissionTaskRow {
    open spec fn gate_spec(&self) -> Option<Seq<u8>> {
        opt_bytes(self.gate_version)
    }

    open spec fn gated_id(&self) -> i32 {
        self.uid
    }

    fn gate(&self) -> (r: Option<&Vec<u8>>) {
        match &self.gate_version {
            Some(b) => Some(b),
            None => None,
        }
    }

    fn gate_id(&self) -> (r: i32) {
        self.uid
    }
}

/// A `ObjectRow` is filed under its `id`.
impl Gated for ObjectRow {
    open spec fn gate_spec(&self) -> Option<Seq<u8>> {
        opt_bytes(self.gate_version)
    }

    open spec fn gated_id(&self) -> i32 {
        self.id
    }

    fn gate(&self) -> (r: Option<&Vec<u8>>) {
        match &self.gate_version {
            Some(b) => Some(b),
            None => None,
        }
    }

    fn gate_id(&self) -> (r: i32) {
        self.id
    }
}

/// A `RewardCodeRow` is filed under its `id`.
impl Gated for RewardCodeRow {
    open spec fn gate_spec(&self) -> Option<Seq<u8>> {
        opt_bytes(self.gate_version)
    }

    open spec fn gated_id(&self) -> i32 {
        self.id
    }

    fn gate(&self) -> (r: Option<&Vec<u8>>) {
        match &self.gate_version {
            Some(b) => Some(b),
            None => None,
        }
    }

    fn gate_id(&self) -> (r: i32) {
        self.id
    }
}

/// A `SkillRow` is filed under its `skill_id`.
impl Gated for SkillRow {
    open spec fn gate_spec(&self) -> Option<Seq<u8>> {
        opt_bytes(self.gate_version)
    }

    open spec fn gated_id(&self) -> i32 {
        self.skill_id
    }

    fn gate(&self) -> (r: Option<&Vec<u8>>) {
        match &self.gate_version {
            Some(b) => Some(b),
            None => None,
        }
    }

    fn gate_id(&self) -> (r: i32) {
        self.skill_id
    }
}

/// A zone loading tip always has a gate.
impl Gated for ZoneLoadingTipRow {
    open spec fn gate_spec(&self) -> Option<Seq<u8>> {
        Some(self.gate_version@)
    }

    open spec fn gated_id(&self) -> i32 {
        self.id
    }

    fn gate(&self) -> (r: Option<&Vec<u8>>) {
        Some(&self.gate_version)
    }

    fn gate_id(&self) -> (r: i32) {
        self.id
    }
}

} // verus!
