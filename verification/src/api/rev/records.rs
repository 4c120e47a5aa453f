//! # Index entries
//!
//! The values that the reverse lookup stores per key. Each names its sets
//! (or lists) of ids by a field enum, through which the building blocks of
//! [`super::index`] fill it.

use vstd::prelude::*;
use std::collections::{BTreeMap, BTreeSet};
use super::index::{SetRecord, ListRecord, OneField};

verus! {

/// The lists of a [`SkillIdLookup`].
#[derive(Clone, Copy, Debug)]
pub enum SkillField {
    MissionTasks,
    Objects,
    ItemSets,
}

/// What refers to one skill.
#[derive(Debug)]
pub struct SkillIdLookup {
    /// The `uid`s of the mission tasks that use this skill.
    pub mission_tasks: Vec<i32>,
    /// The objects that can cast this skill.
    pub objects: Vec<i32>,
    /// The item sets that enable this skill.
    pub item_sets: Vec<i32>,
}

impl ListRecord for SkillIdLookup {
    type Field = SkillField;

    open spec fn list_of(&self, f: SkillField) -> Seq<i32> {
        match f {
            SkillField::MissionTasks => self.mission_tasks@,
            SkillField::Objects => self.objects@,
            SkillField::ItemSets => self.item_sets@,
        }
    }

    fn blank() -> (r: Self) {
        SkillIdLookup { mission_tasks: Vec::new(), objects: Vec::new(), item_sets: Vec::new() }
    }

    fn push(&mut self, f: SkillField, v: i32) {
        match f {
            SkillField::MissionTasks => self.mission_tasks.push(v),
            SkillField::Objects => self.objects.push(v),
            SkillField::ItemSets => self.item_sets.push(v),
        }
    }
}

/// The sets of a [`BehaviorKeyIndex`].
#[derive(Clone, Copy, Debug)]
pub enum BehaviorField {
    Skill,
    Uses,
    UsedBy,
}

/// How one behavior is linked to skills and other behaviors.
#[derive(Debug)]
pub struct BehaviorKeyIndex {
    /// The skills whose root behavior this is.
    pub skill: BTreeSet<i32>,
    /// The behaviors this one names in an action parameter.
    pub uses: BTreeSet<i32>,
    /// The behaviors that name this one in an action parameter.
    pub used_by: BTreeSet<i32>,
}

impl SetRecord for BehaviorKeyIndex {
    type Field = BehaviorField;

    open spec fn set_of(&self, f: BehaviorField) -> Set<i32> {
        match f {
            BehaviorField::Skill => self.skill@,
            BehaviorField::Uses => self.uses@,
            BehaviorField::UsedBy => self.used_by@,
        }
    }

    open spec fn scalar(&self) -> Option<i32> {
        None
    }

    fn blank() -> (r: Self) {
        BehaviorKeyIndex { skill: BTreeSet::new(), uses: BTreeSet::new(), used_by: BTreeSet::new() }
    }

    fn add(&mut self, f: BehaviorField, v: i32) {
        match f {
            BehaviorField::Skill => {
                self.skill.insert(v);
            },
            BehaviorField::Uses => {
                self.uses.insert(v);
            },
            BehaviorField::UsedBy => {
                self.used_by.insert(v);
            },
        }
    }
}

/// The objects that have one component: the `id` of each `ComponentsRegistry`
/// row that names it, in table order.
#[derive(Debug)]
pub struct ComponentUse {
    pub lots: Vec<i32>,
}

impl ListRecord for ComponentUse {
    type Field = OneField;

    open spec fn list_of(&self, f: OneField) -> Seq<i32> {
        self.lots@
    }

    fn blank() -> (r: Self) {
        ComponentUse { lots: Vec::new() }
    }

    fn push(&mut self, f: OneField, v: i32) {
        self.lots.push(v);
    }
}

/// The components of one component type.
#[derive(Debug)]
pub struct ComponentsUse {
    /// Map from component id to the objects that have it.
    pub components: BTreeMap<i32, ComponentUse>,
}

/// The component type of destructible components.
pub const COMPONENT_ID_DESTRUCTIBLE: i32 = 7;

/// The component type of item components.
pub const COMPONENT_ID_ITEM: i32 = 11;

/// The component type of collectible components.
pub const COMPONENT_ID_COLLECTIBLE: i32 = 23;

/// The mission that one mission task belongs to.
#[derive(Clone, Copy, Debug)]
pub struct MissionTaskUIDLookup {
    pub mission: i32,
}

/// All data associated with one activity id.
#[derive(Debug)]
pub struct ActivityRev {
    /// Ids of the `RebuildComponent`s with this `activityID`.
    pub rebuild: Vec<i32>,
}

impl ListRecord for ActivityRev {
    type Field = OneField;

    open spec fn list_of(&self, f: OneField) -> Seq<i32> {
        self.rebuild@
    }

    fn blank() -> (r: Self) {
        ActivityRev { rebuild: Vec::new() }
    }

    fn push(&mut self, f: OneField, v: i32) {
        self.rebuild.push(v);
    }
}

/// One loot table index.
#[derive(Debug)]
pub struct LootTableIndexRev {
    /// Map from `LootTable::id` to `LootTable::itemid` for this index.
    pub items: BTreeMap<i32, i32>,
}

/// The sets of a [`FactionRev`].
#[derive(Clone, Copy, Debug)]
pub enum FactionField {
    DestructibleList,
    Destructible,
}

/// What refers to one faction.
#[derive(Debug)]
pub struct FactionRev {
    /// Destructible components that have this id in `factionList`.
    pub destructible_list: BTreeSet<i32>,
    /// Destructible components that have this id in `faction`.
    pub destructible: BTreeSet<i32>,
}

impl SetRecord for FactionRev {
    type Field = FactionField;

    open spec fn set_of(&self, f: FactionField) -> Set<i32> {
        match f {
            FactionField::DestructibleList => self.destructible_list@,
            FactionField::Destructible => self.destructible@,
        }
    }

    open spec fn scalar(&self) -> Option<i32> {
        None
    }

    fn blank() -> (r: Self) {
        FactionRev { destructible_list: BTreeSet::new(), destructible: BTreeSet::new() }
    }

    fn add(&mut self, f: FactionField, v: i32) {
        match f {
            FactionField::DestructibleList => {
                self.destructible_list.insert(v);
            },
            FactionField::Destructible => {
                self.destructible.insert(v);
            },
        }
    }
}

/// The texts of one object, for searching.
#[derive(Debug)]
pub struct ObjectStrings {
    /// name
    pub n: String,
    /// description
    pub d: Option<String>,
    /// display name
    pub i: Option<String>,
    /// internal notes
    pub t: Option<String>,
}

/// The text of an optional string.
pub open spec fn opt_text(o: Option<String>) -> Option<Seq<char>> {
    match o {
        Some(s) => Some(s@),
        None => None,
    }
}

impl View for ObjectStrings {
    type V = (Seq<char>, Option<Seq<char>>, Option<Seq<char>>, Option<Seq<char>>);

    open spec fn view(&self) -> Self::V {
        (self.n@, opt_text(self.d), opt_text(self.i), opt_text(self.t))
    }
}

/// Item components that refer to one object.
#[derive(Debug)]
pub struct ObjectItemComponentUse {
    pub currency_lot: BTreeSet<i32>,
    pub commendation_lot: BTreeSet<i32>,
    pub subitems: BTreeSet<i32>,
}

/// Jet pack pads that refer to one object.
#[derive(Debug)]
pub struct ObjectJetPackUse {
    pub lot_blocker: BTreeSet<i32>,
    pub lot_warning_volume: BTreeSet<i32>,
}

/// Missions that refer to one object.
#[derive(Debug)]
pub struct ObjectMissionUse {
    pub reward_items: BTreeSet<i32>,
}

/// Pet taming puzzles that refer to one object.
#[derive(Debug)]
pub struct ObjectPetTamingUse {
    pub model_lot: BTreeSet<i32>,
    pub npc_lot: BTreeSet<i32>,
}

/// The sets of an [`ObjectsUse`].
#[derive(Clone, Copy, Debug)]
pub enum ObjectField {
    DeletionRestrictions,
    InventoryComponent,
    CurrencyLot,
    CommendationLot,
    Subitems,
    ItemSets,
    LotBlocker,
    LotWarningVolume,
    NpcIconsLot,
    RebuildSections,
    RewardItems,
    RewardCodes,
    ModelLot,
    NpcLot,
}

/// What refers to one object template (LOT).
#[derive(Debug)]
pub struct ObjectsUse {
    /// The `CurrencyDenominations.value` for this LOT.
    pub currency_denomination: Option<i32>,
    pub deletion_restrictions: BTreeSet<i32>,
    pub inventory_component: BTreeSet<i32>,
    pub item_component: ObjectItemComponentUse,
    pub item_sets: BTreeSet<i32>,
    pub jet_pack_pad_component: ObjectJetPackUse,
    pub npc_icons_lot: BTreeSet<i32>,
    pub rebuild_sections: BTreeSet<i32>,
    pub missions: ObjectMissionUse,
    pub reward_codes: BTreeSet<i32>,
    pub pet_taming_puzzles: ObjectPetTamingUse,
}

impl SetRecord for ObjectsUse {
    type Field = ObjectField;

    open spec fn set_of(&self, f: ObjectField) -> Set<i32> {
        match f {
            ObjectField::DeletionRestrictions => self.deletion_restrictions@,
            ObjectField::InventoryComponent => self.inventory_component@,
            ObjectField::CurrencyLot => self.item_component.currency_lot@,
            ObjectField::CommendationLot => self.item_component.commendation_lot@,
            ObjectField::Subitems => self.item_component.subitems@,
            ObjectField::ItemSets => self.item_sets@,
            ObjectField::LotBlocker => self.jet_pack_pad_component.lot_blocker@,
            ObjectField::LotWarningVolume => self.jet_pack_pad_component.lot_warning_volume@,
            ObjectField::NpcIconsLot => self.npc_icons_lot@,
            ObjectField::RebuildSections => self.rebuild_sections@,
            ObjectField::RewardItems => self.missions.reward_items@,
            ObjectField::RewardCodes => self.reward_codes@,
            ObjectField::ModelLot => self.pet_taming_puzzles.model_lot@,
            ObjectField::NpcLot => self.pet_taming_puzzles.npc_lot@,
        }
    }

    open spec fn scalar(&self) -> Option<i32> {
        self.currency_denomination
    }

    fn blank() -> (r: Self) {
        ObjectsUse {
            currency_denomination: None,
            deletion_restrictions: BTreeSet::new(),
            inventory_component: BTreeSet::new(),
            item_component: ObjectItemComponentUse {
                currency_lot: BTreeSet::new(),
                commendation_lot: BTreeSet::new(),
                subitems: BTreeSet::new(),
            },
            item_sets: BTreeSet::new(),
            jet_pack_pad_component: ObjectJetPackUse {
                lot_blocker: BTreeSet::new(),
                lot_warning_volume: BTreeSet::new(),
            },
            npc_icons_lot: BTreeSet::new(),
            rebuild_sections: BTreeSet::new(),
            missions: ObjectMissionUse { reward_items: BTreeSet::new() },
            reward_codes: BTreeSet::new(),
            pet_taming_puzzles: ObjectPetTamingUse {
                model_lot: BTreeSet::new(),
                npc_lot: BTreeSet::new(),
            },
        }
    }

    fn add(&mut self, f: ObjectField, v: i32) {
        match f {
            ObjectField::DeletionRestrictions => {
                self.deletion_restrictions.insert(v);
            },
            ObjectField::InventoryComponent => {
                self.inventory_component.insert(v);
            },
            ObjectField::CurrencyLot => {
                self.item_component.currency_lot.insert(v);
            },
            ObjectField::CommendationLot => {
                self.item_component.commendation_lot.insert(v);
            },
            ObjectField::Subitems => {
                self.item_component.subitems.insert(v);
            },
            ObjectField::ItemSets => {
                self.item_sets.insert(v);
            },
            ObjectField::LotBlocker => {
                self.jet_pack_pad_component.lot_blocker.insert(v);
            },
            ObjectField::LotWarningVolume => {
                self.jet_pack_pad_component.lot_warning_volume.insert(v);
            },
            ObjectField::NpcIconsLot => {
                self.npc_icons_lot.insert(v);
            },
            ObjectField::RebuildSections => {
                self.rebuild_sections.insert(v);
            },
            ObjectField::RewardItems => {
                self.missions.reward_items.insert(v);
            },
            ObjectField::RewardCodes => {
                self.reward_codes.insert(v);
            },
            ObjectField::ModelLot => {
                self.pet_taming_puzzles.model_lot.insert(v);
            },
            ObjectField::NpcLot => {
                self.pet_taming_puzzles.npc_lot.insert(v);
            },
        }
    }
}

/// The sets of a [`GateVersionUse`].
#[derive(Clone, Copy, Debug)]
pub enum GateField {
    Activities,
    DeletionRestrictions,
    Emotes,
    LootMatrix,
    ItemSets,
    Missions,
    MissionTasks,
    Objects,
    PlayerStatistics,
    Preconditions,
    PropertyTemplate,
    RewardCodes,
    SpeedchatMenu,
    Skills,
    UgBehaviorSounds,
    WhatsCoolItemSpotlight,
    WhatsCoolNewsAndTips,
    ZoneLoadingTips,
    Zones,
}

/// What one game version (gate) unlocks, table by table.
#[derive(Debug)]
pub struct GateVersionUse {
    pub activities: BTreeSet<i32>,
    pub deletion_restrictions: BTreeSet<i32>,
    pub emotes: BTreeSet<i32>,
    pub loot_matrix: BTreeSet<i32>,
    pub item_sets: BTreeSet<i32>,
    pub missions: BTreeSet<i32>,
    pub mission_tasks: BTreeSet<i32>,
    pub objects: BTreeSet<i32>,
    pub player_statistics: BTreeSet<i32>,
    pub preconditions: BTreeSet<i32>,
    pub property_template: BTreeSet<i32>,
    pub reward_codes: BTreeSet<i32>,
    pub speedchat_menu: BTreeSet<i32>,
    pub skills: BTreeSet<i32>,
    pub ug_behavior_sounds: BTreeSet<i32>,
    pub whats_cool_item_spotlight: BTreeSet<i32>,
    pub whats_cool_news_and_tips: BTreeSet<i32>,
    pub zone_loading_tips: BTreeSet<i32>,
    pub zones: BTreeSet<i32>,
}

impl SetRecord for GateVersionUse {
    type Field = GateField;

    open spec fn set_of(&self, f: GateField) -> Set<i32> {
        match f {
            GateField::Activities => self.activities@,
            GateField::DeletionRestrictions => self.deletion_restrictions@,
            GateField::Emotes => self.emotes@,
            GateField::LootMatrix => self.loot_matrix@,
            GateField::ItemSets => self.item_sets@,
            GateField::Missions => self.missions@,
            GateField::MissionTasks => self.mission_tasks@,
            GateField::Objects => self.objects@,
            GateField::PlayerStatistics => self.player_statistics@,
            GateField::Preconditions => self.preconditions@,
            GateField::PropertyTemplate => self.property_template@,
            GateField::RewardCodes => self.reward_codes@,
            GateField::SpeedchatMenu => self.speedchat_menu@,
            GateField::Skills => self.skills@,
            GateField::UgBehaviorSounds => self.ug_behavior_sounds@,
            GateField::WhatsCoolItemSpotlight => self.whats_cool_item_spotlight@,
            GateField::WhatsCoolNewsAndTips => self.whats_cool_news_and_tips@,
            GateField::ZoneLoadingTips => self.zone_loading_tips@,
            GateField::Zones => self.zones@,
        }
    }

    open spec fn scalar(&self) -> Option<i32> {
        None
    }

    fn blank() -> (r: Self) {
        GateVersionUse {
            activities: BTreeSet::new(),
            deletion_restrictions: BTreeSet::new(),
            emotes: BTreeSet::new(),
            loot_matrix: BTreeSet::new(),
            item_sets: BTreeSet::new(),
            missions: BTreeSet::new(),
            mission_tasks: BTreeSet::new(),
            objects: BTreeSet::new(),
            player_statistics: BTreeSet::new(),
            preconditions: BTreeSet::new(),
            property_template: BTreeSet::new(),
            reward_codes: BTreeSet::new(),
            speedchat_menu: BTreeSet::new(),
            skills: BTreeSet::new(),
            ug_behavior_sounds: BTreeSet::new(),
            whats_cool_item_spotlight: BTreeSet::new(),
            whats_cool_news_and_tips: BTreeSet::new(),
            zone_loading_tips: BTreeSet::new(),
            zones: BTreeSet::new(),
        }
    }

    fn add(&mut self, f: GateField, v: i32) {
        match f {
            GateField::Activities => {
                self.activities.insert(v);
            },
            GateField::DeletionRestrictions => {
                self.deletion_restrictions.insert(v);
            },
            GateField::Emotes => {
                self.emotes.insert(v);
            },
            GateField::LootMatrix => {
                self.loot_matrix.insert(v);
            },
            GateField::ItemSets => {
                self.item_sets.insert(v);
            },
            GateField::Missions => {
                self.missions.insert(v);
            },
            GateField::MissionTasks => {
                self.mission_tasks.insert(v);
            },
            GateField::Objects => {
                self.objects.insert(v);
            },
            GateField::PlayerStatistics => {
                self.player_statistics.insert(v);
            },
            GateField::Preconditions => {
                self.preconditions.insert(v);
            },
            GateField::PropertyTemplate => {
                self.property_template.insert(v);
            },
            GateField::RewardCodes => {
                self.reward_codes.insert(v);
            },
            GateField::SpeedchatMenu => {
                self.speedchat_menu.insert(v);
            },
            GateField::Skills => {
                self.skills.insert(v);
            },
            GateField::UgBehaviorSounds => {
                self.ug_behavior_sounds.insert(v);
            },
            GateField::WhatsCoolItemSpotlight => {
                self.whats_cool_item_spotlight.insert(v);
            },
            GateField::WhatsCoolNewsAndTips => {
                self.whats_cool_news_and_tips.insert(v);
            },
            GateField::ZoneLoadingTips => {
                self.zone_loading_tips.insert(v);
            },
            GateField::Zones => {
                self.zones.insert(v);
            },
        }
    }
}

/// The skills of one cooldown group.
#[derive(Debug)]
pub struct SkillCooldownGroup {
    pub skills: BTreeSet<i32>,
}

impl SetRecord for SkillCooldownGroup {
    type Field = OneField;

    open spec fn set_of(&self, f: OneField) -> Set<i32> {
        self.skills@
    }

    open spec fn scalar(&self) -> Option<i32> {
        None
    }

    fn blank() -> (r: Self) {
        SkillCooldownGroup { skills: BTreeSet::new() }
    }

    fn add(&mut self, f: OneField, v: i32) {
        self.skills.insert(v);
    }
}

/// Collectible components that refer to one mission.
#[derive(Debug)]
pub struct MissionRevCollectibleComponents {
    /// `CollectibleComponent`s that name this mission as `requirement_mission`.
    pub requirement_for: BTreeSet<i32>,
}

/// Item components that refer to one mission.
#[derive(Debug)]
pub struct MissionRevItemComponents {
    /// `ItemComponent`s that name this mission as `reqAchievementID`.
    pub requirement_for: BTreeSet<i32>,
}

/// Missions that refer to one mission.
#[derive(Debug)]
pub struct MissionRevMissions {
    /// `Missions` that require this mission in some way.
    pub prereq_for: BTreeSet<i32>,
}

/// The sets of a [`MissionRev`].
#[derive(Clone, Copy, Debug)]
pub enum MissionField {
    CollectibleComponents,
    ItemComponents,
    Missions,
}

/// What refers to one mission.
#[derive(Debug)]
pub struct MissionRev {
    pub collectible_components: MissionRevCollectibleComponents,
    pub item_components: MissionRevItemComponents,
    pub missions: MissionRevMissions,
}

impl SetRecord for MissionRev {
    type Field = MissionField;

    open spec fn set_of(&self, f: MissionField) -> Set<i32> {
        match f {
            MissionField::CollectibleComponents => self.collectible_components.requirement_for@,
            MissionField::ItemComponents => self.item_components.requirement_for@,
            MissionField::Missions => self.missions.prereq_for@,
        }
    }

    open spec fn scalar(&self) -> Option<i32> {
        None
    }

    fn blank() -> (r: Self) {
        MissionRev {
            collectible_components: MissionRevCollectibleComponents {
                requirement_for: BTreeSet::new(),
            },
            item_components: MissionRevItemComponents { requirement_for: BTreeSet::new() },
            missions: MissionRevMissions { prereq_for: BTreeSet::new() },
        }
    }

    fn add(&mut self, f: MissionField, v: i32) {
        match f {
            MissionField::CollectibleComponents => {
                self.collectible_components.requirement_for.insert(v);
            },
            MissionField::ItemComponents => {
                self.item_components.requirement_for.insert(v);
            },
            MissionField::Missions => {
                self.missions.prereq_for.insert(v);
            },
        }
    }
}

} // verus!
