use paradox_server::api::rev::data::ReverseLookup;
use paradox_server::api::rev::lookup::{rev_mission_subtype, rev_mission_type, rev_object_type, rev_reply, MissionTypeReply, RevReply};
use paradox_server::api::rev::routes::Route;
use paradox_server::api::rev::rows::{BehaviorParameterRow, MissionRow, ObjectRow, RevTables, SkillRow};
use std::collections::BTreeSet;

fn empty() -> RevTables {
    RevTables {
        activities: vec![],
        behavior_parameters: vec![],
        collectible_component: vec![],
        comp_reg: vec![],
        currency_denominations: vec![],
        deletion_restrictions: vec![],
        destructible_component: vec![],
        emotes: vec![],
        loot_matrix: vec![],
        inventory_component: vec![],
        item_component: vec![],
        item_set_skills: vec![],
        item_sets: vec![],
        jet_pack_pad_component: vec![],
        loot_table: vec![],
        missions: vec![],
        mission_tasks: vec![],
        npc_icons: vec![],
        object_skills: vec![],
        objects: vec![],
        player_statistics: vec![],
        preconditions: vec![],
        property_template: vec![],
        rebuild_component: vec![],
        rebuild_sections: vec![],
        reward_codes: vec![],
        skills: vec![],
        speedchat_menu: vec![],
        ug_behavior_sounds: vec![],
        whats_cool_item_spotlight: vec![],
        whats_cool_news_and_tips: vec![],
        zone_loading_tips: vec![],
        zone_table: vec![],
    }
}

fn param(behavior_id: i32, name: &str, value: i32) -> BehaviorParameterRow {
    BehaviorParameterRow { behavior_id, parameter_id: name.as_bytes().to_vec(), value }
}

fn object(id: i32, ty: &str) -> ObjectRow {
    ObjectRow {
        id,
        name: format!("obj{}", id).into_bytes(),
        object_type: ty.as_bytes().to_vec(),
        description: None,
        display_name: None,
        internal_notes: None,
        gate_version: None,
    }
}

fn mission(id: i32, ty: &str, sub: Option<&str>) -> MissionRow {
    MissionRow {
        id,
        defined_type: ty.as_bytes().to_vec(),
        defined_subtype: sub.map(|s| s.as_bytes().to_vec()),
        gate_version: None,
        prereq_mission_id: None,
        reward_items: [0; 8],
    }
}

fn sample() -> ReverseLookup {
    let mut t = empty();
    t.behavior_parameters = vec![
        param(1, "action", 2),
        param(2, "behavior 1", 3),
        param(3, "on_success", 1),
        param(3, "miss action", -1),
        param(4, "radius", 5),
    ];
    t.skills = vec![SkillRow { skill_id: 10, behavior_id: 1, cooldowngroup: Some(7), gate_version: None }];
    t.objects = vec![object(100, "Enemies"), object(101, "Smashables"), object(102, "Enemies")];
    t.missions = vec![mission(20, "Story", Some("Race")), mission(21, "Story", None), mission(22, "Side", None)];
    ReverseLookup::new(&t)
}

#[test]
fn behavior_graph() {
    let rev = sample();
    let b1 = rev.behaviors.get(&1).unwrap();
    assert_eq!(b1.uses, BTreeSet::from([2]));
    assert_eq!(b1.used_by, BTreeSet::from([3]));
    assert_eq!(b1.skill, BTreeSet::from([10]));
    assert!(!rev.behaviors.contains_key(&4));
    assert_eq!(rev.behaviors.get(&-1).unwrap().used_by, BTreeSet::from([3]));
    assert_eq!(rev.get_behavior_set(1), BTreeSet::from([1, 2, 3]));
    assert_eq!(rev.get_behavior_set(3), BTreeSet::from([1, 2, 3]));
    assert_eq!(rev.get_behavior_set(99), BTreeSet::from([99]));
    assert!(rev.skill_cooldown_groups.contains_key(&7));
}

#[test]
fn type_indices() {
    let rev = sample();
    assert_eq!(rev_object_type(&rev, "Enemies"), Some(&vec![100, 102]));
    assert_eq!(rev_object_type(&rev, "Smashables"), Some(&vec![101]));
    assert_eq!(rev_object_type(&rev, "Nothing"), None);
    assert_eq!(rev_mission_subtype(&rev, "Story", "Race"), Some(&vec![20]));
    assert_eq!(rev_mission_subtype(&rev, "Story", ""), Some(&vec![21]));
    assert!(matches!(rev_mission_type(&rev, "Side"), MissionTypeReply::Missions(ids) if *ids == vec![22]));
    assert!(matches!(rev_mission_type(&rev, "Nope"), MissionTypeReply::Unknown));
    assert!(matches!(rev_mission_type(&rev, "Story"), MissionTypeReply::Missions(ids) if *ids == vec![21]));
}

#[test]
fn replies() {
    let rev = sample();
    match rev_reply(&rev, &Route::Base) {
        RevReply::Apis(a) => assert_eq!(a.len(), 11),
        _ => panic!("apis"),
    }
    match rev_reply(&rev, &Route::BehaviorById(2)) {
        RevReply::Behavior(Some(b), set) => {
            assert_eq!(b.uses, BTreeSet::from([3]));
            assert_eq!(set, BTreeSet::from([1, 2, 3]));
        }
        _ => panic!("behavior"),
    }
    match rev_reply(&rev, &Route::ObjectTypes) {
        RevReply::Names(n) => assert_eq!(n, vec!["Enemies", "Smashables"]),
        _ => panic!("object types"),
    }
    match rev_reply(&rev, &Route::Objects) {
        RevReply::Ids(ids) => assert!(ids.windows(2).all(|w| w[0] < w[1])),
        _ => panic!("objects"),
    }
}

#[test]
fn uses_and_used_by_mirror_each_other() {
    let rev = sample();
    let ids = [-1, 1, 2, 3, 4, 5, 99];
    for a in ids {
        for b in ids {
            let uses = rev.behaviors.get(&a).map_or(false, |x| x.uses.contains(&b));
            let used_by = rev.behaviors.get(&b).map_or(false, |x| x.used_by.contains(&a));
            assert_eq!(uses, used_by, "{} -> {}", a, b);
        }
    }
    assert!(rev.behaviors.get(&3).unwrap().uses.contains(&-1));
    assert!(!rev.behaviors.get(&4).map_or(false, |x| x.uses.contains(&5)));
}
