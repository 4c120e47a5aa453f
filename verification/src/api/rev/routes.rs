//! The route table of the reverse API `/rev`.

use vstd::prelude::*;
use crate::api::{spec_percent_decoded, PercentDecoded};
use crate::path::PathSplit;
use crate::text::{
    chars_eq_str, chars_to_string, lemma_split_first, lemma_split_single, parse_i32, spec_parse_i32, spec_split,
};

verus! {

/// The names of the reverse APIs, in the order `/rev` lists them.
pub open spec fn rev_api_names() -> Seq<Seq<char>> {
    seq!["activity"@, "behaviors"@, "component_types"@, "faction"@, "gate_version"@, "loot_table_index"@, "mission_types"@, "missions"@, "objects"@, "object_types"@, "skill_ids"@] 
}

/// The texts of a list of string slices.
pub open spec fn str_texts(a: Seq<&'static str>) -> Seq<Seq<char>> {
    a.map_values(|s: &'static str| s@)
}

/// The names of the reverse APIs, as `/rev` lists them.
pub fn rev_apis() -> (r: Vec<&'static str>)
    ensures
        str_texts(r@) == rev_api_names(),
{
    let r = vec!["activity", "behaviors", "component_types", "faction", "gate_version", "loot_table_index", "mission_types", "missions", "objects", "object_types", "skill_ids"];
    assert(str_texts(r@) =~= rev_api_names());
    r
}

/// A request to the reverse API.
#[derive(Debug)]
pub enum Route {
    Base,
    Activities,
    ActivityById(i32),
    BehaviorById(i32),
    ComponentTypes,
    ComponentTypeById(i32),
    ComponentTypeByIdAndCid(i32, i32),
    Factions,
    FactionById(i32),
    LootTableIndexById(i32),
    MissionTypes,
    MissionTypesFull,
    MissionTypeByTy(PercentDecoded),
    MissionTypeBySubTy(PercentDecoded, PercentDecoded),
    Objects,
    ObjectById(i32),
    ObjectsSearchIndex,
    ObjectTypes,
    ObjectTypeByName(PercentDecoded),
    SkillById(i32),
    GateVersions,
    GateVersionByName(PercentDecoded),
}

/// A reverse API request, with its names as character sequences.
pub enum RouteView {
    Base,
    Activities,
    ActivityById(i32),
    BehaviorById(i32),
    ComponentTypes,
    ComponentTypeById(i32),
    ComponentTypeByIdAndCid(i32, i32),
    Factions,
    FactionById(i32),
    LootTableIndexById(i32),
    MissionTypes,
    MissionTypesFull,
    MissionTypeByTy(Seq<char>),
    MissionTypeBySubTy(Seq<char>, Seq<char>),
    Objects,
    ObjectById(i32),
    ObjectsSearchIndex,
    ObjectTypes,
    ObjectTypeByName(Seq<char>),
    SkillById(i32),
    GateVersions,
    GateVersionByName(Seq<char>),
}

impl View for Route {
    type V = RouteView;

    open spec fn view(&self) -> RouteView {
        match self {
            Route::Base => RouteView::Base,
            Route::Activities => RouteView::Activities,
            Route::ActivityById(i) => RouteView::ActivityById(*i),
            Route::BehaviorById(i) => RouteView::BehaviorById(*i),
            Route::ComponentTypes => RouteView::ComponentTypes,
            Route::ComponentTypeById(i) => RouteView::ComponentTypeById(*i),
            Route::ComponentTypeByIdAndCid(i, c) => RouteView::ComponentTypeByIdAndCid(*i, *c),
            Route::Factions => RouteView::Factions,
            Route::FactionById(i) => RouteView::FactionById(*i),
            Route::LootTableIndexById(i) => RouteView::LootTableIndexById(*i),
            Route::MissionTypes => RouteView::MissionTypes,
            Route::MissionTypesFull => RouteView::MissionTypesFull,
            Route::MissionTypeByTy(t) => RouteView::MissionTypeByTy(t@),
            Route::MissionTypeBySubTy(t, s) => RouteView::MissionTypeBySubTy(t@, s@),
            Route::Objects => RouteView::Objects,
            Route::ObjectById(i) => RouteView::ObjectById(*i),
            Route::ObjectsSearchIndex => RouteView::ObjectsSearchIndex,
            Route::ObjectTypes => RouteView::ObjectTypes,
            Route::ObjectTypeByName(t) => RouteView::ObjectTypeByName(t@),
            Route::SkillById(i) => RouteView::SkillById(*i),
            Route::GateVersions => RouteView::GateVersions,
            Route::GateVersionByName(n) => RouteView::GateVersionByName(n@),
        }
    }
}

/// The `i`-th remaining segment, if there is one.
pub open spec fn at(p: Seq<Seq<char>>, i: int) -> Option<Seq<char>> {
    if 0 <= i < p.len() {
        Some(p[i])
    } else {
        None
    }
}

/// Whether the path ends before segment `i`, or with a single empty segment
/// there (a trailing `/`).
pub open spec fn ends_at(p: Seq<Seq<char>>, i: int) -> bool {
    at(p, i) is None || (p[i].len() == 0 && at(p, i + 1) is None)
}

/// `/loot_table_index/{id}` after the prefix: an id, then an optional
/// trailing `/`.
pub open spec fn spec_lti_route(p: Seq<Seq<char>>) -> Option<RouteView> {
    match at(p, 0) {
        Some(key) => match spec_parse_i32(key) {
            Some(id) => if ends_at(p, 1) {
                Some(RouteView::LootTableIndexById(id))
            } else {
                None
            },
            None => None,
        },
        None => None,
    }
}

/// `/mission_types[/{type}[/{subtype}]]` or `/mission_types/full` after
/// the prefix.
pub open spec fn spec_mission_types_route(p: Seq<Seq<char>>) -> Option<RouteView> {
    if ends_at(p, 0) {
        Some(RouteView::MissionTypes)
    } else if p[0].len() == 0 {
        None
    } else if p[0] == "full"@ {
        if ends_at(p, 1) {
            Some(RouteView::MissionTypesFull)
        } else {
            None
        }
    } else {
        match spec_percent_decoded(p[0]) {
            Some(t) => if ends_at(p, 1) {
                Some(RouteView::MissionTypeByTy(t))
            } else if p[1].len() == 0 {
                None
            } else {
                match spec_percent_decoded(p[1]) {
                    Some(s) => if ends_at(p, 2) {
                        Some(RouteView::MissionTypeBySubTy(t, s))
                    } else {
                        None
                    },
                    None => None,
                }
            },
            None => None,
        }
    }
}

/// The reverse API request that the segments `p` (after `/rev`) name, or
/// `None` when they name none.
pub open spec fn spec_rev_route(p: Seq<Seq<char>>) -> Option<RouteView> {
    if p.len() == 0 {
        Some(RouteView::Base)
    } else {
        let k = p[0];
        if k == "activity"@ || k == "activities"@ {
            match at(p, 1) {
                None => Some(RouteView::Activities),
                Some(s) => if at(p, 2) is Some {
                    None
                } else if s.len() == 0 {
                    Some(RouteView::Activities)
                } else {
                    match spec_parse_i32(s) {
                        Some(id) => Some(RouteView::ActivityById(id)),
                        None => None,
                    }
                },
            }
        } else if k == "behaviors"@ {
            match at(p, 1) {
                Some(s) => match spec_parse_i32(s) {
                    Some(id) => Some(RouteView::BehaviorById(id)),
                    None => None,
                },
                None => None,
            }
        } else if k == "component_types"@ || k == "component-types"@ {
            if ends_at(p, 1) {
                Some(RouteView::ComponentTypes)
            } else if p[1].len() == 0 {
                None
            } else {
                match spec_parse_i32(p[1]) {
                    Some(id) => if ends_at(p, 2) {
                        Some(RouteView::ComponentTypeById(id))
                    } else if p[2].len() == 0 {
                        None
                    } else {
                        match spec_parse_i32(p[2]) {
                            Some(cid) => if ends_at(p, 3) {
                                Some(RouteView::ComponentTypeByIdAndCid(id, cid))
                            } else {
                                None
                            },
                            None => None,
                        }
                    },
                    None => None,
                }
            }
        } else if k == "faction"@ || k == "factions"@ {
            if ends_at(p, 1) {
                Some(RouteView::Factions)
            } else if p[1].len() == 0 {
                None
            } else {
                match spec_parse_i32(p[1]) {
                    Some(id) => if ends_at(p, 2) {
                        Some(RouteView::FactionById(id))
                    } else {
                        None
                    },
                    None => None,
                }
            }
        } else if k == "gate_version"@ || k == "gate-versions"@ {
            if ends_at(p, 1) {
                Some(RouteView::GateVersions)
            } else if p[1].len() == 0 {
                None
            } else {
                match spec_percent_decoded(p[1]) {
                    Some(n) => if ends_at(p, 2) {
                        Some(RouteView::GateVersionByName(n))
                    } else {
                        None
                    },
                    None => None,
                }
            }
        } else if k == "loot_table_index"@ {
            spec_lti_route(p.skip(1))
        } else if k == "loot-tables"@ {
            if at(p, 1) == Some("indices"@) {
                spec_lti_route(p.skip(2))
            } else {
                None
            }
        } else if k == "mission_types"@ || k == "mission-types"@ {
            spec_mission_types_route(p.skip(1))
        } else if k == "missions"@ {
            if at(p, 1) == Some("types"@) {
                spec_mission_types_route(p.skip(2))
            } else {
                None
            }
        } else if k == "objects"@ {
            if ends_at(p, 1) {
                Some(RouteView::Objects)
            } else if p[1].len() == 0 {
                None
            } else if p[1] == "search_index"@ || p[1] == "search-index"@ {
                if ends_at(p, 2) {
                    Some(RouteView::ObjectsSearchIndex)
                } else {
                    None
                }
            } else {
                match spec_parse_i32(p[1]) {
                    Some(lot) => if ends_at(p, 2) {
                        Some(RouteView::ObjectById(lot))
                    } else {
                        None
                    },
                    None => None,
                }
            }
        } else if k == "object_types"@ {
            if ends_at(p, 1) {
                Some(RouteView::ObjectTypes)
            } else if p[1].len() == 0 {
                None
            } else {
                match spec_percent_decoded(p[1]) {
                    Some(t) => if ends_at(p, 2) {
                        Some(RouteView::ObjectTypeByName(t))
                    } else {
                        None
                    },
                    None => None,
                }
            }
        } else if k == "skill_ids"@ || k == "skills"@ {
            match at(p, 1) {
                Some(s) => match spec_parse_i32(s) {
                    Some(id) => if ends_at(p, 2) {
                        Some(RouteView::SkillById(id))
                    } else {
                        None
                    },
                    None => None,
                },
                None => None,
            }
        } else if k.len() == 0 {
            if p.len() == 1 {
                Some(RouteView::Base)
            } else {
                None
            }
        } else {
            None
        }
    }
}

/// The names of the reverse routes, as characters.
proof fn lemma_route_names()
    ensures
        "activity"@ == seq!['a', 'c', 't', 'i', 'v', 'i', 't', 'y'],
        "activities"@ == seq!['a', 'c', 't', 'i', 'v', 'i', 't', 'i', 'e', 's'],
        "behaviors"@ == seq!['b', 'e', 'h', 'a', 'v', 'i', 'o', 'r', 's'],
        "component_types"@ == seq!['c', 'o', 'm', 'p', 'o', 'n', 'e', 'n', 't', '_', 't', 'y', 'p', 'e', 's'],
        "component-types"@ == seq!['c', 'o', 'm', 'p', 'o', 'n', 'e', 'n', 't', '-', 't', 'y', 'p', 'e', 's'],
        "faction"@ == seq!['f', 'a', 'c', 't', 'i', 'o', 'n'],
        "factions"@ == seq!['f', 'a', 'c', 't', 'i', 'o', 'n', 's'],
        "gate_version"@ == seq!['g', 'a', 't', 'e', '_', 'v', 'e', 'r', 's', 'i', 'o', 'n'],
        "gate-versions"@ == seq!['g', 'a', 't', 'e', '-', 'v', 'e', 'r', 's', 'i', 'o', 'n', 's'],
        "loot_table_index"@ == seq!['l', 'o', 'o', 't', '_', 't', 'a', 'b', 'l', 'e', '_', 'i', 'n', 'd', 'e', 'x'],
        "loot-tables"@ == seq!['l', 'o', 'o', 't', '-', 't', 'a', 'b', 'l', 'e', 's'],
        "indices"@ == seq!['i', 'n', 'd', 'i', 'c', 'e', 's'],
        "mission_types"@ == seq!['m', 'i', 's', 's', 'i', 'o', 'n', '_', 't', 'y', 'p', 'e', 's'],
        "mission-types"@ == seq!['m', 'i', 's', 's', 'i', 'o', 'n', '-', 't', 'y', 'p', 'e', 's'],
        "missions"@ == seq!['m', 'i', 's', 's', 'i', 'o', 'n', 's'],
        "types"@ == seq!['t', 'y', 'p', 'e', 's'],
        "objects"@ == seq!['o', 'b', 'j', 'e', 'c', 't', 's'],
        "search_index"@ == seq!['s', 'e', 'a', 'r', 'c', 'h', '_', 'i', 'n', 'd', 'e', 'x'],
        "search-index"@ == seq!['s', 'e', 'a', 'r', 'c', 'h', '-', 'i', 'n', 'd', 'e', 'x'],
        "object_types"@ == seq!['o', 'b', 'j', 'e', 'c', 't', '_', 't', 'y', 'p', 'e', 's'],
        "skill_ids"@ == seq!['s', 'k', 'i', 'l', 'l', '_', 'i', 'd', 's'],
        "skills"@ == seq!['s', 'k', 'i', 'l', 'l', 's'],
        "full"@ == seq!['f', 'u', 'l', 'l'],
{
    reveal_strlit("activity");
    reveal_strlit("activities");
    reveal_strlit("behaviors");
    reveal_strlit("component_types");
    reveal_strlit("component-types");
    reveal_strlit("faction");
    reveal_strlit("factions");
    reveal_strlit("gate_version");
    reveal_strlit("gate-versions");
    reveal_strlit("loot_table_index");
    reveal_strlit("loot-tables");
    reveal_strlit("indices");
    reveal_strlit("mission_types");
    reveal_strlit("mission-types");
    reveal_strlit("missions");
    reveal_strlit("types");
    reveal_strlit("objects");
    reveal_strlit("search_index");
    reveal_strlit("search-index");
    reveal_strlit("object_types");
    reveal_strlit("skill_ids");
    reveal_strlit("skills");
    reveal_strlit("full");
}

proof fn lemma_alias_activity(r: Seq<Seq<char>>)
    ensures
        spec_rev_route(seq!["activity"@] + r) == spec_rev_route(seq!["activities"@] + r),
{
    lemma_route_names();
    let p = seq!["activity"@] + r;
    let q = seq!["activities"@] + r;
    assert(p.skip(1) =~= q.skip(1));
    assert forall|i: int| 1 <= i < p.len() implies p[i] == q[i] by {}
}

proof fn lemma_alias_component_types(r: Seq<Seq<char>>)
    ensures
        spec_rev_route(seq!["component_types"@] + r) == spec_rev_route(seq!["component-types"@] + r),
{
    lemma_route_names();
    let p = seq!["component_types"@] + r;
    let q = seq!["component-types"@] + r;
    assert(p.skip(1) =~= q.skip(1));
    assert forall|i: int| 1 <= i < p.len() implies p[i] == q[i] by {}
}

proof fn lemma_alias_faction(r: Seq<Seq<char>>)
    ensures
        spec_rev_route(seq!["faction"@] + r) == spec_rev_route(seq!["factions"@] + r),
{
    lemma_route_names();
    let p = seq!["faction"@] + r;
    let q = seq!["factions"@] + r;
    assert(p.skip(1) =~= q.skip(1));
    assert forall|i: int| 1 <= i < p.len() implies p[i] == q[i] by {}
}

proof fn lemma_alias_gate_version(r: Seq<Seq<char>>)
    ensures
        spec_rev_route(seq!["gate_version"@] + r) == spec_rev_route(seq!["gate-versions"@] + r),
{
    lemma_route_names();
    let p = seq!["gate_version"@] + r;
    let q = seq!["gate-versions"@] + r;
    assert(p.skip(1) =~= q.skip(1));
    assert forall|i: int| 1 <= i < p.len() implies p[i] == q[i] by {}
}

proof fn lemma_alias_skill_ids(r: Seq<Seq<char>>)
    ensures
        spec_rev_route(seq!["skill_ids"@] + r) == spec_rev_route(seq!["skills"@] + r),
{
    lemma_route_names();
    let p = seq!["skill_ids"@] + r;
    let q = seq!["skills"@] + r;
    assert(p.skip(1) =~= q.skip(1));
    assert forall|i: int| 1 <= i < p.len() implies p[i] == q[i] by {}
}

proof fn lemma_alias_mission_types(r: Seq<Seq<char>>)
    ensures
        spec_rev_route(seq!["mission_types"@] + r) == spec_rev_route(seq!["mission-types"@] + r),
{
    lemma_route_names();
    let p = seq!["mission_types"@] + r;
    let q = seq!["mission-types"@] + r;
    assert(p.skip(1) =~= q.skip(1));
    assert forall|i: int| 1 <= i < p.len() implies p[i] == q[i] by {}
}

proof fn lemma_alias_two_mission_types(r: Seq<Seq<char>>)
    ensures
        spec_rev_route(seq!["mission_types"@] + r) == spec_rev_route(seq!["missions"@, "types"@] + r),
{
    lemma_route_names();
    assert((seq!["mission_types"@] + r).skip(1) =~= r);
    assert((seq!["missions"@, "types"@] + r).skip(2) =~= r);
}

proof fn lemma_alias_two_loot_table_index(r: Seq<Seq<char>>)
    ensures
        spec_rev_route(seq!["loot_table_index"@] + r) == spec_rev_route(seq!["loot-tables"@, "indices"@] + r),
{
    lemma_route_names();
    assert((seq!["loot_table_index"@] + r).skip(1) =~= r);
    assert((seq!["loot-tables"@, "indices"@] + r).skip(2) =~= r);
}

/// The alias spellings of the reverse routes name the same requests,
/// whatever segments follow them.
pub proof fn lemma_route_aliases(r: Seq<Seq<char>>)
    ensures
        spec_rev_route(seq!["activity"@] + r) == spec_rev_route(seq!["activities"@] + r),
        spec_rev_route(seq!["component_types"@] + r) == spec_rev_route(seq!["component-types"@] + r),
        spec_rev_route(seq!["faction"@] + r) == spec_rev_route(seq!["factions"@] + r),
        spec_rev_route(seq!["gate_version"@] + r) == spec_rev_route(seq!["gate-versions"@] + r),
        spec_rev_route(seq!["skill_ids"@] + r) == spec_rev_route(seq!["skills"@] + r),
        spec_rev_route(seq!["mission_types"@] + r) == spec_rev_route(seq!["mission-types"@] + r),
        spec_rev_route(seq!["mission_types"@] + r) == spec_rev_route(seq!["missions"@, "types"@] + r),
        spec_rev_route(seq!["loot_table_index"@] + r) == spec_rev_route(seq!["loot-tables"@, "indices"@] + r),
{
    lemma_alias_activity(r);
    lemma_alias_component_types(r);
    lemma_alias_faction(r);
    lemma_alias_gate_version(r);
    lemma_alias_skill_ids(r);
    lemma_alias_mission_types(r);
    lemma_alias_two_mission_types(r);
    lemma_alias_two_loot_table_index(r);
}

proof fn lemma_slash_behaviors(k: Seq<char>)
    requires
        k.len() > 0,
    ensures
        spec_rev_route(seq!["behaviors"@, k, seq![]]) == spec_rev_route(seq!["behaviors"@, k]),
{
    lemma_route_names();
    assert(seq!["behaviors"@, k, seq![]].skip(1) =~= seq![k, seq![]]);
    assert(seq!["behaviors"@, k].skip(1) =~= seq![k]);
}

proof fn lemma_slash_component_types(k: Seq<char>)
    requires
        k.len() > 0,
    ensures
        spec_rev_route(seq!["component-types"@, k, seq![]]) == spec_rev_route(seq!["component-types"@, k]),
{
    lemma_route_names();
    assert(seq!["component-types"@, k, seq![]].skip(1) =~= seq![k, seq![]]);
    assert(seq!["component-types"@, k].skip(1) =~= seq![k]);
}

proof fn lemma_slash_factions(k: Seq<char>)
    requires
        k.len() > 0,
    ensures
        spec_rev_route(seq!["factions"@, k, seq![]]) == spec_rev_route(seq!["factions"@, k]),
{
    lemma_route_names();
    assert(seq!["factions"@, k, seq![]].skip(1) =~= seq![k, seq![]]);
    assert(seq!["factions"@, k].skip(1) =~= seq![k]);
}

proof fn lemma_slash_gate_versions(k: Seq<char>)
    requires
        k.len() > 0,
    ensures
        spec_rev_route(seq!["gate-versions"@, k, seq![]]) == spec_rev_route(seq!["gate-versions"@, k]),
{
    lemma_route_names();
    assert(seq!["gate-versions"@, k, seq![]].skip(1) =~= seq![k, seq![]]);
    assert(seq!["gate-versions"@, k].skip(1) =~= seq![k]);
}

proof fn lemma_slash_loot_table_index(k: Seq<char>)
    requires
        k.len() > 0,
    ensures
        spec_rev_route(seq!["loot_table_index"@, k, seq![]]) == spec_rev_route(seq!["loot_table_index"@, k]),
{
    lemma_route_names();
    assert(seq!["loot_table_index"@, k, seq![]].skip(1) =~= seq![k, seq![]]);
    assert(seq!["loot_table_index"@, k].skip(1) =~= seq![k]);
}

proof fn lemma_slash_mission_types(k: Seq<char>)
    requires
        k.len() > 0,
    ensures
        spec_rev_route(seq!["mission-types"@, k, seq![]]) == spec_rev_route(seq!["mission-types"@, k]),
{
    lemma_route_names();
    assert(seq!["mission-types"@, k, seq![]].skip(1) =~= seq![k, seq![]]);
    assert(seq!["mission-types"@, k].skip(1) =~= seq![k]);
}

proof fn lemma_slash_objects(k: Seq<char>)
    requires
        k.len() > 0,
    ensures
        spec_rev_route(seq!["objects"@, k, seq![]]) == spec_rev_route(seq!["objects"@, k]),
{
    lemma_route_names();
    assert(seq!["objects"@, k, seq![]].skip(1) =~= seq![k, seq![]]);
    assert(seq!["objects"@, k].skip(1) =~= seq![k]);
}

proof fn lemma_slash_object_types(k: Seq<char>)
    requires
        k.len() > 0,
    ensures
        spec_rev_route(seq!["object_types"@, k, seq![]]) == spec_rev_route(seq!["object_types"@, k]),
{
    lemma_route_names();
    assert(seq!["object_types"@, k, seq![]].skip(1) =~= seq![k, seq![]]);
    assert(seq!["object_types"@, k].skip(1) =~= seq![k]);
}

proof fn lemma_slash_skills(k: Seq<char>)
    requires
        k.len() > 0,
    ensures
        spec_rev_route(seq!["skills"@, k, seq![]]) == spec_rev_route(seq!["skills"@, k]),
{
    lemma_route_names();
    assert(seq!["skills"@, k, seq![]].skip(1) =~= seq![k, seq![]]);
    assert(seq!["skills"@, k].skip(1) =~= seq![k]);
}

/// One trailing `/` after the second segment is ignored, for these
/// prefixes: `behaviors`, `component-types`, `factions`, `gate-versions`,
/// `loot_table_index`, `mission-types`, `objects`, `object_types` and
/// `skills`.
pub proof fn lemma_route_trailing_slash(k: Seq<char>)
    requires
        k.len() > 0,
    ensures
        spec_rev_route(seq!["behaviors"@, k, seq![]]) == spec_rev_route(seq!["behaviors"@, k]),
        spec_rev_route(seq!["component-types"@, k, seq![]]) == spec_rev_route(seq!["component-types"@, k]),
        spec_rev_route(seq!["factions"@, k, seq![]]) == spec_rev_route(seq!["factions"@, k]),
        spec_rev_route(seq!["gate-versions"@, k, seq![]]) == spec_rev_route(seq!["gate-versions"@, k]),
        spec_rev_route(seq!["loot_table_index"@, k, seq![]]) == spec_rev_route(seq!["loot_table_index"@, k]),
        spec_rev_route(seq!["mission-types"@, k, seq![]]) == spec_rev_route(seq!["mission-types"@, k]),
        spec_rev_route(seq!["objects"@, k, seq![]]) == spec_rev_route(seq!["objects"@, k]),
        spec_rev_route(seq!["object_types"@, k, seq![]]) == spec_rev_route(seq!["object_types"@, k]),
        spec_rev_route(seq!["skills"@, k, seq![]]) == spec_rev_route(seq!["skills"@, k]),
{
    lemma_slash_behaviors(k);
    lemma_slash_component_types(k);
    lemma_slash_factions(k);
    lemma_slash_gate_versions(k);
    lemma_slash_loot_table_index(k);
    lemma_slash_mission_types(k);
    lemma_slash_objects(k);
    lemma_slash_object_types(k);
    lemma_slash_skills(k);
}

/// Whether a text holds no `/`.
pub open spec fn no_slash(t: Seq<char>) -> bool {
    forall|i: int| 0 <= i < t.len() ==> t[i] != '/'
}

/// The segments of `p/k` and of `p/k/`, where neither holds a `/`.
proof fn lemma_two_segments(p: Seq<char>, k: Seq<char>)
    requires
        no_slash(p),
        no_slash(k),
    ensures
        spec_split(p + seq!['/'] + k, '/') == seq![p, k],
        spec_split(p + seq!['/'] + k + seq!['/'], '/') == seq![p, k, Seq::<char>::empty()],
{
    lemma_split_single(k, '/');
    lemma_split_first(p, k, '/');
    assert(seq![p] + seq![k] =~= seq![p, k]);
    let k2 = k + seq!['/'];
    assert(k2.drop_last() =~= k);
    assert(spec_split(k2, '/') == seq![k].push(Seq::<char>::empty()));
    lemma_split_first(p, k2, '/');
    assert(p + seq!['/'] + k + seq!['/'] =~= p + seq!['/'] + k2);
    assert(seq![p] + seq![k].push(Seq::<char>::empty()) =~= seq![p, k, Seq::<char>::empty()]);
}

/// The route names hold no `/`.
proof fn lemma_names_no_slash()
    ensures
        no_slash("activity"@),
        no_slash("activities"@),
        no_slash("behaviors"@),
        no_slash("component_types"@),
        no_slash("component-types"@),
        no_slash("faction"@),
        no_slash("factions"@),
        no_slash("gate_version"@),
        no_slash("gate-versions"@),
        no_slash("loot_table_index"@),
        no_slash("loot-tables"@),
        no_slash("indices"@),
        no_slash("mission_types"@),
        no_slash("mission-types"@),
        no_slash("missions"@),
        no_slash("types"@),
        no_slash("objects"@),
        no_slash("object_types"@),
        no_slash("skill_ids"@),
        no_slash("skills"@),
{
    lemma_route_names();
}

/// Two spellings that agree on segments agree on paths.
proof fn lemma_alias_path(a: Seq<char>, b: Seq<char>, s: Seq<char>)
    requires
        no_slash(a),
        no_slash(b),
        spec_rev_route(seq![a] + spec_split(s, '/')) == spec_rev_route(seq![b] + spec_split(s, '/')),
    ensures
        spec_rev_route(spec_split(a + seq!['/'] + s, '/')) == spec_rev_route(spec_split(b + seq!['/'] + s, '/')),
{
    lemma_split_first(a, s, '/');
    lemma_split_first(b, s, '/');
}

/// A spelling and a two-segment spelling that agree on segments agree on
/// paths.
proof fn lemma_alias_two_path(a: Seq<char>, b: Seq<char>, c: Seq<char>, s: Seq<char>)
    requires
        no_slash(a),
        no_slash(b),
        no_slash(c),
        spec_rev_route(seq![a] + spec_split(s, '/')) == spec_rev_route(seq![b, c] + spec_split(s, '/')),
    ensures
        spec_rev_route(spec_split(a + seq!['/'] + s, '/')) == spec_rev_route(
            spec_split(b + seq!['/'] + c + seq!['/'] + s, '/'),
        ),
{
    let r = spec_split(s, '/');
    lemma_split_first(a, s, '/');
    let t = c + seq!['/'] + s;
    lemma_split_first(c, s, '/');
    lemma_split_first(b, t, '/');
    assert(b + seq!['/'] + c + seq!['/'] + s =~= b + seq!['/'] + t);
    assert(seq![b] + (seq![c] + r) =~= seq![b, c] + r);
}

/// A prefix on which one trailing `/` is ignored as a segment ignores it
/// on paths.
proof fn lemma_slash_path(p: Seq<char>, k: Seq<char>)
    requires
        no_slash(p),
        no_slash(k),
        spec_rev_route(seq![p, k, Seq::<char>::empty()]) == spec_rev_route(seq![p, k]),
    ensures
        spec_rev_route(spec_split(p + seq!['/'] + k + seq!['/'], '/')) == spec_rev_route(
            spec_split(p + seq!['/'] + k, '/'),
        ),
{
    lemma_two_segments(p, k);
}

/// The alias spellings name the same requests also as whole paths: a path
/// that starts with one spelling and a `/` names what the path with the
/// other spelling names, whatever follows.
pub proof fn lemma_route_alias_paths(s: Seq<char>)
    ensures
        spec_rev_route(spec_split("activity"@ + seq!['/'] + s, '/')) == spec_rev_route(
            spec_split("activities"@ + seq!['/'] + s, '/'),
        ),
        spec_rev_route(spec_split("component_types"@ + seq!['/'] + s, '/')) == spec_rev_route(
            spec_split("component-types"@ + seq!['/'] + s, '/'),
        ),
        spec_rev_route(spec_split("faction"@ + seq!['/'] + s, '/')) == spec_rev_route(
            spec_split("factions"@ + seq!['/'] + s, '/'),
        ),
        spec_rev_route(spec_split("gate_version"@ + seq!['/'] + s, '/')) == spec_rev_route(
            spec_split("gate-versions"@ + seq!['/'] + s, '/'),
        ),
        spec_rev_route(spec_split("skill_ids"@ + seq!['/'] + s, '/')) == spec_rev_route(
            spec_split("skills"@ + seq!['/'] + s, '/'),
        ),
        spec_rev_route(spec_split("mission_types"@ + seq!['/'] + s, '/')) == spec_rev_route(
            spec_split("mission-types"@ + seq!['/'] + s, '/'),
        ),
        spec_rev_route(spec_split("mission_types"@ + seq!['/'] + s, '/')) == spec_rev_route(
            spec_split("missions"@ + seq!['/'] + "types"@ + seq!['/'] + s, '/'),
        ),
        spec_rev_route(spec_split("loot_table_index"@ + seq!['/'] + s, '/')) == spec_rev_route(
            spec_split("loot-tables"@ + seq!['/'] + "indices"@ + seq!['/'] + s, '/'),
        ),
{
    lemma_names_no_slash();
    let r = spec_split(s, '/');
    lemma_route_aliases(r);
    lemma_alias_path("activity"@, "activities"@, s);
    lemma_alias_path("component_types"@, "component-types"@, s);
    lemma_alias_path("faction"@, "factions"@, s);
    lemma_alias_path("gate_version"@, "gate-versions"@, s);
    lemma_alias_path("skill_ids"@, "skills"@, s);
    lemma_alias_path("mission_types"@, "mission-types"@, s);
    lemma_alias_two_path("mission_types"@, "missions"@, "types"@, s);
    lemma_alias_two_path("loot_table_index"@, "loot-tables"@, "indices"@, s);
}

/// One trailing `/` after the key is ignored also on whole paths, for
/// the prefixes of `lemma_route_trailing_slash`, where the key is not empty
/// and holds no `/`.
pub proof fn lemma_route_trailing_slash_paths(k: Seq<char>)
    requires
        k.len() > 0,
        no_slash(k),
    ensures
        spec_rev_route(spec_split("behaviors"@ + seq!['/'] + k + seq!['/'], '/')) == spec_rev_route(
            spec_split("behaviors"@ + seq!['/'] + k, '/'),
        ),
        spec_rev_route(spec_split("component-types"@ + seq!['/'] + k + seq!['/'], '/')) == spec_rev_route(
            spec_split("component-types"@ + seq!['/'] + k, '/'),
        ),
        spec_rev_route(spec_split("factions"@ + seq!['/'] + k + seq!['/'], '/')) == spec_rev_route(
            spec_split("factions"@ + seq!['/'] + k, '/'),
        ),
        spec_rev_route(spec_split("gate-versions"@ + seq!['/'] + k + seq!['/'], '/')) == spec_rev_route(
            spec_split("gate-versions"@ + seq!['/'] + k, '/'),
        ),
        spec_rev_route(spec_split("loot_table_index"@ + seq!['/'] + k + seq!['/'], '/')) == spec_rev_route(
            spec_split("loot_table_index"@ + seq!['/'] + k, '/'),
        ),
        spec_rev_route(spec_split("mission-types"@ + seq!['/'] + k + seq!['/'], '/')) == spec_rev_route(
            spec_split("mission-types"@ + seq!['/'] + k, '/'),
        ),
        spec_rev_route(spec_split("objects"@ + seq!['/'] + k + seq!['/'], '/')) == spec_rev_route(
            spec_split("objects"@ + seq!['/'] + k, '/'),
        ),
        spec_rev_route(spec_split("object_types"@ + seq!['/'] + k + seq!['/'], '/')) == spec_rev_route(
            spec_split("object_types"@ + seq!['/'] + k, '/'),
        ),
        spec_rev_route(spec_split("skills"@ + seq!['/'] + k + seq!['/'], '/')) == spec_rev_route(
            spec_split("skills"@ + seq!['/'] + k, '/'),
        ),
{
    lemma_names_no_slash();
    lemma_route_trailing_slash(k);
    lemma_slash_path("behaviors"@, k);
    lemma_slash_path("component-types"@, k);
    lemma_slash_path("factions"@, k);
    lemma_slash_path("gate-versions"@, k);
    lemma_slash_path("loot_table_index"@, k);
    lemma_slash_path("mission-types"@, k);
    lemma_slash_path("objects"@, k);
    lemma_slash_path("object_types"@, k);
    lemma_slash_path("skills"@, k);
}

/// Percent-decodes a segment.
fn decode_segment(s: &Vec<char>) -> (r: Option<PercentDecoded>)
    ensures
        r is Some <==> spec_percent_decoded(s@) is Some,
        r matches Some(v) ==> spec_percent_decoded(s@) == Some(v@),
{
    let st = chars_to_string(s.as_slice());
    match PercentDecoded::decode(st.as_str()) {
        Ok(v) => Some(v),
        Err(_) => None,
    }
}

/// Whether the remaining segments end here, or with one empty segment.
fn ends_here(parts: &mut PathSplit) -> (r: bool)
    ensures
        r == ends_at(old(parts)@, 0),
{
    match parts.next() {
        None => true,
        Some(s) => s.len() == 0 && parts.next().is_none(),
    }
}

impl Route {
    fn lti_from_parts(mut parts: PathSplit) -> (r: Result<Route, ()>)
        ensures
            match r {
                Ok(route) => spec_lti_route(parts@) == Some(route@),
                Err(()) => spec_lti_route(parts@) is None,
            },
    {
        let ghost p = parts@;
        match parts.next() {
            Some(key) => match parse_i32(key.as_slice()) {
                Some(id) => {
                    assert(parts@ == p.skip(1));
                    if ends_here(&mut parts) {
                        Ok(Route::LootTableIndexById(id))
                    } else {
                        Err(())
                    }
                },
                None => Err(()),
            },
            None => Err(()),
        }
    }

    fn mission_types_from_parts(mut parts: PathSplit) -> (r: Result<Route, ()>)
        ensures
            match r {
                Ok(route) => spec_mission_types_route(parts@) == Some(route@),
                Err(()) => spec_mission_types_route(parts@) is None,
            },
    {
        let ghost p = parts@;
        match parts.next() {
            None => Ok(Route::MissionTypes),
            Some(key) => {
                if key.len() == 0 {
                    return if parts.next().is_none() { Ok(Route::MissionTypes) } else { Err(()) };
                }
                if chars_eq_str(key.as_slice(), "full") {
                    return if ends_here(&mut parts) { Ok(Route::MissionTypesFull) } else { Err(()) };
                }
                match decode_segment(&key) {
                    Some(d_type) => match parts.next() {
                        None => Ok(Route::MissionTypeByTy(d_type)),
                        Some(key2) => {
                            if key2.len() == 0 {
                                return if parts.next().is_none() {
                                    Ok(Route::MissionTypeByTy(d_type))
                                } else {
                                    Err(())
                                };
                            }
                            match decode_segment(&key2) {
                                Some(d_subtype) => {
                                    if ends_here(&mut parts) {
                                        Ok(Route::MissionTypeBySubTy(d_type, d_subtype))
                                    } else {
                                        Err(())
                                    }
                                },
                                None => Err(()),
                            }
                        },
                    },
                    None => Err(()),
                }
            },
        }
    }

    /// The reverse API request that the remaining segments (after `/rev`)
    /// name; `Err` when they name none.
    pub fn from_parts(mut parts: PathSplit) -> (r: Result<Route, ()>)
        ensures
            match r {
                Ok(route) => spec_rev_route(parts@) == Some(route@),
                Err(()) => spec_rev_route(parts@) is None,
            },
    {
        let ghost p = parts@;
        let first = match parts.next() {
            None => return Ok(Route::Base),
            Some(k) => k,
        };
        let k = first.as_slice();
        assert(k@ == p[0]);
        if chars_eq_str(k, "activity") || chars_eq_str(k, "activities") {
            match parts.next() {
                None => Ok(Route::Activities),
                Some(key) => {
                    if parts.next().is_some() {
                        Err(())
                    } else if key.len() == 0 {
                        Ok(Route::Activities)
                    } else {
                        match parse_i32(key.as_slice()) {
                            Some(id) => Ok(Route::ActivityById(id)),
                            None => Err(()),
                        }
                    }
                },
            }
        } else if chars_eq_str(k, "behaviors") {
            match parts.next() {
                Some(key) => match parse_i32(key.as_slice()) {
                    Some(id) => Ok(Route::BehaviorById(id)),
                    None => Err(()),
                },
                None => Err(()),
            }
        } else if chars_eq_str(k, "component_types") || chars_eq_str(k, "component-types") {
            match parts.next() {
                None => Ok(Route::ComponentTypes),
                Some(key) => {
                    if key.len() == 0 {
                        return if parts.next().is_none() { Ok(Route::ComponentTypes) } else { Err(()) };
                    }
                    match parse_i32(key.as_slice()) {
                        Some(id) => match parts.next() {
                            None => Ok(Route::ComponentTypeById(id)),
                            Some(key2) => {
                                if key2.len() == 0 {
                                    return if parts.next().is_none() {
                                        Ok(Route::ComponentTypeById(id))
                                    } else {
                                        Err(())
                                    };
                                }
                                match parse_i32(key2.as_slice()) {
                                    Some(cid) => {
                                        if ends_here(&mut parts) {
                                            Ok(Route::ComponentTypeByIdAndCid(id, cid))
                                        } else {
                                            Err(())
                                        }
                                    },
                                    None => Err(()),
                                }
                            },
                        },
                        None => Err(()),
                    }
                },
            }
        } else if chars_eq_str(k, "faction") || chars_eq_str(k, "factions") {
            match parts.next() {
                None => Ok(Route::Factions),
                Some(key) => {
                    if key.len() == 0 {
                        return if parts.next().is_none() { Ok(Route::Factions) } else { Err(()) };
                    }
                    match parse_i32(key.as_slice()) {
                        Some(id) => if ends_here(&mut parts) {
                            Ok(Route::FactionById(id))
                        } else {
                            Err(())
                        },
                        None => Err(()),
                    }
                },
            }
        } else if chars_eq_str(k, "gate_version") || chars_eq_str(k, "gate-versions") {
            match parts.next() {
                None => Ok(Route::GateVersions),
                Some(key) => {
                    if key.len() == 0 {
                        return if parts.next().is_none() { Ok(Route::GateVersions) } else { Err(()) };
                    }
                    match decode_segment(&key) {
                        Some(name) => if ends_here(&mut parts) {
                            Ok(Route::GateVersionByName(name))
                        } else {
                            Err(())
                        },
                        None => Err(()),
                    }
                },
            }
        } else if chars_eq_str(k, "loot_table_index") {
            Self::lti_from_parts(parts)
        } else if chars_eq_str(k, "loot-tables") {
            match parts.next() {
                Some(s) => {
                    if chars_eq_str(s.as_slice(), "indices") {
                        assert(parts@ == p.skip(2));
                        Self::lti_from_parts(parts)
                    } else {
                        Err(())
                    }
                },
                None => Err(()),
            }
        } else if chars_eq_str(k, "mission_types") || chars_eq_str(k, "mission-types") {
            Self::mission_types_from_parts(parts)
        } else if chars_eq_str(k, "missions") {
            match parts.next() {
                Some(s) => {
                    if chars_eq_str(s.as_slice(), "types") {
                        assert(parts@ == p.skip(2));
                        Self::mission_types_from_parts(parts)
                    } else {
                        Err(())
                    }
                },
                None => Err(()),
            }
        } else if chars_eq_str(k, "objects") {
            match parts.next() {
                None => Ok(Route::Objects),
                Some(key) => {
                    if key.len() == 0 {
                        return if parts.next().is_none() { Ok(Route::Objects) } else { Err(()) };
                    }
                    if chars_eq_str(key.as_slice(), "search_index") || chars_eq_str(key.as_slice(), "search-index") {
                        return if ends_here(&mut parts) { Ok(Route::ObjectsSearchIndex) } else { Err(()) };
                    }
                    match parse_i32(key.as_slice()) {
                        Some(lot) => if ends_here(&mut parts) {
                            Ok(Route::ObjectById(lot))
                        } else {
                            Err(())
                        },
                        None => Err(()),
                    }
                },
            }
        } else if chars_eq_str(k, "object_types") {
            match parts.next() {
                None => Ok(Route::ObjectTypes),
                Some(key) => {
                    if key.len() == 0 {
                        return if parts.next().is_none() { Ok(Route::ObjectTypes) } else { Err(()) };
                    }
                    match decode_segment(&key) {
                        Some(ty) => if ends_here(&mut parts) {
                            Ok(Route::ObjectTypeByName(ty))
                        } else {
                            Err(())
                        },
                        None => Err(()),
                    }
                },
            }
        } else if chars_eq_str(k, "skill_ids") || chars_eq_str(k, "skills") {
            match parts.next() {
                Some(key) => match parse_i32(key.as_slice()) {
                    Some(id) => if ends_here(&mut parts) {
                        Ok(Route::SkillById(id))
                    } else {
                        Err(())
                    },
                    None => Err(()),
                },
                None => Err(()),
            }
        } else if k.len() == 0 {
            match parts.next() {
                None => Ok(Route::Base),
                Some(_) => Err(()),
            }
        } else {
            Err(())
        }
    }
}

} // verus!
