//! # Answers of the reverse API
//!
//! For each reverse API request, the data of the reverse lookup that the
//! answer is made of. Turning it into JSON or YAML is left to the caller.

use vstd::prelude::*;
use std::collections::{BTreeMap, BTreeSet, HashMap};
use crate::ordered::{increasing, int_keys};
use crate::strmap::StrMap;
use super::data::{ReverseLookup, leads_to};
use super::records::{
    ActivityRev, BehaviorKeyIndex, ComponentUse, ComponentsUse, GateVersionUse,
    LootTableIndexRev, MissionRev, ObjectStrings, ObjectsUse, SkillIdLookup,
    COMPONENT_ID_COLLECTIBLE, COMPONENT_ID_DESTRUCTIBLE, COMPONENT_ID_ITEM,
};
use super::routes::{Route, RouteView, rev_api_names, rev_apis, str_texts};
use super::rows::ObjectRow;

verus! {

/// A reply: the data asked for, and what is embedded with it.
pub struct Api<T, E> {
    pub data: T,
    pub embedded: E,
}

/// Whether `r` is what looking up `k` in `m` gives.
pub open spec fn looked_up<V>(r: Option<&V>, m: Map<i32, V>, k: i32) -> bool {
    &&& r.is_some() == m.contains_key(k)
    &&& r matches Some(v) ==> *v == m[k]
}

/// The entries of a hash map for a list of keys, in the order of the keys.
pub struct MapFilter<'a, E> {
    pub base: &'a HashMap<i32, E>,
    pub keys: &'a [i32],
}

impl<'a, E> MapFilter<'a, E> {
    /// The keys that the map has, each with its value, in key list order.
    pub open spec fn entries(&self) -> Seq<(i32, E)> {
        self.keys@.filter_map(
            |k: i32|
                if self.base@.contains_key(k) {
                    Some((k, self.base@[k]))
                } else {
                    None
                },
        )
    }

    /// The entries, one by one.
    pub fn to_iter(&self) -> (r: Vec<(i32, &'a E)>)
        ensures
            r@.map_values(|p: (i32, &'a E)| (p.0, *p.1)) == self.entries(),
    {
        let ghost f = |k: i32|
            if self.base@.contains_key(k) {
                Some((k, self.base@[k]))
            } else {
                None
            };
        let mut r: Vec<(i32, &'a E)> = Vec::new();
        for i in 0..self.keys.len()
            invariant
                f == (|k: i32|
                    if self.base@.contains_key(k) {
                        Some((k, self.base@[k]))
                    } else {
                        None
                    }),
                r@.map_values(|p: (i32, &'a E)| (p.0, *p.1)) == self.keys@.take(i as int).filter_map(f),
        {
            let k = self.keys[i];
            proof {
                self.keys@.lemma_filter_map_take_succ(f, i as int);
            }
            let ghost before = r@;
            match self.base.get(&k) {
                Some(v) => {
                    r.push((k, v));
                    assert(r@.map_values(|p: (i32, &'a E)| (p.0, *p.1)) =~= before.map_values(
                        |p: (i32, &'a E)| (p.0, *p.1),
                    ).push((k, *v)));
                },
                None => {},
            }
            assert(r@.map_values(|p: (i32, &'a E)| (p.0, *p.1)) =~= self.keys@.take(i + 1).filter_map(f));
        }
        assert(self.keys@.take(self.keys@.len() as int) =~= self.keys@);
        r
    }
}

/// How the rows of a table that an answer embeds are listed.
#[derive(Debug, Clone, Copy, PartialEq, Eq, Structural)]
pub enum AdapterLayout {
    /// As a list of rows.
    List,
    /// As a map from each row's id to the row.
    Keyed,
}

/// The rows of a table named by a list of ids, read by the id in column
/// `id_col`, and how they are listed.
pub struct TableIterAdapter<'b> {
    pub keys: &'b [i32],
    pub id_col: usize,
    pub layout: AdapterLayout,
}

impl<'b> TableIterAdapter<'b> {
    /// The rows named by `keys`, read by their first column, listed as a map
    /// by id.
    pub fn new(keys: &'b [i32]) -> (r: Self)
        ensures
            r.keys == keys,
            r.id_col == 0,
            r.layout == AdapterLayout::Keyed,
    {
        TableIterAdapter { keys, id_col: 0, layout: AdapterLayout::Keyed }
    }
}

/// The objects of the `Objects` table named by a list of ids.
pub struct ObjectsRefAdapter<'b> {
    pub table: &'b [ObjectRow],
    pub keys: &'b [i32],
}

impl<'b> ObjectsRefAdapter<'b> {
    /// The objects of `table` named by `keys`.
    pub fn new(table: &'b [ObjectRow], keys: &'b [i32]) -> (r: Self)
        ensures
            r.table == table,
            r.keys == keys,
    {
        ObjectsRefAdapter { table, keys }
    }
}

/// The components of a map named by a set of keys.
pub struct Filtered<'a> {
    pub inner: &'a BTreeMap<i32, ComponentUse>,
    pub keys: &'a BTreeSet<i32>,
}

/// The components of a map named by either of two sets of keys.
pub struct Filtered2<'a> {
    pub inner: &'a BTreeMap<i32, ComponentUse>,
    pub keys1: &'a BTreeSet<i32>,
    pub keys2: &'a BTreeSet<i32>,
}

/// The reply about one faction.
pub struct FactionById<'a> {
    pub destructible_ids: &'a BTreeSet<i32>,
    pub destructible_list_ids: &'a BTreeSet<i32>,
    /// The destructible components of either kind.
    pub destructible_components: Filtered2<'a>,
}

impl<'a> FactionById<'a> {
    /// What refers to faction `id`, if anything does.
    pub fn new(rev: &'a ReverseLookup, id: i32) -> (r: Option<Self>)
        requires
            rev.factions@.contains_key(id) ==> rev.component_use.0@.contains_key(
                COMPONENT_ID_DESTRUCTIBLE,
            ),
        ensures
            r.is_some() == rev.factions@.contains_key(id),
            r matches Some(f) ==> {
                &&& *f.destructible_ids == rev.factions@[id].destructible
                &&& *f.destructible_list_ids == rev.factions@[id].destructible_list
                &&& *f.destructible_components.inner == rev.component_use.0@[COMPONENT_ID_DESTRUCTIBLE].components
                &&& f.destructible_components.keys1 == f.destructible_ids
                &&& f.destructible_components.keys2 == f.destructible_list_ids
            },
    {
        match rev.factions.get(&id) {
            Some(frev) => {
                let comps = rev.component_use.ty(COMPONENT_ID_DESTRUCTIBLE).unwrap();
                Some(FactionById {
                    destructible_ids: &frev.destructible,
                    destructible_list_ids: &frev.destructible_list,
                    destructible_components: Filtered2 {
                        inner: &comps.components,
                        keys1: &frev.destructible,
                        keys2: &frev.destructible_list,
                    },
                })
            },
            None => None,
        }
    }
}

/// The components embedded in the reply about one mission.
pub struct MissionByIdEmbedded<'a> {
    /// The item components that require the mission.
    pub item_components: Filtered<'a>,
    /// The collectible components that require the mission.
    pub collectible_components: Filtered<'a>,
}

/// What refers to mission `id`, with the components that require it.
pub fn mission_by_id<'a>(rev: &'a ReverseLookup, id: i32) -> (r: Option<
    Api<&'a MissionRev, MissionByIdEmbedded<'a>>,
>)
    requires
        rev.missions@.contains_key(id) ==> rev.component_use.0@.contains_key(COMPONENT_ID_ITEM)
            && rev.component_use.0@.contains_key(COMPONENT_ID_COLLECTIBLE),
    ensures
        r.is_some() == rev.missions@.contains_key(id),
        r matches Some(a) ==> {
            &&& *a.data == rev.missions@[id]
            &&& *a.embedded.item_components.inner == rev.component_use.0@[COMPONENT_ID_ITEM].components
            &&& *a.embedded.item_components.keys == a.data.item_components.requirement_for
            &&& *a.embedded.collectible_components.inner == rev.component_use.0@[COMPONENT_ID_COLLECTIBLE].components
            &&& *a.embedded.collectible_components.keys
                == a.data.collectible_components.requirement_for
        },
{
    match rev.missions.get(&id) {
        Some(data) => {
            let items = rev.component_use.ty(COMPONENT_ID_ITEM).unwrap();
            let collectibles = rev.component_use.ty(COMPONENT_ID_COLLECTIBLE).unwrap();
            Some(Api {
                data,
                embedded: MissionByIdEmbedded {
                    item_components: Filtered {
                        inner: &items.components,
                        keys: &data.item_components.requirement_for,
                    },
                    collectible_components: Filtered {
                        inner: &collectibles.components,
                        keys: &data.collectible_components.requirement_for,
                    },
                },
            })
        },
        None => None,
    }
}

/// The mission types, each with its subtypes.
pub struct MissionTypesAdapter<'a>(pub &'a StrMap<StrMap<Vec<i32>>>);

impl<'a> MissionTypesAdapter<'a> {
    /// The mission types of the reverse lookup.
    pub fn new(rev: &'a ReverseLookup) -> (r: Self)
        ensures
            r.0 == &rev.mission_types,
    {
        MissionTypesAdapter(&rev.mission_types)
    }
}

/// The objects that have component `cid` of type `key`.
pub fn rev_single_component(rev: &ReverseLookup, key: i32, cid: i32) -> (r: Option<&ComponentUse>)
    ensures
        r.is_some() == (rev.component_use.0@.contains_key(key)
            && rev.component_use.0@[key].components@.contains_key(cid)),
        r matches Some(c) ==> *c == rev.component_use.0@[key].components@[cid],
{
    match rev.component_use.ty(key) {
        Some(c) => c.components.get(&cid),
        None => None,
    }
}

/// The lots of the components, component by component in id order.
pub open spec fn lots_in_order(c: ComponentsUse, ids: Seq<i32>) -> Seq<i32> {
    ids.map_values(|cid: i32| c.components@[cid].lots@).flatten()
}

/// Whether `lots` lists the lots of the components, component by
/// component in increasing id order.
pub open spec fn lots_of_type(c: ComponentsUse, lots: Seq<i32>) -> bool {
    exists|ids: Seq<i32>|
        #![trigger lots_in_order(c, ids)]
        increasing(ids) && (forall|k: i32| #[trigger] c.components@.contains_key(k) <==> ids.contains(k))
            && lots == lots_in_order(c, ids)
}

/// The objects that have some component of this type, component by
/// component in id order.
pub fn component_lots(c: &ComponentsUse) -> (r: Vec<i32>)
    ensures
        lots_of_type(*c, r@),
{
    let ids = int_keys(&c.components);
    let ghost g = |cid: i32| c.components@[cid].lots@;
    let mut r: Vec<i32> = Vec::new();
    for i in 0..ids.len()
        invariant
            g == (|cid: i32| c.components@[cid].lots@),
            forall|k: i32| #[trigger] c.components@.contains_key(k) <==> ids@.contains(k),
            r@ == ids@.take(i as int).map_values(g).flatten(),
    {
        let cid = ids[i];
        assert(ids@.contains(cid));
        let u = c.components.get(&cid).unwrap();
        let ghost before = r@;
        for j in 0..u.lots.len()
            invariant
                r@ == before + u.lots@.take(j as int),
        {
            r.push(u.lots[j]);
            assert(u.lots@.take(j + 1) == u.lots@.take(j as int).push(u.lots@[j as int]));
        }
        proof {
            assert(u.lots@.take(u.lots@.len() as int) =~= u.lots@);
            assert(ids@.take(i + 1).map_values(g) =~= ids@.take(i as int).map_values(g).push(g(cid)));
            ids@.take(i as int).map_values(g).lemma_flatten_push(g(cid));
        }
    }
    assert(ids@.take(ids@.len() as int) =~= ids@);
    assert(r@ == lots_in_order(*c, ids@));
    r
}

/// The reply about one mission type.
pub enum MissionTypeReply<'a> {
    /// The type's subtypes, where it has no missions without a subtype.
    Subtypes(&'a StrMap<Vec<i32>>),
    /// The missions without a subtype.
    Missions(&'a Vec<i32>),
    /// No mission has this type.
    Unknown,
}

/// What a mission type request finds: the missions that have the type and
/// no subtype, or else the type's subtypes.
pub fn rev_mission_type<'a>(rev: &'a ReverseLookup, ty: &str) -> (r: MissionTypeReply<'a>)
    ensures
        !rev.mission_types.view().contains_key(ty@) ==> r is Unknown,
        rev.mission_types.view().contains_key(ty@) ==> {
            let t = rev.mission_types.view()[ty@];
            if t.view().contains_key(Seq::<char>::empty()) {
                r matches MissionTypeReply::Missions(ids) && *ids == t.view()[Seq::<char>::empty()]
            } else {
                r matches MissionTypeReply::Subtypes(s) && *s == t
            }
        },
{
    match rev.mission_types.get(ty) {
        Some(t) => {
            let empty = "";
            proof {
                reveal_strlit("");
                assert(empty@ =~= Seq::<char>::empty());
            }
            match t.get(empty) {
                Some(ids) => MissionTypeReply::Missions(ids),
                None => MissionTypeReply::Subtypes(t),
            }
        },
        None => MissionTypeReply::Unknown,
    }
}

/// The missions of one type and subtype.
pub fn rev_mission_subtype<'a>(rev: &'a ReverseLookup, ty: &str, sub: &str) -> (r: Option<&'a Vec<i32>>)
    ensures
        r.is_some() == (rev.mission_types.view().contains_key(ty@)
            && rev.mission_types.view()[ty@].view().contains_key(sub@)),
        r matches Some(ids) ==> *ids == rev.mission_types.view()[ty@].view()[sub@],
{
    match rev.mission_types.get(ty) {
        Some(t) => t.get(sub),
        None => None,
    }
}

/// The objects of one type.
pub fn rev_object_type<'a>(rev: &'a ReverseLookup, ty: &str) -> (r: Option<&'a Vec<i32>>)
    ensures
        r.is_some() == rev.object_types.view().contains_key(ty@),
        r matches Some(ids) ==> *ids == rev.object_types.view()[ty@],
{
    rev.object_types.get(ty)
}

/// The data that answers a reverse API request.
pub enum RevReply<'a> {
    /// The names of the reverse APIs.
    Apis(Vec<&'static str>),
    /// The ids an index has, in increasing order.
    Ids(Vec<i32>),
    /// The names an index has, sorted.
    Names(Vec<String>),
    Activity(Option<&'a ActivityRev>),
    /// What refers to a behavior, and the behaviors it leads to.
    Behavior(Option<&'a BehaviorKeyIndex>, BTreeSet<i32>),
    /// The components of a type, and the objects that have one of them.
    ComponentType(Option<(&'a ComponentsUse, Vec<i32>)>),
    Component(Option<&'a ComponentUse>),
    Faction(Option<FactionById<'a>>),
    LootTableIndex(Option<&'a LootTableIndexRev>),
    MissionTypes(MissionTypesAdapter<'a>),
    MissionTypesFull(&'a StrMap<StrMap<Vec<i32>>>),
    MissionType(MissionTypeReply<'a>),
    MissionSubtype(Option<&'a Vec<i32>>),
    SearchIndex(&'a BTreeMap<i32, ObjectStrings>),
    ObjectType(Option<&'a Vec<i32>>),
    Skill(Option<&'a SkillIdLookup>),
    GateVersion(Option<&'a GateVersionUse>),
    Object(Option<&'a ObjectsUse>),
}

/// Whether `ids` lists the keys `dom`, increasing.
pub open spec fn lists_ids(ids: Seq<i32>, dom: Set<i32>) -> bool {
    increasing(ids) && forall|k: i32| #[trigger] dom.contains(k) <==> ids.contains(k)
}

/// Whether `names` lists the keys `dom`, sorted.
pub open spec fn lists_names(names: Seq<String>, dom: Set<Seq<char>>) -> bool {
    &&& forall|i: int, j: int| 0 <= i < j < names.len() ==> crate::strmap::str_lt(names[i]@, names[j]@)
    &&& forall|k: Seq<char>| #[trigger] dom.contains(k) <==> exists|i: int| 0 <= i < names.len() && names[i]@ == k
}

/// The answer to each request, given what the reverse lookup holds.
pub open spec fn answers(rev: ReverseLookup, route: RouteView, r: RevReply) -> bool {
    match route {
        RouteView::Base => r matches RevReply::Apis(a) && str_texts(a@) == rev_api_names(),
        RouteView::Activities => r matches RevReply::Ids(ids) && lists_ids(ids@, rev.activities@.dom()),
        RouteView::ActivityById(id) => r matches RevReply::Activity(a) && looked_up(a, rev.activities@, id),
        RouteView::BehaviorById(id) => r matches RevReply::Behavior(b, set) && looked_up(
            b,
            rev.behaviors@,
            id,
        ) && forall|x: i32| #[trigger] set@.contains(x) <==> leads_to(rev.behaviors@, id, x),
        RouteView::ComponentTypes => r matches RevReply::Ids(ids) && lists_ids(
            ids@,
            rev.component_use.0@.dom(),
        ),
        RouteView::ComponentTypeById(id) => r matches RevReply::ComponentType(c) && c.is_some()
            == rev.component_use.0@.contains_key(id) && (c matches Some(p) ==> *p.0
            == rev.component_use.0@[id] && lots_of_type(rev.component_use.0@[id], p.1@)),
        RouteView::ComponentTypeByIdAndCid(key, cid) => r matches RevReply::Component(c) && c.is_some()
            == (rev.component_use.0@.contains_key(key)
            && rev.component_use.0@[key].components@.contains_key(cid)) && (c matches Some(u) ==> *u
            == rev.component_use.0@[key].components@[cid]),
        RouteView::Factions => r matches RevReply::Ids(ids) && lists_ids(ids@, rev.factions@.dom()),
        RouteView::FactionById(id) => r matches RevReply::Faction(f) && f.is_some()
            == rev.factions@.contains_key(id) && (f matches Some(x) ==> *x.destructible_ids
            == rev.factions@[id].destructible && *x.destructible_list_ids
            == rev.factions@[id].destructible_list),
        RouteView::LootTableIndexById(id) => r matches RevReply::LootTableIndex(l) && looked_up(
            l,
            rev.loot_table_index@,
            id,
        ),
        RouteView::MissionTypes => r matches RevReply::MissionTypes(a) && *a.0 == rev.mission_types,
        RouteView::MissionTypesFull => r matches RevReply::MissionTypesFull(m) && *m
            == rev.mission_types,
        RouteView::MissionTypeByTy(ty) => r matches RevReply::MissionType(t) && (
        !rev.mission_types.view().contains_key(ty) ==> t is Unknown) && (
        rev.mission_types.view().contains_key(ty) ==> if rev.mission_types.view()[ty].view().contains_key(
            Seq::<char>::empty(),
        ) {
            t matches MissionTypeReply::Missions(ids) && *ids == rev.mission_types.view()[ty].view()[Seq::<
                char,
            >::empty()]
        } else {
            t matches MissionTypeReply::Subtypes(st) && *st == rev.mission_types.view()[ty]
        }),
        RouteView::MissionTypeBySubTy(ty, sub) => r matches RevReply::MissionSubtype(m) && m.is_some()
            == (rev.mission_types.view().contains_key(ty)
            && rev.mission_types.view()[ty].view().contains_key(sub)) && (m matches Some(ids) ==> *ids
            == rev.mission_types.view()[ty].view()[sub]),
        RouteView::Objects => r matches RevReply::Ids(ids) && lists_ids(ids@, rev.objects.rev@.dom()),
        RouteView::ObjectById(id) => r matches RevReply::Object(o) && looked_up(o, rev.objects.rev@, id),
        RouteView::ObjectsSearchIndex => r matches RevReply::SearchIndex(m) && *m
            == rev.objects.search_index,
        RouteView::ObjectTypes => r matches RevReply::Names(ns) && lists_names(
            ns@,
            rev.object_types.view().dom(),
        ),
        RouteView::ObjectTypeByName(ty) => r matches RevReply::ObjectType(o) && o.is_some()
            == rev.object_types.view().contains_key(ty) && (o matches Some(ids) ==> *ids
            == rev.object_types.view()[ty]),
        RouteView::SkillById(id) => r matches RevReply::Skill(sk) && sk.is_some()
            == rev.skill_ids@.contains_key(id) && (sk matches Some(x) ==> *x == rev.skill_ids@[id]),
        RouteView::GateVersions => r matches RevReply::Names(ns) && lists_names(
            ns@,
            rev.gate_versions.view().dom(),
        ),
        RouteView::GateVersionByName(name) => r matches RevReply::GateVersion(g) && g.is_some()
            == rev.gate_versions.view().contains_key(name) && (g matches Some(x) ==> *x
            == rev.gate_versions.view()[name]),
    }
}

/// The names a string map has, sorted.
fn str_keys<V>(m: &StrMap<V>) -> (r: Vec<String>)
    ensures
        lists_names(r@, m.view().dom()),
{
    let r = m.keys();
    proof {
        assert forall|k: Seq<char>| #[trigger] m.view().dom().contains(k) <==> exists|i: int|
            0 <= i < r@.len() && r@[i]@ == k by {
            if m.view().dom().contains(k) {
                let i = choose|i: int| 0 <= i < m.key_seq().len() && m.key_seq()[i] == k;
                assert(r@[i]@ == k);
            }
        }
    }
    r
}

/// The data that answers a reverse API request.
pub fn rev_reply<'a>(rev: &'a ReverseLookup, route: &Route) -> (r: RevReply<'a>)
    requires
        route@ matches RouteView::FactionById(id) && rev.factions@.contains_key(id)
            ==> rev.component_use.0@.contains_key(COMPONENT_ID_DESTRUCTIBLE),
    ensures
        answers(*rev, route@, r),
{
    match route {
        Route::Base => RevReply::Apis(rev_apis()),
        Route::Activities => RevReply::Ids(int_keys(&rev.activities)),
        Route::ActivityById(id) => RevReply::Activity(rev.activities.get(id)),
        Route::BehaviorById(id) => RevReply::Behavior(rev.behaviors.get(id), rev.get_behavior_set(*id)),
        Route::ComponentTypes => RevReply::Ids(int_keys(&rev.component_use.0)),
        Route::ComponentTypeById(id) => {
            let r = match rev.component_use.ty(*id) {
                Some(c) => {
                    let lots = component_lots(c);
                    RevReply::ComponentType(Some((c, lots)))
                },
                None => RevReply::ComponentType(None),
            };
            r
        },
        Route::ComponentTypeByIdAndCid(key, cid) => RevReply::Component(
            rev_single_component(rev, *key, *cid),
        ),
        Route::Factions => RevReply::Ids(int_keys(&rev.factions)),
        Route::FactionById(id) => RevReply::Faction(FactionById::new(rev, *id)),
        Route::LootTableIndexById(id) => RevReply::LootTableIndex(rev.loot_table_index.get(id)),
        Route::MissionTypes => RevReply::MissionTypes(MissionTypesAdapter::new(rev)),
        Route::MissionTypesFull => RevReply::MissionTypesFull(&rev.mission_types),
        Route::MissionTypeByTy(ty) => RevReply::MissionType(rev_mission_type(rev, ty.0.as_str())),
        Route::MissionTypeBySubTy(ty, sub) => RevReply::MissionSubtype(
            rev_mission_subtype(rev, ty.0.as_str(), sub.0.as_str()),
        ),
        Route::Objects => RevReply::Ids(int_keys(&rev.objects.rev)),
        Route::ObjectById(id) => RevReply::Object(rev.objects.rev.get(id)),
        Route::ObjectsSearchIndex => RevReply::SearchIndex(&rev.objects.search_index),
        Route::ObjectTypes => RevReply::Names(str_keys(&rev.object_types)),
        Route::ObjectTypeByName(ty) => RevReply::ObjectType(rev_object_type(rev, ty.0.as_str())),
        Route::SkillById(id) => RevReply::Skill(rev.skill_ids.get(id)),
        Route::GateVersions => {
            let names = rev.gate_versions.keys();
            RevReply::Names(names)
        },
        Route::GateVersionByName(name) => RevReply::GateVersion(rev.gate_versions.get(name.0.as_str())),
    }
}

} // verus!
