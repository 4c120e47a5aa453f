//! The single-page app's routes and the page metadata (title, description,
//! preview image) the server fills into the app's index page for them.

use vstd::prelude::*;
use crate::api::graphql::own;
use crate::decimal::{push_i64, signed_decimal};
use crate::services::minihb::Lookup;
use crate::text::{
    chars_eq_str, parse_i32, push_str, spec_parse_i32, spec_split, spec_trim_start, split,
    str_chars, string_push, trim_start, lemma_split_nonempty,
};

verus! {

broadcast use vstd::string::group_string_axioms;

/// The preview image of pages that have none of their own, below the
/// resource root.
pub const DEFAULT_IMG: &'static str = "/ui/ingame/freetrialcongratulations_id.png";

/// A page of the app whose metadata the server knows.
#[derive(Debug, Clone, Copy, PartialEq, Eq, Structural)]
pub enum SpaRoute {
    Dashboard,
    Objects,
    ObjectById { id: i32 },
    Missions,
    MissionById(i32),
    Skills,
    SkillById { id: i32 },
    ItemSets,
    ItemSetById { id: i32 },
}

/// The segments of an app path: leading slashes dropped, split at `/`.
pub open spec fn path_segments(path: Seq<char>) -> Seq<Seq<char>> {
    spec_split(spec_trim_start(path, '/'), '/')
}

/// The route of segment `s` read as an id, where it is one.
pub open spec fn id_route(s: Seq<char>, f: spec_fn(i32) -> SpaRoute) -> Option<SpaRoute> {
    match spec_parse_i32(s) {
        Some(id) => Some(f(id)),
        None => None,
    }
}

/// The route of an app path: the first segment names the section, a
/// second one an entry by id (or, under `objects`, the item sets).
pub open spec fn spa_route_of(path: Seq<char>) -> Option<SpaRoute> {
    let p = path_segments(path);
    if p[0] == "dashboard"@ {
        Some(SpaRoute::Dashboard)
    } else if p[0] == "objects"@ {
        if p.len() < 2 {
            Some(SpaRoute::Objects)
        } else if p[1] == "item-sets"@ {
            if p.len() < 3 {
                Some(SpaRoute::ItemSets)
            } else {
                id_route(p[2], |id: i32| SpaRoute::ItemSetById { id })
            }
        } else {
            id_route(p[1], |id: i32| SpaRoute::ObjectById { id })
        }
    } else if p[0] == "missions"@ {
        if p.len() < 2 {
            Some(SpaRoute::Missions)
        } else {
            id_route(p[1], |id: i32| SpaRoute::MissionById(id))
        }
    } else if p[0] == "skills"@ {
        if p.len() < 2 {
            Some(SpaRoute::Skills)
        } else {
            id_route(p[1], |id: i32| SpaRoute::SkillById { id })
        }
    } else {
        None
    }
}

impl SpaRoute {
    /// The route of an app path, if it is one of the app's pages.
    pub fn parse(path: &str) -> (r: Option<SpaRoute>)
        ensures
            r == spa_route_of(path@),
    {
        let chars = str_chars(path);
        let trimmed = trim_start(chars.as_slice(), '/');
        let parts = split(trimmed.as_slice(), '/');
        let ghost p = path_segments(path@);
        proof {
            lemma_split_nonempty(trimmed@, '/');
        }
        assert(parts.deep_view() == p);
        assert(parts@[0]@ =~= p[0]);
        if chars_eq_str(parts[0].as_slice(), "dashboard") {
            return Some(SpaRoute::Dashboard);
        }
        if chars_eq_str(parts[0].as_slice(), "objects") {
            if parts.len() < 2 {
                return Some(SpaRoute::Objects);
            }
            assert(parts@[1]@ =~= p[1]);
            if chars_eq_str(parts[1].as_slice(), "item-sets") {
                if parts.len() < 3 {
                    return Some(SpaRoute::ItemSets);
                }
                assert(parts@[2]@ =~= p[2]);
                return match parse_i32(parts[2].as_slice()) {
                    Some(id) => Some(SpaRoute::ItemSetById { id }),
                    None => None,
                };
            }
            return match parse_i32(parts[1].as_slice()) {
                Some(id) => Some(SpaRoute::ObjectById { id }),
                None => None,
            };
        }
        if chars_eq_str(parts[0].as_slice(), "missions") {
            if parts.len() < 2 {
                return Some(SpaRoute::Missions);
            }
            assert(parts@[1]@ =~= p[1]);
            return match parse_i32(parts[1].as_slice()) {
                Some(id) => Some(SpaRoute::MissionById(id)),
                None => None,
            };
        }
        if chars_eq_str(parts[0].as_slice(), "skills") {
            if parts.len() < 2 {
                return Some(SpaRoute::Skills);
            }
            assert(parts@[1]@ =~= p[1]);
            return match parse_i32(parts[1].as_slice()) {
                Some(id) => Some(SpaRoute::SkillById { id }),
                None => None,
            };
        }
        None
    }
}

/// The metadata of a page: what a link preview shows of it.
#[derive(Debug, Clone)]
pub struct Meta {
    pub title: String,
    pub description: String,
    pub image: Option<String>,
}

/// The metadata with the given texts and no image of its own.
fn plain_meta(title: &str, description: &str) -> (r: Meta)
    ensures
        r.title@ == title@,
        r.description@ == description@,
        r.image is None,
{
    Meta { title: own(title), description: own(description), image: None }
}

impl Meta {
    /// The metadata of the dashboard.
    pub fn dashboard() -> (r: Meta)
        ensures
            r.title@ == "Dashboard"@,
            r.description@ == "Check out the LEGO Universe Game Data"@,
            r.image is None,
    {
        plain_meta("Dashboard", "Check out the LEGO Universe Game Data")
    }

    /// The metadata of the object list.
    pub fn objects() -> (r: Meta)
        ensures
            r.title@ == "Objects"@,
            r.description@ == "Check out the LEGO Universe Objects"@,
            r.image is None,
    {
        plain_meta("Objects", "Check out the LEGO Universe Objects")
    }

    /// The metadata of the item set list.
    pub fn item_sets() -> (r: Meta)
        ensures
            r.title@ == "Item Sets"@,
            r.description@ == "Check out the LEGO Universe Objects"@,
            r.image is None,
    {
        plain_meta("Item Sets", "Check out the LEGO Universe Objects")
    }

    /// The metadata of the mission list.
    pub fn missions() -> (r: Meta)
        ensures
            r.title@ == "Missions"@,
            r.description@ == "Check out the LEGO Universe Missions"@,
            r.image is None,
    {
        plain_meta("Missions", "Check out the LEGO Universe Missions")
    }

    /// The metadata of the skill list.
    pub fn skills() -> (r: Meta)
        ensures
            r.title@ == "Skills"@,
            r.description@ == "Check out the LEGO Universe Missions"@,
            r.image is None,
    {
        plain_meta("Skills", "Check out the LEGO Universe Missions")
    }
}

impl Default for Meta {
    /// The metadata of a page the server knows nothing of.
    fn default() -> (r: Meta)
        ensures
            r.title@ == "LU-Explorer"@,
            r.description@ == "Check out the LEGO Universe Game Data"@,
            r.image is None,
    {
        plain_meta("LU-Explorer", "Check out the LEGO Universe Game Data")
    }
}

/// The title and description of a list page.
pub open spec fn list_texts(r: SpaRoute) -> (Seq<char>, Seq<char>) {
    match r {
        SpaRoute::Dashboard => ("Dashboard"@, "Check out the LEGO Universe Game Data"@),
        SpaRoute::Objects => ("Objects"@, "Check out the LEGO Universe Objects"@),
        SpaRoute::ItemSets => ("Item Sets"@, "Check out the LEGO Universe Objects"@),
        SpaRoute::Missions => ("Missions"@, "Check out the LEGO Universe Missions"@),
        SpaRoute::Skills => ("Skills"@, "Check out the LEGO Universe Missions"@),
        _ => (Seq::empty(), Seq::empty()),
    }
}

impl SpaRoute {
    /// Whether the page is one entry, whose metadata comes from the data.
    pub open spec fn is_entry(self) -> bool {
        ||| self is ObjectById
        ||| self is MissionById
        ||| self is SkillById
        ||| self is ItemSetById
    }

    /// The metadata of a list page; `None` for an entry page, whose
    /// metadata is built from the entry (see `object_meta` and its kin).
    pub fn list_meta(self) -> (r: Option<Meta>)
        ensures
            r is None <==> self.is_entry(),
            r is Some ==> r->0.title@ == list_texts(self).0 && r->0.description@ == list_texts(
                self,
            ).1 && r->0.image is None,
    {
        match self {
            SpaRoute::Dashboard => Some(Meta::dashboard()),
            SpaRoute::Objects => Some(Meta::objects()),
            SpaRoute::Missions => Some(Meta::missions()),
            SpaRoute::Skills => Some(Meta::skills()),
            SpaRoute::ItemSets => Some(Meta::item_sets()),
            _ => None,
        }
    }
}

/// Where the metadata of a requested page comes from.
#[derive(Debug)]
pub enum MetaPlan {
    /// The metadata is known without the data.
    Ready(Meta),
    /// The page shows one entry of the data, whose metadata is built from it.
    Entry(SpaRoute),
}

/// Where the metadata of the page at `path` comes from: the route's entry
/// for an entry page, the fixed metadata of a list page, and the default
/// metadata for any other path.
pub fn meta_plan(path: &str) -> (r: MetaPlan)
    ensures
        match spa_route_of(path@) {
            None => r matches MetaPlan::Ready(m) && m.title@ == "LU-Explorer"@
                && m.description@ == "Check out the LEGO Universe Game Data"@ && m.image is None,
            Some(route) => if route.is_entry() {
                r == MetaPlan::Entry(route)
            } else {
                r matches MetaPlan::Ready(m) && m.title@ == list_texts(route).0
                    && m.description@ == list_texts(route).1 && m.image is None
            },
        },
{
    match SpaRoute::parse(path) {
        None => MetaPlan::Ready(Meta::default()),
        Some(route) => match route.list_meta() {
            Some(m) => MetaPlan::Ready(m),
            None => MetaPlan::Entry(route),
        },
    }
}

/// The fields of the app's index page template.
#[derive(Debug, Clone)]
pub struct IndexParams {
    pub title: String,
    pub description: String,
    pub page_type: String,
    pub image: String,
    pub url: String,
    pub card: String,
    pub site: String,
}

impl Lookup for IndexParams {
    open spec fn value_of(&self, key: Seq<char>) -> Seq<char> {
        if key == "title"@ {
            self.title@
        } else if key == "description"@ {
            self.description@
        } else if key == "type"@ {
            self.page_type@
        } else if key == "image"@ {
            self.image@
        } else if key == "url"@ {
            self.url@
        } else if key == "card"@ {
            self.card@
        } else if key == "site"@ {
            self.site@
        } else {
            Seq::empty()
        }
    }

    fn field(&self, key: &str) -> (r: String) {
        let k = str_chars(key);
        if chars_eq_str(k.as_slice(), "title") {
            self.title.clone()
        } else if chars_eq_str(k.as_slice(), "description") {
            self.description.clone()
        } else if chars_eq_str(k.as_slice(), "type") {
            self.page_type.clone()
        } else if chars_eq_str(k.as_slice(), "image") {
            self.image.clone()
        } else if chars_eq_str(k.as_slice(), "url") {
            self.url.clone()
        } else if chars_eq_str(k.as_slice(), "card") {
            self.card.clone()
        } else if chars_eq_str(k.as_slice(), "site") {
            self.site.clone()
        } else {
            String::new()
        }
    }
}

/// The index page fields for a page with metadata `meta`, requested at
/// `full_path` (path and query) of a server reachable at `base_url`;
/// `default_img` is the address of `DEFAULT_IMG`.
pub fn index_params(meta: Meta, default_img: &str, base_url: &str, full_path: &str) -> (r:
    IndexParams)
    ensures
        r.title@ == meta.title@,
        r.description@ == meta.description@,
        r.page_type@ == "website"@,
        r.card@ == "summary"@,
        r.site@ == "@lu_explorer"@,
        r.image@ == (match meta.image {
            Some(i) => i@,
            None => default_img@,
        }),
        r.url@ == base_url@ + full_path@,
{
    let image = match meta.image {
        Some(i) => i,
        None => own(default_img),
    };
    let mut url = own(base_url);
    push_str(&mut url, full_path);
    IndexParams {
        title: meta.title,
        description: meta.description,
        page_type: own("website"),
        image,
        url,
        card: own("summary"),
        site: own("@lu_explorer"),
    }
}

/// Whether a mission counts as a mission or as an achievement.
#[derive(Debug, Clone, Copy, PartialEq, Eq, Structural)]
pub enum MissionKind {
    Achievement,
    Mission,
}

/// The name of a mission kind, as `Debug` writes it.
pub open spec fn kind_text(k: MissionKind) -> Seq<char> {
    match k {
        MissionKind::Achievement => "Achievement"@,
        MissionKind::Mission => "Mission"@,
    }
}

/// Appends the name of a mission kind.
fn push_kind(s: &mut String, k: MissionKind)
    ensures
        final(s)@ == old(s)@ + kind_text(k),
{
    match k {
        MissionKind::Achievement => push_str(s, "Achievement"),
        MissionKind::Mission => push_str(s, "Mission"),
    }
}

/// The kind of a mission, from its `isMission` flag where the mission is
/// known: only a known mission that is no mission is an achievement.
pub fn mission_kind(is_mission: Option<bool>) -> (r: MissionKind)
    ensures
        r == (if is_mission == Some(false) {
            MissionKind::Achievement
        } else {
            MissionKind::Mission
        }),
{
    match is_mission {
        Some(false) => MissionKind::Achievement,
        _ => MissionKind::Mission,
    }
}

/// The lines of a bulleted list, each ended by a newline.
pub open spec fn bullet_lines(items: Seq<Seq<char>>) -> Seq<char>
    decreases items.len(),
{
    if items.len() == 0 {
        Seq::empty()
    } else {
        bullet_lines(items.drop_last()) + seq!['-', ' '] + items.last() + seq!['\n']
    }
}

/// A bulleted list: one line `- item` per item, without a newline after
/// the last.
pub open spec fn bullet_list(items: Seq<Seq<char>>) -> Seq<char> {
    if items.len() == 0 {
        Seq::empty()
    } else {
        bullet_lines(items).drop_last()
    }
}

/// The bulleted list of the given items.
pub fn bullets(items: &Vec<String>) -> (r: String)
    ensures
        r@ == bullet_list(items.deep_view()),
{
    let ghost d = items.deep_view();
    let mut out = String::new();
    for i in 0..items.len()
        invariant
            d == items.deep_view(),
            out@ == bullet_list(d.take(i as int)),
    {
        let ghost before = out@;
        let ghost t = d.take(i + 1);
        assert(t.drop_last() == d.take(i as int));
        assert(t.last() == items@[i as int]@);
        if i > 0 {
            string_push(&mut out, '\n');
        }
        string_push(&mut out, '-');
        string_push(&mut out, ' ');
        push_str(&mut out, items[i].as_str());
        proof {
            let bl = bullet_lines(d.take(i as int));
            if i > 0 {
                assert(bl == before.push('\n'));
            } else {
                assert(bl.len() == 0);
            }
            assert(bullet_lines(t) == bl + seq!['-', ' '] + t.last() + seq!['\n']);
            assert(out@ =~= bullet_list(t));
        }
    }
    assert(d.take(items.len() as int) == d);
    out
}

/// The title of a mission page: its name from the locale (taken only for a
/// positive id) with its kind and id, else a note that it is missing.
pub open spec fn mission_title(kind: MissionKind, id: i32, name: Option<Seq<char>>) -> Seq<char> {
    if id > 0 && name is Some {
        name->0 + " | "@ + kind_text(kind) + " #"@ + signed_decimal(id as int)
    } else {
        "Missing "@ + kind_text(kind) + " #"@ + signed_decimal(id as int)
    }
}

/// The title of an item set page: its kit name from the locale (taken only
/// for a positive id), with its rank where that is positive, else a note
/// that it has no name.
pub open spec fn item_set_title(rank: i32, id: i32, name: Option<Seq<char>>) -> Seq<char> {
    if id > 0 && name is Some {
        if rank > 0 {
            name->0 + " (Rank "@ + signed_decimal(rank as int) + ") | Item Set #"@ + signed_decimal(
                id as int,
            )
        } else {
            name->0 + " | Item Set #"@ + signed_decimal(id as int)
        }
    } else {
        "Unnamed Item Set #"@ + signed_decimal(id as int)
    }
}

/// The title of a skill page: its name from the locale (taken only for a
/// positive id), else a plain title for a skill of the database, else a
/// note that it is missing.
pub open spec fn skill_title(id: i32, name: Option<Seq<char>>, in_db: bool) -> Seq<char> {
    if id > 0 && name is Some {
        name->0 + " | Skill #"@ + signed_decimal(id as int)
    } else if in_db {
        "Skill #"@ + signed_decimal(id as int)
    } else {
        "Missing Skill #"@ + signed_decimal(id as int)
    }
}

/// The first image that is there.
pub open spec fn first_image(images: Seq<Option<Seq<char>>>) -> Option<Seq<char>>
    decreases images.len(),
{
    if images.len() == 0 {
        None
    } else if images[0] is Some {
        images[0]
    } else {
        first_image(images.drop_first())
    }
}

/// The first image that is there.
pub fn first_some(images: Vec<Option<String>>) -> (r: Option<String>)
    ensures
        r.deep_view() == first_image(images.deep_view()),
{
    let ghost d = images.deep_view();
    assert(d.skip(0) == d);
    let mut i: usize = 0;
    while i < images.len()
        invariant
            d == images.deep_view(),
            i <= images.len(),
            first_image(d) == first_image(d.skip(i as int)),
        decreases images.len() - i,
    {
        assert(d.skip(i as int)[0] == d[i as int]);
        assert(d.skip(i as int).drop_first() == d.skip(i + 1));
        match &images[i] {
            Some(s) => {
                return Some(s.clone());
            },
            None => {},
        }
        i = i + 1;
    }
    None
}

/// Appends the title of a mission page.
fn push_mission_title(s: &mut String, kind: MissionKind, id: i32, name: Option<String>)
    ensures
        final(s)@ == old(s)@ + mission_title(kind, id, name.deep_view()),
{
    match name {
        Some(n) if id > 0 => {
            push_str(s, n.as_str());
            push_str(s, " | ");
        },
        _ => {
            push_str(s, "Missing ");
        },
    }
    push_kind(s, kind);
    push_str(s, " #");
    push_i64(s, id as i64);
    assert(final(s)@ =~= old(s)@ + mission_title(kind, id, name.deep_view()));
}

/// The metadata of a mission page, from what the data holds of it: the
/// `isMission` flag of the mission, its name in the locale, the images of
/// the mission and of its tasks in order (the first one there is shown)
/// and the descriptions of its tasks.
pub fn mission_meta(
    id: i32,
    is_mission: Option<bool>,
    name: Option<String>,
    images: Vec<Option<String>>,
    task_descriptions: &Vec<String>,
) -> (r: Meta)
    ensures
        r.title@ == mission_title(
            if is_mission == Some(false) {
                MissionKind::Achievement
            } else {
                MissionKind::Mission
            },
            id,
            name.deep_view(),
        ),
        r.description@ == bullet_list(task_descriptions.deep_view()),
        r.image.deep_view() == first_image(images.deep_view()),
{
    let kind = mission_kind(is_mission);
    let mut title = String::new();
    push_mission_title(&mut title, kind, id, name);
    Meta { title, description: bullets(task_descriptions), image: first_some(images) }
}

/// A text of the data where it is there and not empty.
pub open spec fn present(t: Option<Seq<char>>) -> Option<Seq<char>> {
    if t is Some && t->0.len() > 0 {
        t
    } else {
        None
    }
}

/// The title of an object: its display name and its name, the one that is
/// there, or both where they differ, then its id.
pub open spec fn object_title(id: i32, name: Option<Seq<char>>, display: Option<Seq<char>>) -> Seq<char> {
    let tail = " | Object #"@ + signed_decimal(id as int);
    match (present(name), present(display)) {
        (Some(n), Some(d)) => if d != n {
            d + " ("@ + n + ")"@ + tail
        } else {
            n + tail
        },
        (Some(n), None) => n + tail,
        (None, Some(d)) => d + tail,
        (None, None) => "Object #"@ + signed_decimal(id as int),
    }
}

/// The description of an object: its description and its internal notes,
/// the one that is there, or both where they differ.
pub open spec fn object_description(description: Option<Seq<char>>, notes: Option<Seq<char>>) -> Seq<char> {
    match (present(description), present(notes)) {
        (Some(d), Some(i)) => if d != i {
            d + " ("@ + i + ")"@
        } else {
            d
        },
        (Some(d), None) => d,
        (None, Some(i)) => i,
        (None, None) => Seq::empty(),
    }
}

/// The text, where it is there and not empty.
fn present_text(t: Option<String>) -> (r: Option<String>)
    ensures
        r.deep_view() == present(t.deep_view()),
{
    match t {
        Some(s) => if s.as_str().is_empty() {
            None
        } else {
            Some(s)
        },
        None => None,
    }
}

/// The title and description of an object page, from the object's `name`,
/// `description`, `displayName` and `internalNotes`.
pub fn object_name_desc(
    id: i32,
    name: Option<String>,
    description: Option<String>,
    display_name: Option<String>,
    internal_notes: Option<String>,
) -> (r: (String, String))
    ensures
        r.0@ == object_title(id, name.deep_view(), display_name.deep_view()),
        r.1@ == object_description(description.deep_view(), internal_notes.deep_view()),
{
    let mut title = String::new();
    match (present_text(name), present_text(display_name)) {
        (Some(n), Some(d)) => {
            if d != n {
                push_str(&mut title, d.as_str());
                push_str(&mut title, " (");
                push_str(&mut title, n.as_str());
                push_str(&mut title, ")");
            } else {
                push_str(&mut title, n.as_str());
            }
            push_str(&mut title, " | Object #");
        },
        (Some(n), None) => {
            push_str(&mut title, n.as_str());
            push_str(&mut title, " | Object #");
        },
        (None, Some(d)) => {
            push_str(&mut title, d.as_str());
            push_str(&mut title, " | Object #");
        },
        (None, None) => {
            push_str(&mut title, "Object #");
        },
    }
    push_i64(&mut title, id as i64);
    let mut desc = String::new();
    match (present_text(description), present_text(internal_notes)) {
        (Some(d), Some(i)) => {
            push_str(&mut desc, d.as_str());
            if d != i {
                push_str(&mut desc, " (");
                push_str(&mut desc, i.as_str());
                push_str(&mut desc, ")");
            }
        },
        (Some(d), None) => {
            push_str(&mut desc, d.as_str());
        },
        (None, Some(i)) => {
            push_str(&mut desc, i.as_str());
        },
        (None, None) => {},
    }
    proof {
        reveal_strlit(" | Object #");
        reveal_strlit("Object #");
        reveal_strlit(" (");
        reveal_strlit(")");
    }
    assert(title@ =~= object_title(id, name.deep_view(), display_name.deep_view()));
    assert(desc@ =~= object_description(description.deep_view(), internal_notes.deep_view()));
    (title, desc)
}

/// The metadata of an object page, from its name and description where the
/// data has them, and its render image.
pub fn object_meta(id: i32, name_desc: Option<(String, String)>, image: Option<String>) -> (r: Meta)
    ensures
        r.title@ == (match name_desc {
            Some(nd) => nd.0@,
            None => "Missing Object #"@ + signed_decimal(id as int),
        }),
        r.description@ == (match name_desc {
            Some(nd) => nd.1@,
            None => Seq::<char>::empty(),
        }),
        r.image.deep_view() == image.deep_view(),
{
    match name_desc {
        Some((title, description)) => Meta { title, description, image },
        None => {
            let mut title = own("Missing Object #");
            push_i64(&mut title, id as i64);
            Meta { title, description: String::new(), image }
        },
    }
}

/// The metadata of an item set page, from its rank (0 for a set the data
/// does not have), its kit name in the locale, its image and the names of
/// its items.
pub fn item_set_meta(
    id: i32,
    rank: i32,
    kit_name: Option<String>,
    image: Option<String>,
    item_names: &Vec<String>,
) -> (r: Meta)
    ensures
        r.title@ == item_set_title(rank, id, kit_name.deep_view()),
        r.description@ == bullet_list(item_names.deep_view()),
        r.image.deep_view() == image.deep_view(),
{
    let mut title = String::new();
    match kit_name {
        Some(n) if id > 0 => {
            push_str(&mut title, n.as_str());
            if rank > 0 {
                push_str(&mut title, " (Rank ");
                push_i64(&mut title, rank as i64);
                push_str(&mut title, ") | Item Set #");
            } else {
                push_str(&mut title, " | Item Set #");
            }
        },
        _ => {
            push_str(&mut title, "Unnamed Item Set #");
        },
    }
    push_i64(&mut title, id as i64);
    assert(title@ =~= item_set_title(rank, id, kit_name.deep_view()));
    Meta { title, description: bullets(item_names), image }
}

/// The metadata of a skill page, from its name and description in the
/// locale, whether the database has the skill, and the skill's icon (shown
/// only for a skill of the database).
pub fn skill_meta(
    id: i32,
    name: Option<String>,
    description: Option<String>,
    in_db: bool,
    icon: Option<String>,
) -> (r: Meta)
    ensures
        r.title@ == skill_title(id, name.deep_view(), in_db),
        r.description@ == (if id > 0 && description is Some {
            description->0@
        } else {
            Seq::<char>::empty()
        }),
        r.image.deep_view() == (if in_db {
            icon.deep_view()
        } else {
            None
        }),
{
    let mut title = String::new();
    match name {
        Some(n) if id > 0 => {
            push_str(&mut title, n.as_str());
            push_str(&mut title, " | Skill #");
        },
        _ => {
            if in_db {
                push_str(&mut title, "Skill #");
            } else {
                push_str(&mut title, "Missing Skill #");
            }
        },
    }
    push_i64(&mut title, id as i64);
    assert(title@ =~= skill_title(id, name.deep_view(), in_db));
    let description = match description {
        Some(d) if id > 0 => d,
        _ => String::new(),
    };
    let image = if in_db {
        icon
    } else {
        None
    };
    Meta { title, description, image }
}

/// What the file watcher saw happen to a file.
#[derive(Debug, Clone, Copy, PartialEq, Eq, Structural)]
pub enum WatchEventKind {
    /// A file open for writing was closed.
    CloseWrite,
    /// A file was removed.
    RemoveFile,
    /// Anything else.
    Other,
}

/// Whether a watch event means the app's index page changed: a file named
/// `index.html` was written or removed.
pub fn reloads_template(kind: WatchEventKind, file_name: Option<&str>) -> (r: bool)
    ensures
        r == ((kind == WatchEventKind::CloseWrite || kind == WatchEventKind::RemoveFile)
            && (file_name matches Some(n) && n@ == "index.html"@)),
{
    if kind == WatchEventKind::Other {
        return false;
    }
    match file_name {
        Some(n) => chars_eq_str(str_chars(n).as_slice(), "index.html"),
        None => false,
    }
}

} // verus!
