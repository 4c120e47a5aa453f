//! The translations below a node as one flat map: each text under the path
//! of keys that leads to it, joined with underscores (`get_keys` of
//! `assembly_xml`'s locale nodes), and the tables of such maps that the
//! mission replies embed.

use vstd::prelude::*;
use crate::api::graphql::own;
use crate::api::locale::{find_int, find_str, int_child_in, str_child_in, LocaleTree};
use crate::decimal::{decimal, push_u64};
use crate::strmap::StrMap;
use crate::text::{push_str, string_push};

verus! {

broadcast use vstd::string::group_string_axioms;

/// The texts of a map of strings.
pub open spec fn text_map(m: Map<Seq<char>, String>) -> Map<Seq<char>, Seq<char>> {
    Map::new(|k: Seq<char>| m.contains_key(k), |k: Seq<char>| m[k]@)
}

/// The key that a child under `key` gets below `prefix`: the key itself at
/// the top, else the prefix, an underscore and the key.
pub open spec fn child_key(top: bool, prefix: Seq<char>, key: Seq<char>) -> Seq<char> {
    if top {
        key
    } else {
        prefix + seq!['_'] + key
    }
}

/// The flat keys of node `n`'s subtree under `prefix`: those of its named
/// children, then of its int children, then the node's own text under the
/// prefix itself; a later key replaces an earlier one.
pub open spec fn node_keys(t: LocaleTree, n: int, prefix: Seq<char>) -> Map<Seq<char>, Seq<char>>
    decreases t.nodes@.len() - n, t.nodes@[n].str_children@.len() + t.nodes@[n].int_children@.len() + 1,
{
    if 0 <= n < t.nodes@.len() {
        let node = t.nodes@[n];
        let kids = str_upto(t, n, prefix, false, node.str_children@.len() as int).union_prefer_right(
            int_upto(t, n, prefix, false, node.int_children@.len() as int),
        );
        match node.value {
            Some(v) => kids.insert(prefix, v@),
            None => kids,
        }
    } else {
        Map::empty()
    }
}

/// The flat keys of the first `k` named children of node `n`.
pub open spec fn str_upto(t: LocaleTree, n: int, prefix: Seq<char>, top: bool, k: int) -> Map<
    Seq<char>,
    Seq<char>,
>
    decreases t.nodes@.len() - n, k,
{
    if 0 <= n < t.nodes@.len() && 0 < k <= t.nodes@[n].str_children@.len() {
        let (key, c) = t.nodes@[n].str_children@[k - 1];
        let prev = str_upto(t, n, prefix, top, k - 1);
        if n < c < t.nodes@.len() {
            prev.union_prefer_right(node_keys(t, c as int, child_key(top, prefix, key@)))
        } else {
            prev
        }
    } else {
        Map::empty()
    }
}

/// The flat keys of the first `k` int children of node `n`.
pub open spec fn int_upto(t: LocaleTree, n: int, prefix: Seq<char>, top: bool, k: int) -> Map<
    Seq<char>,
    Seq<char>,
>
    decreases t.nodes@.len() - n, k,
{
    if 0 <= n < t.nodes@.len() && 0 < k <= t.nodes@[n].int_children@.len() {
        let (key, c) = t.nodes@[n].int_children@[k - 1];
        let prev = int_upto(t, n, prefix, top, k - 1);
        if n < c < t.nodes@.len() {
            prev.union_prefer_right(node_keys(t, c as int, child_key(top, prefix, decimal(key as nat))))
        } else {
            prev
        }
    } else {
        Map::empty()
    }
}

/// All texts below node `n` (not its own), each under the keys that lead
/// to it from `n`.
pub open spec fn keys_below(t: LocaleTree, n: int) -> Map<Seq<char>, Seq<char>> {
    str_upto(t, n, Seq::empty(), true, t.nodes@[n].str_children@.len() as int).union_prefer_right(
        int_upto(t, n, Seq::empty(), true, t.nodes@[n].int_children@.len() as int),
    )
}

proof fn lemma_union_assoc(a: Map<Seq<char>, Seq<char>>, b: Map<Seq<char>, Seq<char>>, c: Map<Seq<char>, Seq<char>>)
    ensures
        a.union_prefer_right(b.union_prefer_right(c)) == a.union_prefer_right(b).union_prefer_right(c),
{
    assert(a.union_prefer_right(b.union_prefer_right(c)) =~= a.union_prefer_right(b).union_prefer_right(c));
}

proof fn lemma_text_map_put(m: Map<Seq<char>, String>, k: String, v: String)
    ensures
        text_map(m.insert(k@, v)) == text_map(m).insert(k@, v@),
{
    assert(text_map(m.insert(k@, v)) =~= text_map(m).insert(k@, v@));
}

/// The key of a child: `prefix`, an underscore and `key`, or `key` alone
/// at the top.
fn child_key_text(top: bool, prefix: &str, key: &str) -> (r: String)
    ensures
        r@ == child_key(top, prefix@, key@),
{
    let mut r = String::new();
    if !top {
        push_str(&mut r, prefix);
        string_push(&mut r, '_');
    }
    push_str(&mut r, key);
    assert(r@ =~= child_key(top, prefix@, key@));
    r
}

/// Adds the flat keys of the children of node `n` (the named ones, then
/// the int ones) to `out`.
fn add_children_keys(t: &LocaleTree, n: usize, prefix: &str, top: bool, out: &mut StrMap<String>)
    requires
        t.wf(),
        n < t.nodes@.len(),
    ensures
        text_map(final(out).view()) == text_map(old(out).view()).union_prefer_right(
            str_upto(*t, n as int, prefix@, top, t.nodes@[n as int].str_children@.len() as int).union_prefer_right(
                int_upto(*t, n as int, prefix@, top, t.nodes@[n as int].int_children@.len() as int),
            ),
        ),
    decreases t.nodes@.len() - n, 0int,
{
    let ghost m0 = text_map(out.view());
    let node = &t.nodes[n];
    assert(m0 =~= m0.union_prefer_right(Map::empty()));
    for i in 0..node.str_children.len()
        invariant
            t.wf(),
            n < t.nodes@.len(),
            node == &t.nodes@[n as int],
            text_map(out.view()) == m0.union_prefer_right(str_upto(*t, n as int, prefix@, top, i as int)),
    {
        let (key, c) = &node.str_children[i];
        assert(node.str_children@[i as int] == (*key, *c));
        assert(n < *c < t.nodes@.len());
        let p = child_key_text(top, prefix, key.as_str());
        let ghost before = text_map(out.view());
        add_node_keys(t, *c, p.as_str(), out);
        proof {
            lemma_union_assoc(
                m0,
                str_upto(*t, n as int, prefix@, top, i as int),
                node_keys(*t, *c as int, p@),
            );
        }
    }
    let ghost s = str_upto(*t, n as int, prefix@, top, node.str_children@.len() as int);
    assert(s.union_prefer_right(Map::empty()) =~= s);
    for i in 0..node.int_children.len()
        invariant
            t.wf(),
            n < t.nodes@.len(),
            node == &t.nodes@[n as int],
            s == str_upto(*t, n as int, prefix@, top, node.str_children@.len() as int),
            text_map(out.view()) == m0.union_prefer_right(
                s.union_prefer_right(int_upto(*t, n as int, prefix@, top, i as int)),
            ),
    {
        let (key, c) = node.int_children[i];
        assert(node.int_children@[i as int] == (key, c));
        assert(n < c < t.nodes@.len());
        let mut kt = String::new();
        push_u64(&mut kt, key as u64);
        assert(kt@ =~= decimal(key as nat));
        let p = child_key_text(top, prefix, kt.as_str());
        add_node_keys(t, c, p.as_str(), out);
        proof {
            lemma_union_assoc(s, int_upto(*t, n as int, prefix@, top, i as int), node_keys(*t, c as int, p@));
            lemma_union_assoc(
                m0,
                s.union_prefer_right(int_upto(*t, n as int, prefix@, top, i as int)),
                node_keys(*t, c as int, p@),
            );
        }
    }
}

/// Adds the flat keys of node `n`'s subtree under `prefix` to `out`.
fn add_node_keys(t: &LocaleTree, n: usize, prefix: &str, out: &mut StrMap<String>)
    requires
        t.wf(),
        n < t.nodes@.len(),
    ensures
        text_map(final(out).view()) == text_map(old(out).view()).union_prefer_right(node_keys(*t, n as int, prefix@)),
    decreases t.nodes@.len() - n, 1int,
{
    let ghost m0 = text_map(out.view());
    add_children_keys(t, n, prefix, false, out);
    let ghost kids = str_upto(*t, n as int, prefix@, false, t.nodes@[n as int].str_children@.len() as int).union_prefer_right(
        int_upto(*t, n as int, prefix@, false, t.nodes@[n as int].int_children@.len() as int),
    );
    match &t.nodes[n].value {
        Some(v) => {
            let ghost before = out.view();
            let k = own(prefix);
            let val = own(v.as_str());
            out.put(k, val);
            proof {
                lemma_text_map_put(before, k, val);
                assert(m0.union_prefer_right(kids).insert(prefix@, v@) =~= m0.union_prefer_right(
                    kids.insert(prefix@, v@),
                ));
            }
        },
        None => {},
    }
}

/// All texts below node `n` as one flat map (`LocaleNode::get_keys`).
pub fn get_keys(t: &LocaleTree, n: usize) -> (r: StrMap<String>)
    requires
        t.wf(),
        n < t.nodes@.len(),
    ensures
        text_map(r.view()) == keys_below(*t, n as int),
{
    let mut out: StrMap<String> = StrMap::new();
    assert(text_map(out.view()) =~= Map::<Seq<char>, Seq<char>>::empty());
    let top = "";
    proof {
        reveal_strlit("");
        assert(top@ =~= Seq::<char>::empty());
    }
    add_children_keys(t, n, top, true, &mut out);
    assert(Map::<Seq<char>, Seq<char>>::empty().union_prefer_right(keys_below(*t, n as int)) =~= keys_below(
        *t,
        n as int,
    ));
    out
}

/// The flat maps of the int children of node `n` that the ids name, in
/// the order of the ids; a negative id, or one the node has no child for,
/// is passed over.
pub open spec fn table_view(t: LocaleTree, n: int, ids: Seq<i32>) -> Seq<(i32, Map<Seq<char>, Seq<char>>)>
    decreases ids.len(),
{
    if ids.len() == 0 {
        Seq::empty()
    } else {
        let prev = table_view(t, n, ids.drop_last());
        let k = ids.last();
        if k >= 0 && 0 <= n < t.nodes@.len() {
            match int_child_in(t.nodes@[n].int_children@, k as u32) {
                Some(c) => prev.push((k, keys_below(t, c))),
                None => prev,
            }
        } else {
            prev
        }
    }
}

/// The views of a table's entries.
pub open spec fn table_entries(v: Seq<(i32, StrMap<String>)>) -> Seq<(i32, Map<Seq<char>, Seq<char>>)> {
    v.map_values(|e: (i32, StrMap<String>)| (e.0, text_map(e.1.view())))
}

/// The flat maps of the int children of node `n` that the ids name
/// (`LocaleTableAdapter`).
pub fn locale_table(t: &LocaleTree, n: usize, ids: &[i32]) -> (r: Vec<(i32, StrMap<String>)>)
    requires
        t.wf(),
        n < t.nodes@.len(),
    ensures
        table_entries(r@) == table_view(*t, n as int, ids@),
{
    let node = &t.nodes[n];
    let mut r: Vec<(i32, StrMap<String>)> = Vec::new();
    for i in 0..ids.len()
        invariant
            t.wf(),
            n < t.nodes@.len(),
            node == &t.nodes@[n as int],
            table_entries(r@) == table_view(*t, n as int, ids@.take(i as int)),
    {
        let k = ids[i];
        assert(ids@.take(i + 1).drop_last() =~= ids@.take(i as int));
        assert(ids@.take(i + 1).last() == k);
        if k >= 0 {
            match find_int(&node.int_children, k as u32) {
                Some(c) => {
                    proof {
                        crate::api::locale::lemma_int_child_in(node.int_children@, k as u32);
                        let j = choose|j: int|
                            0 <= j < node.int_children@.len() && #[trigger] node.int_children@[j] == (
                            k as u32,
                            c,
                        );
                        assert(t.nodes@[n as int].int_children@[j].1 == c);
                    }
                    let m = get_keys(t, c);
                    let ghost before = r@;
                    r.push((k, m));
                    assert(table_entries(r@) =~= table_entries(before).push((k, text_map(m.view()))));
                },
                None => {},
            }
        }
    }
    assert(ids@.take(ids@.len() as int) =~= ids@);
    r
}

/// The nodes of the mission texts and of the missions among the root's
/// named children, where the translations have both.
pub fn mission_sections(t: &LocaleTree) -> (r: Option<(usize, usize)>)
    requires
        t.wf(),
    ensures
        match (
            str_child_in(t.nodes@[0].str_children@, "MissionText"@),
            str_child_in(t.nodes@[0].str_children@, "Missions"@),
        ) {
            (Some(a), Some(b)) => r == Some((a as usize, b as usize)) && a < t.nodes@.len() && b
                < t.nodes@.len(),
            _ => r is None,
        },
{
    let root = &t.nodes[0];
    let a = find_str(&root.str_children, "MissionText");
    let b = find_str(&root.str_children, "Missions");
    match (a, b) {
        (Some(a), Some(b)) => {
            proof {
                crate::api::locale::lemma_str_child_in(root.str_children@, "MissionText"@);
                crate::api::locale::lemma_str_child_in(root.str_children@, "Missions"@);
                let i = choose|i: int|
                    0 <= i < root.str_children@.len() && (#[trigger] root.str_children@[i]).0@ == "MissionText"@
                        && root.str_children@[i].1 == a;
                let j = choose|j: int|
                    0 <= j < root.str_children@.len() && (#[trigger] root.str_children@[j]).0@ == "Missions"@
                        && root.str_children@[j].1 == b;
                assert(t.nodes@[0].str_children@[i].1 == a);
                assert(t.nodes@[0].str_children@[j].1 == b);
            }
            Some((a, b))
        },
        _ => None,
    }
}

/// The translations a missions reply embeds: the mission texts and the
/// missions of each id.
pub struct MissionLocale {
    pub mission_text: Vec<(i32, StrMap<String>)>,
    pub missions: Vec<(i32, StrMap<String>)>,
}

/// The translations a missions reply embeds for the missions `ids`, from
/// the nodes `sections` of the mission texts and of the missions.
pub fn mission_locale(t: &LocaleTree, sections: (usize, usize), ids: &[i32]) -> (r: MissionLocale)
    requires
        t.wf(),
        sections.0 < t.nodes@.len(),
        sections.1 < t.nodes@.len(),
    ensures
        table_entries(r.mission_text@) == table_view(*t, sections.0 as int, ids@),
        table_entries(r.missions@) == table_view(*t, sections.1 as int, ids@),
{
    MissionLocale { mission_text: locale_table(t, sections.0, ids), missions: locale_table(t, sections.1, ids) }
}

} // verus!
