//! The locale query: a body of layers of keys picks, level by level, the
//! children of a node of the translations.
//!
//! Each layer is a list of numbers and texts, never parsed: a number asks
//! for the int child of that number; a text with an underscore asks for the
//! node its parts lead to; any other text asks for the named child of that
//! name, where the translations use that name at all, even where it reads
//! as a number.

use vstd::prelude::*;
use crate::api::graphql::own;
use crate::strmap::{sorted_keys, str_lt, str_same, StrMap};
use crate::text::{parse_u32, spec_parse_u32, spec_split, split, str_chars};
use crate::api::graphql::{join_strings, joined, texts};
use crate::api::locale::{
    doc_view, entries_view, find_int, find_str, int_child_in, lemma_entries_push, lemma_int_child_in,
    lemma_str_child_in, select, select_node, str_child_in, AllDoc, AllView, DocKey, KeyView, LocaleTree,
};
use crate::path::PathSplit;

verus! {

broadcast use vstd::string::group_string_axioms;

/// An element of a query layer as the body has it: a number in the range
/// of `u32`, or a text.
#[derive(Debug, Clone, PartialEq, Eq)]
pub enum QueryItem {
    Int(u32),
    Text(String),
}

/// Whether the translations use the name `s` for a child anywhere.
pub open spec fn known(t: LocaleTree, s: Seq<char>) -> bool {
    exists|n: int, i: int|
        0 <= n < t.nodes@.len() && 0 <= i < t.nodes@[n].str_children@.len() && (
        #[trigger] t.nodes@[n].str_children@[i]).0@ == s
}

/// What an element of a layer asks for.
pub enum Asked {
    /// Nothing: a name the translations do not use.
    Ignore,
    /// The int child of this number.
    Int(u32),
    /// The named child of this name.
    Key(Seq<char>),
    /// The node that the parts of this text, split at `_`, lead to.
    Composite(Seq<char>),
}

/// What element `item` of a layer asks for.
pub open spec fn asked(t: LocaleTree, item: QueryItem) -> Asked {
    match item {
        QueryItem::Int(i) => Asked::Int(i),
        QueryItem::Text(s) => if s@.contains('_') {
            Asked::Composite(s@)
        } else if known(t, s@) {
            Asked::Key(s@)
        } else {
            Asked::Ignore
        },
    }
}

/// A step of a composite key: a number or a name.
#[derive(Debug, Clone, PartialEq, Eq)]
pub enum IntOrKey {
    Int(u32),
    Key(String),
}

/// A step of a composite key, its name as characters.
pub enum PartView {
    Int(u32),
    Key(Seq<char>),
}

/// The view of a step.
pub open spec fn part_view(p: IntOrKey) -> PartView {
    match p {
        IntOrKey::Int(i) => PartView::Int(i),
        IntOrKey::Key(k) => PartView::Key(k@),
    }
}

/// The views of the steps.
pub open spec fn parts_view(ps: Seq<IntOrKey>) -> Seq<PartView> {
    ps.map_values(|p: IntOrKey| part_view(p))
}

/// The step that a part of a composite key names: a number, or a name the
/// translations use.
pub open spec fn part_of(t: LocaleTree, p: Seq<char>) -> Option<PartView> {
    match spec_parse_u32(p) {
        Some(i) => Some(PartView::Int(i)),
        None => if known(t, p) {
            Some(PartView::Key(p))
        } else {
            None
        },
    }
}

/// The steps that the parts name, where each names one.
pub open spec fn parts_of(t: LocaleTree, ps: Seq<Seq<char>>) -> Option<Seq<PartView>>
    decreases ps.len(),
{
    if ps.len() == 0 {
        Some(Seq::empty())
    } else {
        match (parts_of(t, ps.drop_last()), part_of(t, ps.last())) {
            (Some(a), Some(b)) => Some(a.push(b)),
            _ => None,
        }
    }
}

/// The steps of a composite key: its parts between the underscores.
pub open spec fn key_parts_of(t: LocaleTree, s: Seq<char>) -> Option<Seq<PartView>> {
    parts_of(t, spec_split(s, '_'))
}

/// A composite key: its steps and its text.
#[derive(Debug, Clone, PartialEq, Eq)]
pub struct CompositeKey {
    pub parts: Vec<IntOrKey>,
    pub full: String,
}

/// One layer of a query: the numbers, the names and the composite keys it
/// asks for, each list in increasing order, each key once.
#[derive(Debug, Clone, PartialEq, Eq)]
pub struct IntStringSet {
    pub int_keys: Vec<u32>,
    pub str_keys: Vec<String>,
    pub vec_keys: Vec<CompositeKey>,
}

/// The texts of the strings.
pub open spec fn string_texts(v: Seq<String>) -> Seq<Seq<char>> {
    v.map_values(|s: String| s@)
}

/// The texts of the composite keys.
pub open spec fn full_texts(v: Seq<CompositeKey>) -> Seq<Seq<char>> {
    v.map_values(|c: CompositeKey| c.full@)
}

/// Whether some element of `items` asks for `a`.
pub open spec fn asks(t: LocaleTree, items: Seq<QueryItem>, a: Asked) -> bool {
    exists|k: int| 0 <= k < items.len() && asked(t, #[trigger] items[k]) == a
}

/// Whether `r` is the layer that the elements `items` make: the numbers
/// asked for, the names asked for, and the composite keys asked for whose
/// parts all name a step, with their steps.
pub open spec fn layer_is(t: LocaleTree, items: Seq<QueryItem>, r: IntStringSet) -> bool {
    &&& forall|i: int, j: int|
        0 <= i < j < r.int_keys@.len() ==> #[trigger] r.int_keys@[i] < #[trigger] r.int_keys@[j]
    &&& forall|x: u32| #[trigger] r.int_keys@.contains(x) <==> asks(t, items, Asked::Int(x))
    &&& sorted_keys(string_texts(r.str_keys@))
    &&& forall|s: Seq<char>| #[trigger] string_texts(r.str_keys@).contains(s) <==> asks(t, items, Asked::Key(s))
    &&& sorted_keys(full_texts(r.vec_keys@))
    &&& forall|s: Seq<char>| #[trigger] full_texts(r.vec_keys@).contains(s) <==> (asks(
        t,
        items,
        Asked::Composite(s),
    ) && key_parts_of(t, s) is Some)
    &&& forall|j: int|
        0 <= j < r.vec_keys@.len() ==> key_parts_of(t, (#[trigger] r.vec_keys@[j]).full@) == Some(
            parts_view(r.vec_keys@[j].parts@),
        )
}

/// Whether the translations use the name `s` for a child anywhere.
pub fn is_known(t: &LocaleTree, s: &str) -> (r: bool)
    ensures
        r == known(*t, s@),
{
    for n in 0..t.nodes.len()
        invariant
            forall|m: int, i: int|
                0 <= m < n && 0 <= i < t.nodes@[m].str_children@.len() ==> (
                #[trigger] t.nodes@[m].str_children@[i]).0@ != s@,
    {
        let cs = &t.nodes[n].str_children;
        for i in 0..cs.len()
            invariant
                n < t.nodes@.len(),
                cs == &t.nodes@[n as int].str_children,
                forall|j: int| 0 <= j < i ==> (#[trigger] cs@[j]).0@ != s@,
        {
            if str_same(cs[i].0.as_str(), s) {
                assert(t.nodes@[n as int].str_children@[i as int].0@ == s@);
                return true;
            }
        }
    }
    false
}

/// Whether the characters hold an underscore.
fn has_underscore(c: &Vec<char>) -> (r: bool)
    ensures
        r == c@.contains('_'),
{
    for i in 0..c.len()
        invariant
            forall|j: int| 0 <= j < i ==> c@[j] != '_',
    {
        if c[i] == '_' {
            assert(c@[i as int] == '_');
            return true;
        }
    }
    false
}

/// The steps of a composite key `s`, where each part between its
/// underscores names one.
pub fn key_parts(t: &LocaleTree, s: &str) -> (r: Option<Vec<IntOrKey>>)
    ensures
        match r {
            Some(v) => key_parts_of(*t, s@) == Some(parts_view(v@)),
            None => key_parts_of(*t, s@) is None,
        },
{
    let c = str_chars(s);
    let pieces = split(c.as_slice(), '_');
    let ghost ps = pieces.deep_view();
    let mut out: Vec<IntOrKey> = Vec::new();
    let mut ok = true;
    for i in 0..pieces.len()
        invariant
            ps == pieces.deep_view(),
            ok ==> parts_of(*t, ps.take(i as int)) == Some(parts_view(out@)),
            !ok ==> parts_of(*t, ps.take(i as int)) is None,
    {
        let ghost pre = ps.take(i as int);
        assert(ps.take(i + 1).drop_last() == pre);
        assert(ps.take(i + 1).last() == pieces@[i as int]@);
        if ok {
            let p = &pieces[i];
            match parse_u32(p.as_slice()) {
                Some(k) => {
                    let ghost before = out@;
                    out.push(IntOrKey::Int(k));
                    assert(parts_view(out@) =~= parts_view(before).push(PartView::Int(k)));
                },
                None => {
                    let name = crate::text::chars_to_string(p.as_slice());
                    if is_known(t, name.as_str()) {
                        let ghost before = out@;
                        out.push(IntOrKey::Key(name));
                        assert(parts_view(out@) =~= parts_view(before).push(PartView::Key(p@)));
                    } else {
                        ok = false;
                    }
                },
            }
        }
    }
    assert(ps.take(pieces@.len() as int) == ps);
    if ok {
        Some(out)
    } else {
        None
    }
}

/// Adds `x` to the increasing numbers `v`.
fn insert_sorted(v: &mut Vec<u32>, x: u32)
    requires
        forall|i: int, j: int| 0 <= i < j < old(v)@.len() ==> old(v)@[i] < old(v)@[j],
    ensures
        forall|i: int, j: int| 0 <= i < j < final(v)@.len() ==> final(v)@[i] < final(v)@[j],
        forall|y: u32| #[trigger] final(v)@.contains(y) <==> (old(v)@.contains(y) || y == x),
{
    let mut i: usize = 0;
    while i < v.len() && v[i] < x
        invariant
            i <= v@.len(),
            forall|j: int| 0 <= j < i ==> v@[j] < x,
        decreases v@.len() - i,
    {
        i = i + 1;
    }
    if i < v.len() && v[i] == x {
        return;
    }
    let ghost before = v@;
    v.insert(i, x);
    assert(v@ == before.take(i as int).push(x) + before.skip(i as int));
    assert forall|y: u32| #[trigger] v@.contains(y) <==> (before.contains(y) || y == x) by {
        if before.contains(y) {
            let k = choose|k: int| 0 <= k < before.len() && before[k] == y;
            if k < i {
                assert(v@[k] == y);
            } else {
                assert(v@[k + 1] == y);
            }
        }
        if y == x {
            assert(v@[i as int] == x);
        }
        if v@.contains(y) {
            let k = choose|k: int| 0 <= k < v@.len() && v@[k] == y;
            if k < i {
                assert(before[k] == y);
            } else if k > i {
                assert(before[k - 1] == y);
            }
        }
    }
}

/// The layer that the elements `items` make.
pub fn query_layer(t: &LocaleTree, items: &Vec<QueryItem>) -> (r: IntStringSet)
    ensures
        layer_is(*t, items@, r),
{
    let mut ints: Vec<u32> = Vec::new();
    let mut names: StrMap<()> = StrMap::new();
    let mut comps: StrMap<()> = StrMap::new();
    assert(names.view() =~= Map::<Seq<char>, ()>::empty());
    assert(comps.view() =~= Map::<Seq<char>, ()>::empty());
    for i in 0..items.len()
        invariant
            forall|a: int, b: int| 0 <= a < b < ints@.len() ==> ints@[a] < ints@[b],
            forall|x: u32| #[trigger] ints@.contains(x) <==> asks(*t, items@.take(i as int), Asked::Int(x)),
            forall|s: Seq<char>| #[trigger] names.view().contains_key(s) <==> asks(*t, items@.take(i as int), Asked::Key(s)),
            forall|s: Seq<char>| #[trigger] comps.view().contains_key(s) <==> asks(*t, items@.take(i as int), Asked::Composite(s)),
    {
        let ghost pre = items@.take(i as int);
        let ghost cur = items@.take(i + 1);
        assert(cur == pre.push(items@[i as int]));
        assert forall|a: Asked| #[trigger] asks(*t, cur, a) <==> (asks(*t, pre, a) || asked(*t, items@[i as int]) == a) by {
            if asks(*t, pre, a) {
                let k = choose|k: int| 0 <= k < pre.len() && asked(*t, #[trigger] pre[k]) == a;
                assert(cur[k] == pre[k]);
            }
            if asked(*t, items@[i as int]) == a {
                assert(cur[i as int] == items@[i as int]);
            }
            if asks(*t, cur, a) {
                let k = choose|k: int| 0 <= k < cur.len() && asked(*t, #[trigger] cur[k]) == a;
                if k < i {
                    assert(pre[k] == cur[k]);
                }
            }
        }
        match &items[i] {
            QueryItem::Int(x) => {
                insert_sorted(&mut ints, *x);
            },
            QueryItem::Text(s) => {
                let c = str_chars(s.as_str());
                if has_underscore(&c) {
                    comps.put(own(s.as_str()), ());
                } else if is_known(t, s.as_str()) {
                    names.put(own(s.as_str()), ());
                }
            },
        }
    }
    assert(items@.take(items@.len() as int) == items@);
    let str_keys = names.keys();
    assert(string_texts(str_keys@) =~= names.key_seq());
    let fulls = comps.keys();
    let mut vec_keys: Vec<CompositeKey> = Vec::new();
    let mut j: usize = 0;
    while j < fulls.len()
        invariant
            j <= fulls@.len(),
            fulls@.len() == comps.key_seq().len(),
            forall|k: int| 0 <= k < fulls@.len() ==> #[trigger] fulls@[k]@ == comps.key_seq()[k],
            sorted_keys(comps.key_seq()),
            forall|a: int| 0 <= a < vec_keys@.len() ==> exists|k: int|
                0 <= k < j && (#[trigger] vec_keys@[a]).full@ == comps.key_seq()[k],
            sorted_keys(full_texts(vec_keys@)),
            forall|a: int| 0 <= a < vec_keys@.len() ==> key_parts_of(*t, (#[trigger] vec_keys@[a]).full@) == Some(
                parts_view(vec_keys@[a].parts@),
            ),
            forall|s: Seq<char>| #[trigger] full_texts(vec_keys@).contains(s) <==> (exists|k: int|
                0 <= k < j && comps.key_seq()[k] == s) && key_parts_of(*t, s) is Some,
        decreases fulls@.len() - j,
    {
        let f = &fulls[j];
        match key_parts(t, f.as_str()) {
            Some(parts) => {
                let ghost before = vec_keys@;
                vec_keys.push(CompositeKey { parts, full: own(f.as_str()) });
                assert(full_texts(vec_keys@) =~= full_texts(before).push(f@));
                assert forall|a: int, b: int| 0 <= a < b < full_texts(vec_keys@).len() implies str_lt(
                    #[trigger] full_texts(vec_keys@)[a],
                    #[trigger] full_texts(vec_keys@)[b],
                ) by {
                    if b == before.len() {
                        let k = choose|k: int| 0 <= k < j && (#[trigger] before[a]).full@ == comps.key_seq()[k];
                        assert(full_texts(vec_keys@)[a] == before[a].full@);
                        assert(str_lt(comps.key_seq()[k], comps.key_seq()[j as int]));
                    } else {
                        assert(full_texts(vec_keys@)[a] == full_texts(before)[a]);
                        assert(full_texts(vec_keys@)[b] == full_texts(before)[b]);
                    }
                }
                assert forall|s: Seq<char>| #[trigger] full_texts(vec_keys@).contains(s) <==> (exists|k: int|
                    0 <= k < j + 1 && comps.key_seq()[k] == s) && key_parts_of(*t, s) is Some by {
                    if full_texts(before).contains(s) {
                        let a = choose|a: int| 0 <= a < full_texts(before).len() && full_texts(before)[a] == s;
                        assert(full_texts(vec_keys@)[a] == s);
                    }
                    if s == f@ {
                        assert(full_texts(vec_keys@)[before.len() as int] == s);
                    }
                    if full_texts(vec_keys@).contains(s) {
                        let a = choose|a: int| 0 <= a < full_texts(vec_keys@).len() && full_texts(vec_keys@)[a] == s;
                        if a < before.len() {
                            assert(full_texts(before)[a] == s);
                        }
                    }
                    if exists|k: int| 0 <= k < j + 1 && comps.key_seq()[k] == s {
                        let k = choose|k: int| 0 <= k < j + 1 && comps.key_seq()[k] == s;
                        if k == j {
                            assert(s == f@);
                        }
                    }
                }
                assert forall|a: int| 0 <= a < vec_keys@.len() implies exists|k: int|
                    0 <= k < j + 1 && (#[trigger] vec_keys@[a]).full@ == comps.key_seq()[k] by {
                    if a == before.len() {
                        assert(vec_keys@[a].full@ == comps.key_seq()[j as int]);
                    } else {
                        assert(vec_keys@[a] == before[a]);
                        let k = choose|k: int| 0 <= k < j && (#[trigger] before[a]).full@ == comps.key_seq()[k];
                        assert(0 <= k < j + 1 && vec_keys@[a].full@ == comps.key_seq()[k]);
                    }
                }
            },
            None => {
                assert forall|a: int| 0 <= a < vec_keys@.len() implies exists|k: int|
                    0 <= k < j + 1 && (#[trigger] vec_keys@[a]).full@ == comps.key_seq()[k] by {
                    let k = choose|k: int| 0 <= k < j && (#[trigger] vec_keys@[a]).full@ == comps.key_seq()[k];
                    assert(0 <= k < j + 1 && vec_keys@[a].full@ == comps.key_seq()[k]);
                }
                assert forall|s: Seq<char>| #[trigger] full_texts(vec_keys@).contains(s) <==> (exists|k: int|
                    0 <= k < j + 1 && comps.key_seq()[k] == s) && key_parts_of(*t, s) is Some by {
                    if exists|k: int| 0 <= k < j + 1 && comps.key_seq()[k] == s {
                        let k = choose|k: int| 0 <= k < j + 1 && comps.key_seq()[k] == s;
                        if k == j {
                            assert(s == f@);
                        }
                    }
                }
            },
        }
        j = j + 1;
    }
    assert forall|s: Seq<char>| #[trigger] string_texts(str_keys@).contains(s) <==> asks(*t, items@, Asked::Key(s)) by {
        assert(names.view().contains_key(s) <==> names.key_seq().contains(s));
    }
    assert forall|s: Seq<char>| #[trigger] full_texts(vec_keys@).contains(s) <==> (asks(
        *t,
        items@,
        Asked::Composite(s),
    ) && key_parts_of(*t, s) is Some) by {
        assert(comps.view().contains_key(s) <==> comps.key_seq().contains(s));
        if comps.key_seq().contains(s) {
            let k = choose|k: int| 0 <= k < comps.key_seq().len() && comps.key_seq()[k] == s;
        }
    }
    IntStringSet { int_keys: ints, str_keys, vec_keys }
}

/// The layers of a query body.
pub fn query_layers(t: &LocaleTree, body: &Vec<Vec<QueryItem>>) -> (r: Vec<IntStringSet>)
    ensures
        r@.len() == body@.len(),
        forall|i: int| 0 <= i < body@.len() ==> layer_is(*t, body@[i]@, #[trigger] r@[i]),
{
    let mut r: Vec<IntStringSet> = Vec::new();
    for i in 0..body.len()
        invariant
            r@.len() == i,
            forall|k: int| 0 <= k < i ==> layer_is(*t, body@[k]@, #[trigger] r@[k]),
    {
        let layer = query_layer(t, &body[i]);
        r.push(layer);
    }
    r
}

/// The node that the steps lead to from node `n`, where each step names a
/// child.
pub open spec fn path_node(t: LocaleTree, n: int, parts: Seq<PartView>) -> Option<int>
    decreases parts.len(),
{
    if parts.len() == 0 {
        Some(n)
    } else {
        match path_node(t, n, parts.drop_last()) {
            Some(m) => if 0 <= m < t.nodes@.len() {
                match parts.last() {
                    PartView::Int(i) => int_child_in(t.nodes@[m].int_children@, i),
                    PartView::Key(k) => str_child_in(t.nodes@[m].str_children@, k),
                }
            } else {
                None
            },
            None => None,
        }
    }
}

/// What the query with layers `layers` answers for node `n`: with no
/// layer left, the node's text (or nothing); else a map of the children
/// the first layer asks for that the node has (the numbers, then the
/// names, then the composite keys), each answered with the other layers.
pub open spec fn query_view(t: LocaleTree, layers: Seq<IntStringSet>, n: int) -> AllView
    decreases layers.len(), 0int,
{
    if layers.len() == 0 {
        if 0 <= n < t.nodes@.len() {
            match t.nodes@[n].value {
                Some(v) => AllView::Str(v@),
                None => AllView::Null,
            }
        } else {
            AllView::Null
        }
    } else {
        let rest = layers.drop_first();
        AllView::Object(
            int_part(t, rest, n, layers[0].int_keys@) + str_part(t, rest, n, layers[0].str_keys@)
                + vec_part(t, rest, n, layers[0].vec_keys@),
        )
    }
}

/// The entries of the numbers `keys` that node `n` has an int child for.
pub open spec fn int_part(t: LocaleTree, rest: Seq<IntStringSet>, n: int, keys: Seq<u32>) -> Seq<
    (KeyView, AllView),
>
    decreases rest.len(), keys.len(),
{
    if keys.len() == 0 {
        Seq::empty()
    } else {
        let prev = int_part(t, rest, n, keys.drop_last());
        if 0 <= n < t.nodes@.len() {
            match int_child_in(t.nodes@[n].int_children@, keys.last()) {
                Some(c) => prev.push((KeyView::Int(keys.last()), query_view(t, rest, c))),
                None => prev,
            }
        } else {
            prev
        }
    }
}

/// The entries of the names `keys` that node `n` has a named child for.
pub open spec fn str_part(t: LocaleTree, rest: Seq<IntStringSet>, n: int, keys: Seq<String>) -> Seq<
    (KeyView, AllView),
>
    decreases rest.len(), keys.len(),
{
    if keys.len() == 0 {
        Seq::empty()
    } else {
        let prev = str_part(t, rest, n, keys.drop_last());
        if 0 <= n < t.nodes@.len() {
            match str_child_in(t.nodes@[n].str_children@, keys.last()@) {
                Some(c) => prev.push((KeyView::Str(keys.last()@), query_view(t, rest, c))),
                None => prev,
            }
        } else {
            prev
        }
    }
}

/// The entries of the composite keys `keys` whose steps lead somewhere
/// from node `n`.
pub open spec fn vec_part(t: LocaleTree, rest: Seq<IntStringSet>, n: int, keys: Seq<CompositeKey>) -> Seq<
    (KeyView, AllView),
>
    decreases rest.len(), keys.len(),
{
    if keys.len() == 0 {
        Seq::empty()
    } else {
        let prev = vec_part(t, rest, n, keys.drop_last());
        match path_node(t, n, parts_view(keys.last().parts@)) {
            Some(m) => prev.push((KeyView::Str(keys.last().full@), query_view(t, rest, m))),
            None => prev,
        }
    }
}

/// The child under number `k` is one of the list's.
proof fn lemma_int_child_index(cs: Seq<(u32, usize)>, k: u32)
    ensures
        int_child_in(cs, k) matches Some(c) ==> exists|i: int|
            0 <= i < cs.len() && (#[trigger] cs[i]).1 as int == c,
    decreases cs.len(),
{
    if cs.len() > 0 && cs[0].0 != k {
        lemma_int_child_index(cs.drop_first(), k);
        if int_child_in(cs, k) is Some {
            let c = int_child_in(cs, k)->0;
            let i = choose|i: int| 0 <= i < cs.drop_first().len() && (#[trigger] cs.drop_first()[i]).1 as int == c;
            assert(cs[i + 1] == cs.drop_first()[i]);
        }
    } else if cs.len() > 0 {
        assert(cs[0].1 as int == int_child_in(cs, k)->0);
    }
}

/// Where node `n`'s children under number `k` and name `k` lie.
proof fn lemma_child_bounds(t: LocaleTree, n: int)
    requires
        t.wf(),
        0 <= n < t.nodes@.len(),
    ensures
        forall|k: u32| #[trigger] int_child_in(t.nodes@[n].int_children@, k) matches Some(c) ==> n < c
            < t.nodes@.len(),
        forall|k: Seq<char>| #[trigger] str_child_in(t.nodes@[n].str_children@, k) matches Some(c) ==> n < c
            < t.nodes@.len(),
{
    assert forall|k: u32| #[trigger] int_child_in(t.nodes@[n].int_children@, k) is Some implies n
        < int_child_in(t.nodes@[n].int_children@, k)->0 < t.nodes@.len() by {
        lemma_int_child_index(t.nodes@[n].int_children@, k);
        let c = int_child_in(t.nodes@[n].int_children@, k)->0;
        let i = choose|i: int|
            0 <= i < t.nodes@[n].int_children@.len() && (#[trigger] t.nodes@[n].int_children@[i]).1 as int == c;
    }
    assert forall|k: Seq<char>| #[trigger] str_child_in(t.nodes@[n].str_children@, k) is Some implies n
        < str_child_in(t.nodes@[n].str_children@, k)->0 < t.nodes@.len() by {
        lemma_str_child_in(t.nodes@[n].str_children@, k);
        let c = str_child_in(t.nodes@[n].str_children@, k)->0;
        let i = choose|i: int|
            0 <= i < t.nodes@[n].str_children@.len() && (#[trigger] t.nodes@[n].str_children@[i]).0@ == k
                && t.nodes@[n].str_children@[i].1 == c;
    }
}

/// The node that the steps lead to from node `n`.
fn path_node_exec(t: &LocaleTree, n: usize, parts: &Vec<IntOrKey>) -> (r: Option<usize>)
    requires
        t.wf(),
        n < t.nodes@.len(),
    ensures
        match r {
            Some(m) => path_node(*t, n as int, parts_view(parts@)) == Some(m as int) && m < t.nodes@.len(),
            None => path_node(*t, n as int, parts_view(parts@)) is None,
        },
{
    let mut cur = n;
    let mut ok = true;
    for i in 0..parts.len()
        invariant
            t.wf(),
            n < t.nodes@.len(),
            cur < t.nodes@.len(),
            ok ==> path_node(*t, n as int, parts_view(parts@.take(i as int))) == Some(cur as int),
            !ok ==> path_node(*t, n as int, parts_view(parts@.take(i as int))) is None,
    {
        let ghost pv = parts_view(parts@.take(i + 1));
        assert(pv.drop_last() =~= parts_view(parts@.take(i as int)));
        assert(pv.last() == part_view(parts@[i as int]));
        if ok {
            let node = &t.nodes[cur];
            proof {
                lemma_child_bounds(*t, cur as int);
            }
            let next = match &parts[i] {
                IntOrKey::Int(k) => find_int(&node.int_children, *k),
                IntOrKey::Key(s) => find_str(&node.str_children, s.as_str()),
            };
            match next {
                Some(c) => {
                    cur = c;
                },
                None => {
                    ok = false;
                },
            }
        }
    }
    assert(parts@.take(parts@.len() as int) =~= parts@);
    if ok {
        Some(cur)
    } else {
        None
    }
}

/// What the query with the layers from `from` on answers for node `n`.
pub fn query_doc(t: &LocaleTree, layers: &Vec<IntStringSet>, from: usize, n: usize) -> (r: AllDoc)
    requires
        t.wf(),
        n < t.nodes@.len(),
        from <= layers@.len(),
    ensures
        doc_view(r) == query_view(*t, layers@.skip(from as int), n as int),
    decreases layers@.len() - from,
{
    let node = &t.nodes[n];
    if from == layers.len() {
        assert(layers@.skip(from as int) =~= Seq::<IntStringSet>::empty());
        return match &node.value {
            Some(v) => AllDoc::Str(own(v.as_str())),
            None => AllDoc::Null,
        };
    }
    let layer = &layers[from];
    let ghost ls = layers@.skip(from as int);
    let ghost rest = ls.drop_first();
    assert(rest =~= layers@.skip(from + 1));
    assert(ls[0] == layers@[from as int]);
    proof {
        lemma_child_bounds(*t, n as int);
    }
    let next = from + 1;
    let mut es: Vec<(DocKey, AllDoc)> = Vec::new();
    for i in 0..layer.int_keys.len()
        invariant
            t.wf(),
            n < t.nodes@.len(),
            from < layers@.len(),
            layer == &layers@[from as int],
            node == &t.nodes@[n as int],
            rest == layers@.skip(from + 1),
            next == from + 1,
            forall|k: u32| #[trigger] int_child_in(t.nodes@[n as int].int_children@, k) matches Some(c) ==> n < c
                < t.nodes@.len(),
            entries_view(es@, es@.len() as int) == int_part(*t, rest, n as int, layer.int_keys@.take(i as int)),
    {
        let k = layer.int_keys[i];
        assert(layer.int_keys@.take(i + 1).drop_last() =~= layer.int_keys@.take(i as int));
        assert(layer.int_keys@.take(i + 1).last() == k);
        match find_int(&node.int_children, k) {
            Some(c) => {
                let d = query_doc(t, layers, next, c);
                let ghost before = es@;
                let entry = (DocKey::Int(k), d);
                let ghost ge = entry;
                es.push(entry);
                proof {
                    lemma_entries_push(before, ge);
                }
            },
            None => {},
        }
    }
    assert(layer.int_keys@.take(layer.int_keys@.len() as int) =~= layer.int_keys@);
    let ghost a = int_part(*t, rest, n as int, layer.int_keys@);
    for i in 0..layer.str_keys.len()
        invariant
            t.wf(),
            n < t.nodes@.len(),
            from < layers@.len(),
            layer == &layers@[from as int],
            node == &t.nodes@[n as int],
            rest == layers@.skip(from + 1),
            next == from + 1,
            forall|k: Seq<char>| #[trigger] str_child_in(t.nodes@[n as int].str_children@, k) matches Some(c) ==> n < c
                < t.nodes@.len(),
            entries_view(es@, es@.len() as int) == a + str_part(*t, rest, n as int, layer.str_keys@.take(i as int)),
    {
        let key = &layer.str_keys[i];
        assert(layer.str_keys@.take(i + 1).drop_last() =~= layer.str_keys@.take(i as int));
        assert(layer.str_keys@.take(i + 1).last() == *key);
        match find_str(&node.str_children, key.as_str()) {
            Some(c) => {
                let d = query_doc(t, layers, next, c);
                let ghost before = es@;
                let entry = (DocKey::Str(own(key.as_str())), d);
                let ghost ge = entry;
                es.push(entry);
                proof {
                    lemma_entries_push(before, ge);
                    assert(a + str_part(*t, rest, n as int, layer.str_keys@.take(i + 1)) =~= (a + str_part(
                        *t,
                        rest,
                        n as int,
                        layer.str_keys@.take(i as int),
                    )).push((KeyView::Str(key@), query_view(*t, rest, c as int))));
                }
            },
            None => {},
        }
    }
    assert(layer.str_keys@.take(layer.str_keys@.len() as int) =~= layer.str_keys@);
    let ghost b = a + str_part(*t, rest, n as int, layer.str_keys@);
    for i in 0..layer.vec_keys.len()
        invariant
            t.wf(),
            n < t.nodes@.len(),
            from < layers@.len(),
            layer == &layers@[from as int],
            rest == layers@.skip(from + 1),
            next == from + 1,
            entries_view(es@, es@.len() as int) == b + vec_part(*t, rest, n as int, layer.vec_keys@.take(i as int)),
    {
        let vk = &layer.vec_keys[i];
        assert(layer.vec_keys@.take(i + 1).drop_last() =~= layer.vec_keys@.take(i as int));
        assert(layer.vec_keys@.take(i + 1).last() == *vk);
        match path_node_exec(t, n, &vk.parts) {
            Some(m) => {
                let d = query_doc(t, layers, next, m);
                let ghost before = es@;
                let entry = (DocKey::Str(own(vk.full.as_str())), d);
                let ghost ge = entry;
                es.push(entry);
                proof {
                    lemma_entries_push(before, ge);
                    assert(b + vec_part(*t, rest, n as int, layer.vec_keys@.take(i + 1)) =~= (b + vec_part(
                        *t,
                        rest,
                        n as int,
                        layer.vec_keys@.take(i as int),
                    )).push((KeyView::Str(vk.full@), query_view(*t, rest, m as int))));
                }
            },
            None => {},
        }
    }
    assert(layer.vec_keys@.take(layer.vec_keys@.len() as int) =~= layer.vec_keys@);
    let r = AllDoc::Object(es);
    assert(doc_view(r) == AllView::Object(entries_view(es@, es@.len() as int)));
    r
}

/// The segments that a query path is read as: its segments joined with
/// underscores, then split at underscores.
pub open spec fn query_segments(path: Seq<Seq<char>>) -> Seq<Seq<char>> {
    spec_split(joined(path, "_"@), '_')
}

/// What the locale query answers for a request path and the layers of its
/// body: from the node that the path selects (its segments taken apart at
/// underscores too), the children each layer asks for, level by level;
/// `None` (not found) where the path selects no node.
pub fn locale_query(t: &LocaleTree, path: PathSplit, layers: &Vec<IntStringSet>) -> (r: Option<AllDoc>)
    requires
        t.wf(),
    ensures
        match select(*t, 0, query_segments(path@)) {
            Some((n, _)) => r matches Some(d) && doc_view(d) == query_view(*t, layers@, n),
            None => r is None,
        },
{
    let parts = path.rest();
    assert(texts(parts@) =~= path@);
    let key = join_strings(&parts, "_");
    let chars = str_chars(key.as_str());
    let segs = PathSplit::split_on(chars.as_slice(), '_');
    assert(layers@.skip(0) =~= layers@);
    match select_node(t, segs) {
        Some((n, _)) => Some(query_doc(t, layers, 0, n)),
        None => None,
    }
}

} // verus!
