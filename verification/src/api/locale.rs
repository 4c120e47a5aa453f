//! The locale API: the translations of `locale.xml` as a tree, a node of
//! it selected by a request path, and what the API answers for it.
//!
//! The tree is held as a list of nodes; node 0 is the root, and every
//! node's children come after it in the list.

use vstd::prelude::*;
use crate::path::PathSplit;
use crate::strmap::{lemma_str_lt_transitive, str_less, str_lt, str_same};
use crate::text::{chars_eq_str, chars_to_string, parse_u32, push_str, spec_parse_u32, string_push};
use crate::api::graphql::own;

verus! {

broadcast use vstd::string::group_string_axioms;

/// One node of the translations: its text, if it has one, and its
/// children, by number and by name, each list sorted by key.
#[derive(Debug)]
pub struct LocaleNode {
    pub value: Option<String>,
    pub int_children: Vec<(u32, usize)>,
    pub str_children: Vec<(String, usize)>,
}

/// The translations, node 0 being the root.
#[derive(Debug)]
pub struct LocaleTree {
    pub nodes: Vec<LocaleNode>,
}

impl LocaleTree {
    /// Whether the tree is well formed: there is a root, each child comes
    /// after its parent, and the children of a node are sorted by key,
    /// each key once.
    pub open spec fn wf(&self) -> bool {
        &&& self.nodes@.len() > 0
        &&& forall|n: int, i: int|
            0 <= n < self.nodes@.len() && 0 <= i < self.nodes@[n].int_children@.len() ==> n < (
            #[trigger] self.nodes@[n].int_children@[i]).1 < self.nodes@.len()
        &&& forall|n: int, i: int|
            0 <= n < self.nodes@.len() && 0 <= i < self.nodes@[n].str_children@.len() ==> n < (
            #[trigger] self.nodes@[n].str_children@[i]).1 < self.nodes@.len()
        &&& forall|n: int, i: int, j: int|
            0 <= n < self.nodes@.len() && 0 <= i < j < self.nodes@[n].int_children@.len() ==> (
            #[trigger] self.nodes@[n].int_children@[i]).0 < (
            #[trigger] self.nodes@[n].int_children@[j]).0
        &&& forall|n: int, i: int, j: int|
            0 <= n < self.nodes@.len() && 0 <= i < j < self.nodes@[n].str_children@.len() ==> str_lt(
                (#[trigger] self.nodes@[n].str_children@[i]).0@,
                (#[trigger] self.nodes@[n].str_children@[j]).0@,
            )
    }
}

impl LocaleTree {
    /// Whether the tree is well formed (`wf`).
    pub fn check_wf(&self) -> (r: bool)
        ensures
            r == self.wf(),
    {
        let len = self.nodes.len();
        if len == 0 {
            return false;
        }
        for n in 0..len
            invariant
                len == self.nodes@.len(),
                forall|m: int, i: int|
                    0 <= m < n && 0 <= i < self.nodes@[m].int_children@.len() ==> m < (
                    #[trigger] self.nodes@[m].int_children@[i]).1 < len,
                forall|m: int, i: int|
                    0 <= m < n && 0 <= i < self.nodes@[m].str_children@.len() ==> m < (
                    #[trigger] self.nodes@[m].str_children@[i]).1 < len,
                forall|m: int, i: int, j: int|
                    0 <= m < n && 0 <= i < j < self.nodes@[m].int_children@.len() ==> (
                    #[trigger] self.nodes@[m].int_children@[i]).0 < (
                    #[trigger] self.nodes@[m].int_children@[j]).0,
                forall|m: int, i: int, j: int|
                    0 <= m < n && 0 <= i < j < self.nodes@[m].str_children@.len() ==> str_lt(
                        (#[trigger] self.nodes@[m].str_children@[i]).0@,
                        (#[trigger] self.nodes@[m].str_children@[j]).0@,
                    ),
        {
            let ints = &self.nodes[n].int_children;
            for i in 0..ints.len()
                invariant
                    len == self.nodes@.len(),
                    n < len,
                    ints == &self.nodes@[n as int].int_children,
                    forall|k: int| 0 <= k < i ==> n < (#[trigger] ints@[k]).1 < len,
                    forall|a: int, b: int| 0 <= a < b < i ==> (#[trigger] ints@[a]).0 < (#[trigger] ints@[b]).0,
            {
                if !(n < ints[i].1 && ints[i].1 < len) {
                    assert(!(n < ints@[i as int].1 < len));
                    return false;
                }
                if i > 0 && !(ints[i - 1].0 < ints[i].0) {
                    assert(!(ints@[i - 1].0 < ints@[i as int].0));
                    return false;
                }
            }
            let strs = &self.nodes[n].str_children;
            for i in 0..strs.len()
                invariant
                    len == self.nodes@.len(),
                    n < len,
                    strs == &self.nodes@[n as int].str_children,
                    forall|k: int| 0 <= k < i ==> n < (#[trigger] strs@[k]).1 < len,
                    forall|a: int, b: int| 0 <= a < b < i ==> str_lt((#[trigger] strs@[a]).0@, (#[trigger] strs@[b]).0@),
            {
                if !(n < strs[i].1 && strs[i].1 < len) {
                    assert(!(n < strs@[i as int].1 < len));
                    return false;
                }
                if i > 0 {
                    if !str_less(strs[i - 1].0.as_str(), strs[i].0.as_str()) {
                        assert(!str_lt(strs@[i - 1].0@, strs@[i as int].0@));
                        return false;
                    }
                    assert forall|a: int, b: int| 0 <= a < b < i + 1 implies str_lt(
                        (#[trigger] strs@[a]).0@,
                        (#[trigger] strs@[b]).0@,
                    ) by {
                        if b == i && a < i - 1 {
                            lemma_str_lt_transitive(strs@[a].0@, strs@[i - 1].0@, strs@[i as int].0@);
                        }
                    }
                }
            }
        }
        true
    }
}

/// The child under number `k` among `cs`, if there is one.
pub open spec fn int_child_in(cs: Seq<(u32, usize)>, k: u32) -> Option<int>
    decreases cs.len(),
{
    if cs.len() == 0 {
        None
    } else if cs[0].0 == k {
        Some(cs[0].1 as int)
    } else {
        int_child_in(cs.drop_first(), k)
    }
}

/// The child under name `k` among `cs`, if there is one.
pub open spec fn str_child_in(cs: Seq<(String, usize)>, k: Seq<char>) -> Option<int>
    decreases cs.len(),
{
    if cs.len() == 0 {
        None
    } else if cs[0].0@ == k {
        Some(cs[0].1 as int)
    } else {
        str_child_in(cs.drop_first(), k)
    }
}

/// The child of node `n` that segment `seg` names: a number names an
/// int child, anything else a named child.
pub open spec fn child_of(t: LocaleTree, n: int, seg: Seq<char>) -> Option<int> {
    match spec_parse_u32(seg) {
        Some(k) => int_child_in(t.nodes@[n].int_children@, k),
        None => str_child_in(t.nodes@[n].str_children@, seg),
    }
}

/// How much of a selected node the API answers.
#[derive(Debug, Clone, Copy, PartialEq, Eq, Structural)]
pub enum Mode {
    /// The whole subtree.
    All,
    /// The node's own level: its text and the keys of its children.
    Pod,
}

/// The node the segments lead to from node `n`, and the mode: a last
/// segment `$all` that names no child asks for the whole subtree, an empty
/// last segment (a trailing slash) or no segment for the node's own level;
/// any other segment that names no child selects nothing.
pub open spec fn select(t: LocaleTree, n: int, segs: Seq<Seq<char>>) -> Option<(int, Mode)>
    decreases segs.len(),
{
    if segs.len() == 0 {
        Some((n, Mode::Pod))
    } else {
        match child_of(t, n, segs[0]) {
            Some(c) => select(t, c, segs.drop_first()),
            None => if segs.len() == 1 && segs[0] == "$all"@ {
                Some((n, Mode::All))
            } else if segs.len() == 1 && segs[0].len() == 0 {
                Some((n, Mode::Pod))
            } else {
                None
            },
        }
    }
}

pub(crate) proof fn lemma_int_child_in(cs: Seq<(u32, usize)>, k: u32)
    ensures
        int_child_in(cs, k) matches Some(c) ==> exists|i: int|
            0 <= i < cs.len() && #[trigger] cs[i] == (k, c as usize),
    decreases cs.len(),
{
    if cs.len() > 0 && cs[0].0 != k {
        lemma_int_child_in(cs.drop_first(), k);
        if int_child_in(cs, k) is Some {
            let i = choose|i: int| 0 <= i < cs.drop_first().len() && #[trigger] cs.drop_first()[i] == (k, int_child_in(cs, k)->0 as usize);
            assert(cs[i + 1] == cs.drop_first()[i]);
        }
    } else if cs.len() > 0 {
        assert(cs[0] == (k, cs[0].1));
    }
}

pub(crate) proof fn lemma_str_child_in(cs: Seq<(String, usize)>, k: Seq<char>)
    ensures
        str_child_in(cs, k) matches Some(c) ==> exists|i: int|
            0 <= i < cs.len() && (#[trigger] cs[i]).0@ == k && cs[i].1 == c,
    decreases cs.len(),
{
    if cs.len() > 0 && cs[0].0@ != k {
        lemma_str_child_in(cs.drop_first(), k);
        if str_child_in(cs, k) is Some {
            let i = choose|i: int| 0 <= i < cs.drop_first().len() && (#[trigger] cs.drop_first()[i]).0@ == k && cs.drop_first()[i].1 == str_child_in(cs, k)->0;
            assert(cs[i + 1] == cs.drop_first()[i]);
        }
    }
}

/// The child of node `n` under number `k`.
pub(crate) fn find_int(cs: &Vec<(u32, usize)>, k: u32) -> (r: Option<usize>)
    ensures
        r matches Some(c) ==> int_child_in(cs@, k) == Some(c as int),
        r is None ==> int_child_in(cs@, k) is None,
{
    let mut i: usize = 0;
    assert(cs@.skip(0) == cs@);
    while i < cs.len()
        invariant
            i <= cs@.len(),
            int_child_in(cs@, k) == int_child_in(cs@.skip(i as int), k),
        decreases cs@.len() - i,
    {
        assert(cs@.skip(i as int)[0] == cs@[i as int]);
        assert(cs@.skip(i as int).drop_first() == cs@.skip(i + 1));
        if cs[i].0 == k {
            return Some(cs[i].1);
        }
        i = i + 1;
    }
    None
}

/// The child of node `n` under name `k`.
pub(crate) fn find_str(cs: &Vec<(String, usize)>, k: &str) -> (r: Option<usize>)
    ensures
        r matches Some(c) ==> str_child_in(cs@, k@) == Some(c as int),
        r is None ==> str_child_in(cs@, k@) is None,
{
    let mut i: usize = 0;
    assert(cs@.skip(0) == cs@);
    while i < cs.len()
        invariant
            i <= cs@.len(),
            str_child_in(cs@, k@) == str_child_in(cs@.skip(i as int), k@),
        decreases cs@.len() - i,
    {
        assert(cs@.skip(i as int)[0] == cs@[i as int]);
        assert(cs@.skip(i as int).drop_first() == cs@.skip(i + 1));
        if str_same(cs[i].0.as_str(), k) {
            return Some(cs[i].1);
        }
        i = i + 1;
    }
    None
}

/// The child of node `n` that segment `seg` names.
pub fn node_child(t: &LocaleTree, n: usize, seg: &[char]) -> (r: Option<usize>)
    requires
        t.wf(),
        n < t.nodes@.len(),
    ensures
        r matches Some(c) ==> child_of(*t, n as int, seg@) == Some(c as int) && n < c < t.nodes@.len(),
        r is None ==> child_of(*t, n as int, seg@) is None,
{
    let node = &t.nodes[n];
    match parse_u32(seg) {
        Some(k) => {
            let r = find_int(&node.int_children, k);
            proof {
                lemma_int_child_in(node.int_children@, k);
            }
            r
        },
        None => {
            let s = chars_to_string(seg);
            let r = find_str(&node.str_children, s.as_str());
            proof {
                lemma_str_child_in(node.str_children@, seg@);
            }
            r
        },
    }
}

/// The node a request path selects from the root, and how much of it the
/// API answers.
pub fn select_node(t: &LocaleTree, path: PathSplit) -> (r: Option<(usize, Mode)>)
    requires
        t.wf(),
    ensures
        match r {
            Some((n, m)) => select(*t, 0, path@) == Some((n as int, m)) && n < t.nodes@.len(),
            None => select(*t, 0, path@) is None,
        },
{
    let ghost segs = path@;
    let mut rest = path;
    let mut node: usize = 0;
    loop
        invariant
            t.wf(),
            node < t.nodes@.len(),
            segs == path@,
            select(*t, 0, segs) == select(*t, node as int, rest@),
        decreases rest@.len(),
    {
        let ghost before = rest@;
        match rest.next() {
            None => {
                return Some((node, Mode::Pod));
            },
            Some(seg) => {
                match node_child(t, node, seg.as_slice()) {
                    Some(c) => {
                        node = c;
                    },
                    None => {
                        let last = rest.next().is_none();
                        if last && chars_eq_str(seg.as_slice(), "$all") {
                            return Some((node, Mode::All));
                        }
                        if last && seg.len() == 0 {
                            return Some((node, Mode::Pod));
                        }
                        return None;
                    },
                }
            },
        }
    }
}

/// The name suffix and the node that `All` shows for a child: a node whose
/// only content is one named child is shown as that child, its name added
/// to the suffix after an underscore.
pub open spec fn inner_of(t: LocaleTree, n: int) -> (Seq<char>, int)
    decreases t.nodes@.len() - n,
{
    if 0 <= n < t.nodes@.len() && t.nodes@[n].value is None && t.nodes@[n].int_children@.len() == 0
        && t.nodes@[n].str_children@.len() == 1 {
        let (k, c) = t.nodes@[n].str_children@[0];
        if n < c < t.nodes@.len() {
            let (s, m) = inner_of(t, c as int);
            (seq!['_'] + k@ + s, m)
        } else {
            (Seq::empty(), n)
        }
    } else {
        (Seq::empty(), n)
    }
}

/// A subtree to be shown in full.
#[derive(Debug, Clone, Copy, PartialEq, Eq, Structural)]
pub struct All {
    pub node: usize,
}

impl All {
    /// Shows node `node` in full.
    pub fn new(node: usize) -> (r: All)
        ensures
            r.node == node,
    {
        All { node }
    }

    /// Shows a child node in full, skipping the nodes whose only content
    /// is one named child; yields the names skipped, each after an
    /// underscore.
    pub fn new_inner(t: &LocaleTree, node: usize) -> (r: (String, All))
        requires
            t.wf(),
            node < t.nodes@.len(),
        ensures
            r.0@ == inner_of(*t, node as int).0,
            r.1.node == inner_of(*t, node as int).1,
            node <= r.1.node < t.nodes@.len(),
    {
        let mut suffix = String::new();
        let mut n = node;
        loop
            invariant
                t.wf(),
                node <= n < t.nodes@.len(),
                inner_of(*t, node as int) == (suffix@ + inner_of(*t, n as int).0, inner_of(
                    *t,
                    n as int,
                ).1),
            decreases t.nodes@.len() - n,
        {
            let cur = &t.nodes[n];
            if cur.value.is_none() && cur.int_children.len() == 0 && cur.str_children.len() == 1 {
                let ghost before = suffix@;
                let (k, c) = &cur.str_children[0];
                string_push(&mut suffix, '_');
                push_str(&mut suffix, k.as_str());
                proof {
                    assert(n < *c < t.nodes@.len());
                    assert(suffix@ + inner_of(*t, *c as int).0 =~= before + inner_of(*t, n as int).0);
                }
                n = *c;
            } else {
                assert(suffix@ + inner_of(*t, n as int).0 =~= suffix@);
                return (suffix, All { node: n });
            }
        }
    }
}

/// A map key of an answer: a number or a name.
#[derive(Debug, Clone, PartialEq, Eq)]
pub enum DocKey {
    Int(u32),
    Str(String),
}

/// A map key of an answer, its name as characters.
pub enum KeyView {
    Int(u32),
    Str(Seq<char>),
}

/// What `All` answers for a node: its text where it has no children, a
/// map where it has (`$value` for its text, then its children by number,
/// then by name), or nothing.
#[derive(Debug, PartialEq, Eq)]
pub enum AllDoc {
    Null,
    Str(String),
    Object(Vec<(DocKey, AllDoc)>),
}

/// An `AllDoc`, with its texts as characters.
pub enum AllView {
    Null,
    Str(Seq<char>),
    Object(Seq<(KeyView, AllView)>),
}

/// The view of a map key.
pub open spec fn key_view(k: DocKey) -> KeyView {
    match k {
        DocKey::Int(i) => KeyView::Int(i),
        DocKey::Str(s) => KeyView::Str(s@),
    }
}

/// The view of an answer.
pub open spec fn doc_view(d: AllDoc) -> AllView
    decreases d, 0int,
{
    match d {
        AllDoc::Null => AllView::Null,
        AllDoc::Str(s) => AllView::Str(s@),
        AllDoc::Object(es) => {
            proof {
                assert(decreases_to!(d => es));
                assert(decreases_to!(es => es@));
            }
            AllView::Object(entries_view(es@, es@.len() as int))
        },
    }
}

/// The views of the first `k` entries.
pub open spec fn entries_view(es: Seq<(DocKey, AllDoc)>, k: int) -> Seq<(KeyView, AllView)>
    decreases es, k,
{
    if k <= 0 || k > es.len() {
        Seq::empty()
    } else {
        proof {
            assert(decreases_to!(es => es[k - 1]));
            assert(decreases_to!(es[k - 1] => es[k - 1].1));
        }
        entries_view(es, k - 1).push((key_view(es[k - 1].0), doc_view(es[k - 1].1)))
    }
}

/// What `All` answers for node `n`.
pub open spec fn all_view(t: LocaleTree, n: int) -> AllView
    decreases t.nodes@.len() - n, t.nodes@[n].int_children@.len() + t.nodes@[n].str_children@.len() + 1,
{
    if 0 <= n < t.nodes@.len() {
        let node = t.nodes@[n];
        if node.int_children@.len() + node.str_children@.len() > 0 {
            let v = match node.value {
                Some(v) => seq![(KeyView::Str("$value"@), AllView::Str(v@))],
                None => Seq::empty(),
            };
            AllView::Object(
                v + int_entries(t, n, node.int_children@.len() as int) + str_entries(
                    t,
                    n,
                    node.str_children@.len() as int,
                ),
            )
        } else {
            match node.value {
                Some(v) => AllView::Str(v@),
                None => AllView::Null,
            }
        }
    } else {
        AllView::Null
    }
}

/// The entries of the first `k` int children of node `n`.
pub open spec fn int_entries(t: LocaleTree, n: int, k: int) -> Seq<(KeyView, AllView)>
    decreases t.nodes@.len() - n, k,
{
    if 0 <= n < t.nodes@.len() && 0 < k <= t.nodes@[n].int_children@.len() {
        let (key, c) = t.nodes@[n].int_children@[k - 1];
        let e = if n < c < t.nodes@.len() {
            all_view(t, c as int)
        } else {
            AllView::Null
        };
        int_entries(t, n, k - 1).push((KeyView::Int(key), e))
    } else {
        Seq::empty()
    }
}

/// The entries of the first `k` named children of node `n`: each under its
/// name and the suffix of the nodes skipped below it.
pub open spec fn str_entries(t: LocaleTree, n: int, k: int) -> Seq<(KeyView, AllView)>
    decreases t.nodes@.len() - n, k,
{
    if 0 <= n < t.nodes@.len() && 0 < k <= t.nodes@[n].str_children@.len() {
        let (key, c) = t.nodes@[n].str_children@[k - 1];
        let e = if n < c < t.nodes@.len() {
            let (s, m) = inner_of(t, c as int);
            if c <= m < t.nodes@.len() {
                (KeyView::Str(key@ + s), all_view(t, m))
            } else {
                (KeyView::Str(key@ + s), AllView::Null)
            }
        } else {
            (KeyView::Str(key@), AllView::Null)
        };
        str_entries(t, n, k - 1).push(e)
    } else {
        Seq::empty()
    }
}

proof fn lemma_inner_of(t: LocaleTree, n: int)
    requires
        t.wf(),
        0 <= n < t.nodes@.len(),
    ensures
        n <= inner_of(t, n).1 < t.nodes@.len(),
    decreases t.nodes@.len() - n,
{
    let node = t.nodes@[n];
    if node.value is None && node.int_children@.len() == 0 && node.str_children@.len() == 1 {
        let c = node.str_children@[0].1;
        assert(n < c < t.nodes@.len());
        lemma_inner_of(t, c as int);
    }
}

/// The name key of a child with a suffix: the name, then the suffix.
pub struct WithSuffix {
    pub value: String,
    pub suffix: String,
}

impl WithSuffix {
    /// A name with a suffix.
    pub fn new(value: &str, suffix: &str) -> (r: WithSuffix)
        ensures
            r.value@ == value@,
            r.suffix@ == suffix@,
    {
        WithSuffix { value: own(value), suffix: own(suffix) }
    }

    /// The key the name and suffix make.
    pub fn key(&self) -> (r: String)
        ensures
            r@ == self.value@ + self.suffix@,
    {
        let mut r = own(self.value.as_str());
        push_str(&mut r, self.suffix.as_str());
        r
    }
}

/// What `All` answers for node `n`.
pub fn all_doc(t: &LocaleTree, n: usize) -> (r: AllDoc)
    requires
        t.wf(),
        n < t.nodes@.len(),
    ensures
        doc_view(r) == all_view(*t, n as int),
    decreases t.nodes@.len() - n,
{
    let node = &t.nodes[n];
    let ni = node.int_children.len();
    let ns = node.str_children.len();
    if ni > 0 || ns > 0 {
        let mut es: Vec<(DocKey, AllDoc)> = Vec::new();
        let ghost mut v: Seq<(KeyView, AllView)> = Seq::empty();
        match &node.value {
            Some(s) => {
                es.push((DocKey::Str(own("$value")), AllDoc::Str(own(s.as_str()))));
                proof {
                    v = seq![(KeyView::Str("$value"@), AllView::Str(s@))];
                    assert(entries_view(es@, 1) == entries_view(es@, 0).push(
                        (key_view(es@[0].0), doc_view(es@[0].1)),
                    ));
                    assert(entries_view(es@, 1) =~= v);
                }
            },
            None => {},
        }
        let ghost base = es@.len() as int;
        assert(entries_view(es@, es@.len() as int) == v);
        for i in 0..ni
            invariant
                t.wf(),
                n < t.nodes@.len(),
                node == &t.nodes@[n as int],
                ni == node.int_children@.len(),
                base <= 1,
                es@.len() == base + i,
                entries_view(es@, es@.len() as int) == v + int_entries(*t, n as int, i as int),
        {
            let (key, c) = node.int_children[i];
            assert(node.int_children@[i as int] == (key, c));
            assert(n < c < t.nodes@.len());
            let d = all_doc(t, c);
            let ghost before = es@;
            let entry = (DocKey::Int(key), d);
            let ghost ge = entry;
            es.push(entry);
            proof {
                lemma_entries_push(before, ge);
                assert(v + int_entries(*t, n as int, i + 1) =~= (v + int_entries(*t, n as int, i as int)).push(
                    (KeyView::Int(key), all_view(*t, c as int)),
                ));
            }
        }
        let ghost mid = v + int_entries(*t, n as int, ni as int);
        for i in 0..ns
            invariant
                t.wf(),
                n < t.nodes@.len(),
                node == &t.nodes@[n as int],
                ns == node.str_children@.len(),
                entries_view(es@, es@.len() as int) == mid + str_entries(*t, n as int, i as int),
        {
            let (key, c) = &node.str_children[i];
            assert(node.str_children@[i as int] == (*key, *c));
            assert(n < *c < t.nodes@.len());
            let (suffix, inner) = All::new_inner(t, *c);
            let d = all_doc(t, inner.node);
            let w = WithSuffix::new(key.as_str(), suffix.as_str());
            let ghost before = es@;
            let entry = (DocKey::Str(w.key()), d);
            let ghost ge = entry;
            es.push(entry);
            proof {
                lemma_entries_push(before, ge);
                assert(mid + str_entries(*t, n as int, i + 1) =~= (mid + str_entries(*t, n as int, i as int)).push(
                    (KeyView::Str(key@ + suffix@), all_view(*t, inner.node as int)),
                ));
            }
        }
        let r = AllDoc::Object(es);
        assert(doc_view(r) == AllView::Object(entries_view(es@, es@.len() as int)));
        r
    } else {
        match &node.value {
            Some(s) => AllDoc::Str(own(s.as_str())),
            None => AllDoc::Null,
        }
    }
}

proof fn lemma_entries_prefix(s: Seq<(DocKey, AllDoc)>, t: Seq<(DocKey, AllDoc)>, k: int)
    requires
        0 <= k <= s.len(),
        k <= t.len(),
        s.take(k) == t.take(k),
    ensures
        entries_view(s, k) == entries_view(t, k),
    decreases k,
{
    if k > 0 {
        assert(s.take(k - 1) == s.take(k).take(k - 1));
        assert(t.take(k - 1) == t.take(k).take(k - 1));
        assert(s[k - 1] == s.take(k)[k - 1]);
        assert(t[k - 1] == t.take(k)[k - 1]);
        lemma_entries_prefix(s, t, k - 1);
    }
}

pub(crate) proof fn lemma_entries_push(s: Seq<(DocKey, AllDoc)>, e: (DocKey, AllDoc))
    ensures
        entries_view(s.push(e), (s.len() + 1) as int) == entries_view(s, s.len() as int).push(
            (key_view(e.0), doc_view(e.1)),
        ),
{
    assert(s.push(e).take(s.len() as int) =~= s.take(s.len() as int));
    lemma_entries_prefix(s.push(e), s, s.len() as int);
}

/// What `Pod` answers for a node: its text, the numbers of its int
/// children and the names of its named children, in order.
#[derive(Debug, PartialEq, Eq)]
pub struct PodDoc {
    pub value: Option<String>,
    pub int_keys: Vec<u32>,
    pub str_keys: Vec<String>,
}

/// Whether `p` is what `Pod` answers for node `n`.
pub open spec fn pod_is(p: PodDoc, t: LocaleTree, n: int) -> bool {
    &&& match (p.value, t.nodes@[n].value) {
        (Some(a), Some(b)) => a@ == b@,
        (None, None) => true,
        _ => false,
    }
    &&& p.int_keys@ == t.nodes@[n].int_children@.map_values(|c: (u32, usize)| c.0)
    &&& p.str_keys@.len() == t.nodes@[n].str_children@.len()
    &&& forall|i: int|
        0 <= i < p.str_keys@.len() ==> #[trigger] p.str_keys@[i]@ == t.nodes@[n].str_children@[i].0@
}

/// What `Pod` answers for node `n`.
pub fn pod_doc(t: &LocaleTree, n: usize) -> (r: PodDoc)
    requires
        n < t.nodes@.len(),
    ensures
        pod_is(r, *t, n as int),
{
    let node = &t.nodes[n];
    let value = match &node.value {
        Some(s) => Some(own(s.as_str())),
        None => None,
    };
    let mut int_keys: Vec<u32> = Vec::new();
    for i in 0..node.int_children.len()
        invariant
            int_keys@ == node.int_children@.take(i as int).map_values(|p: (u32, usize)| p.0),
    {
        int_keys.push(node.int_children[i].0);
        assert(node.int_children@.take(i + 1).map_values(|p: (u32, usize)| p.0) =~= node.int_children@.take(
            i as int,
        ).map_values(|p: (u32, usize)| p.0).push(node.int_children@[i as int].0));
    }
    assert(node.int_children@.take(node.int_children@.len() as int) =~= node.int_children@);
    let mut str_keys: Vec<String> = Vec::new();
    for i in 0..node.str_children.len()
        invariant
            str_keys@.len() == i,
            forall|j: int| 0 <= j < i ==> #[trigger] str_keys@[j]@ == node.str_children@[j].0@,
    {
        str_keys.push(own(node.str_children[i].0.as_str()));
    }
    PodDoc { value, int_keys, str_keys }
}

/// What the locale API answers.
#[derive(Debug)]
pub enum LocaleReply {
    All(AllDoc),
    Pod(PodDoc),
}

/// What the locale API answers for a request path: the node it selects,
/// in full or its own level; `None` (not found) where it selects none.
pub fn locale_reply(t: &LocaleTree, path: PathSplit) -> (r: Option<LocaleReply>)
    requires
        t.wf(),
    ensures
        match select(*t, 0, path@) {
            None => r is None,
            Some((n, m)) => match r {
                Some(LocaleReply::All(d)) => m == Mode::All && doc_view(d) == all_view(*t, n),
                Some(LocaleReply::Pod(p)) => m == Mode::Pod && pod_is(p, *t, n),
                None => false,
            },
        },
{
    match select_node(t, path) {
        Some((n, Mode::All)) => Some(LocaleReply::All(all_doc(t, n))),
        Some((n, Mode::Pod)) => Some(LocaleReply::Pod(pod_doc(t, n))),
        None => None,
    }
}

} // verus!
