//! Lists of ids as the game database writes them in text columns:
//! comma separated numbers with optional white space, and the mission
//! prerequisite syntax `a&(b|c:2),d`.

use vstd::prelude::*;
use crate::text::{spec_split, split, spec_parse_i32, parse_i32};

verus! {

broadcast use vstd::seq_lib::group_seq_properties;

/// White space as `char::is_whitespace` knows it: the Unicode `White_Space`
/// property.
pub open spec fn is_space(c: char) -> bool {
    ||| '\t' <= c <= '\r'
    ||| c == ' '
    ||| c == '\u{85}'
    ||| c == '\u{A0}'
    ||| c == '\u{1680}'
    ||| '\u{2000}' <= c <= '\u{200A}'
    ||| c == '\u{2028}'
    ||| c == '\u{2029}'
    ||| c == '\u{202F}'
    ||| c == '\u{205F}'
    ||| c == '\u{3000}'
}

/// Whether `c` is white space.
pub fn is_whitespace(c: char) -> (r: bool)
    ensures
        r == is_space(c),
{
    ('\t' <= c && c <= '\r') || c == ' ' || c == '\u{85}' || c == '\u{A0}' || c == '\u{1680}' || (
    '\u{2000}' <= c && c <= '\u{200A}') || c == '\u{2028}' || c == '\u{2029}' || c == '\u{202F}'
        || c == '\u{205F}' || c == '\u{3000}'
}

/// `s` without its leading white space.
pub open spec fn trim_start_space(s: Seq<char>) -> Seq<char>
    decreases s.len(),
{
    if s.len() > 0 && is_space(s[0]) {
        trim_start_space(s.drop_first())
    } else {
        s
    }
}

/// `s` without its trailing white space.
pub open spec fn trim_end_space(s: Seq<char>) -> Seq<char>
    decreases s.len(),
{
    if s.len() > 0 && is_space(s.last()) {
        trim_end_space(s.drop_last())
    } else {
        s
    }
}

/// `s` without white space at either end (`str::trim`).
pub open spec fn spec_trim(s: Seq<char>) -> Seq<char> {
    trim_end_space(trim_start_space(s))
}

proof fn lemma_trim_start_at(s: Seq<char>, i: int)
    requires
        0 <= i <= s.len(),
        forall|j: int| 0 <= j < i ==> is_space(#[trigger] s[j]),
        i == s.len() || !is_space(s[i]),
    ensures
        trim_start_space(s) == s.skip(i),
    decreases i,
{
    if i > 0 {
        assert(s.drop_first().skip(i - 1) =~= s.skip(i));
        assert forall|j: int| 0 <= j < i - 1 implies is_space(#[trigger] s.drop_first()[j]) by {
            assert(s.drop_first()[j] == s[j + 1]);
        }
        lemma_trim_start_at(s.drop_first(), i - 1);
    } else {
        assert(s.skip(0) =~= s);
    }
}

proof fn lemma_trim_end_at(s: Seq<char>, k: int)
    requires
        0 <= k <= s.len(),
        forall|j: int| k <= j < s.len() ==> is_space(#[trigger] s[j]),
        k == 0 || !is_space(s[k - 1]),
    ensures
        trim_end_space(s) == s.take(k),
    decreases s.len() - k,
{
    if k < s.len() {
        assert(s.drop_last().take(k) =~= s.take(k));
        lemma_trim_end_at(s.drop_last(), k);
    } else {
        assert(s.take(k) =~= s);
    }
}

/// Removes white space from both ends of `s`.
pub fn trim(s: &[char]) -> (r: Vec<char>)
    ensures
        r@ == spec_trim(s@),
{
    let mut i: usize = 0;
    while i < s.len() && is_whitespace(s[i])
        invariant
            i <= s@.len(),
            forall|j: int| 0 <= j < i ==> is_space(#[trigger] s@[j]),
        decreases s@.len() - i,
    {
        i = i + 1;
    }
    proof {
        lemma_trim_start_at(s@, i as int);
    }
    let mut k: usize = s.len();
    while k > i && is_whitespace(s[k - 1])
        invariant
            i <= k <= s@.len(),
            forall|j: int| k <= j < s@.len() ==> is_space(#[trigger] s@[j]),
        decreases k,
    {
        k = k - 1;
    }
    let ghost t = s@.skip(i as int);
    proof {
        assert forall|j: int| k - i <= j < t.len() implies is_space(#[trigger] t[j]) by {
            assert(t[j] == s@[j + i]);
        }
        if k > i {
            assert(t[k - i - 1] == s@[k - 1]);
        }
        lemma_trim_end_at(t, k - i);
    }
    let mut r: Vec<char> = Vec::new();
    let mut p = i;
    while p < k
        invariant
            i <= p <= k <= s@.len(),
            r@ == s@.subrange(i as int, p as int),
        decreases k - p,
    {
        r.push(s[p]);
        assert(s@.subrange(i as int, p + 1) == s@.subrange(i as int, p as int).push(s@[p as int]));
        p = p + 1;
    }
    assert(r@ =~= t.take(k - i));
    r
}

/// The pieces of `s` between occurrences of `a` or `b` (`str::split` with
/// a pattern of two chars).
pub open spec fn spec_split_either(s: Seq<char>, a: char, b: char) -> Seq<Seq<char>>
    decreases s.len(),
{
    if s.len() == 0 {
        seq![Seq::<char>::empty()]
    } else {
        let p = spec_split_either(s.drop_last(), a, b);
        if s.last() == a || s.last() == b {
            p.push(Seq::<char>::empty())
        } else {
            p.update(p.len() - 1, p.last().push(s.last()))
        }
    }
}

proof fn lemma_split_either_nonempty(s: Seq<char>, a: char, b: char)
    ensures
        spec_split_either(s, a, b).len() >= 1,
    decreases s.len(),
{
    if s.len() > 0 {
        lemma_split_either_nonempty(s.drop_last(), a, b);
    }
}

/// Splits `s` at every `a` and every `b`.
pub fn split_either(s: &[char], a: char, b: char) -> (r: Vec<Vec<char>>)
    ensures
        r.deep_view() == spec_split_either(s@, a, b),
{
    let mut parts: Vec<Vec<char>> = Vec::new();
    let mut cur: Vec<char> = Vec::new();
    for i in 0..s.len()
        invariant
            parts.deep_view().push(cur@) == spec_split_either(s@.take(i as int), a, b),
    {
        let ghost t = s@.take(i + 1);
        let ghost pd = parts.deep_view();
        assert(t.drop_last() == s@.take(i as int));
        proof {
            lemma_split_either_nonempty(s@.take(i as int), a, b);
        }
        if s[i] == a || s[i] == b {
            let mut old_cur: Vec<char> = Vec::new();
            std::mem::swap(&mut old_cur, &mut cur);
            parts.push(old_cur);
            assert(old_cur.deep_view() =~= old_cur@);
            assert(parts.deep_view() =~= pd.push(old_cur@));
            assert(parts.deep_view().push(cur@) =~= spec_split_either(t, a, b));
        } else {
            cur.push(s[i]);
            assert(parts.deep_view().push(cur@) =~= spec_split_either(t, a, b));
        }
    }
    assert(s@.take(s@.len() as int) == s@);
    let ghost pd = parts.deep_view();
    let ghost c = cur@;
    parts.push(cur);
    assert(cur.deep_view() =~= c);
    assert(parts.deep_view() =~= pd.push(c));
    parts
}

/// The ids of a comma separated list, white space around the list and
/// around each item ignored, items that are no `i32` skipped.
pub open spec fn spec_id_list(text: Seq<char>) -> Seq<i32> {
    spec_split(spec_trim(text), ',').filter_map(|p: Seq<char>| spec_parse_i32(spec_trim(p)))
}

/// The ids of a comma separated list, items taken as they stand (no white
/// space allowed), items that are no `i32` skipped.
pub open spec fn spec_plain_id_list(text: Seq<char>) -> Seq<i32> {
    spec_split(text, ',').filter_map(|p: Seq<char>| spec_parse_i32(p))
}

/// Parses a comma separated list of ids, trimming white space.
pub fn id_list(text: &[char]) -> (r: Vec<i32>)
    ensures
        r@ == spec_id_list(text@),
{
    let t = trim(text);
    let parts = split(t.as_slice(), ',');
    let ghost f = |p: Seq<char>| spec_parse_i32(spec_trim(p));
    let ghost pd = parts.deep_view();
    let mut r: Vec<i32> = Vec::new();
    for i in 0..parts.len()
        invariant
            pd == parts.deep_view(),
            pd == spec_split(spec_trim(text@), ','),
            f == (|p: Seq<char>| spec_parse_i32(spec_trim(p))),
            r@ == pd.take(i as int).filter_map(f),
    {
        let item = trim(parts[i].as_slice());
        proof {
            pd.lemma_filter_map_take_succ(f, i as int);
            assert(parts[i as int]@ == pd[i as int]);
        }
        match parse_i32(item.as_slice()) {
            Some(v) => {
                r.push(v);
            },
            None => {},
        }
    }
    assert(pd.take(pd.len() as int) =~= pd);
    r
}

/// Parses a comma separated list of ids, items as they stand.
pub fn plain_id_list(text: &[char]) -> (r: Vec<i32>)
    ensures
        r@ == spec_plain_id_list(text@),
{
    let parts = split(text, ',');
    let ghost f = |p: Seq<char>| spec_parse_i32(p);
    let ghost pd = parts.deep_view();
    let mut r: Vec<i32> = Vec::new();
    for i in 0..parts.len()
        invariant
            pd == parts.deep_view(),
            pd == spec_split(text@, ','),
            f == (|p: Seq<char>| spec_parse_i32(p)),
            r@ == pd.take(i as int).filter_map(f),
    {
        proof {
            pd.lemma_filter_map_take_succ(f, i as int);
            assert(parts[i as int]@ == pd[i as int]);
        }
        match parse_i32(parts[i].as_slice()) {
            Some(v) => {
                r.push(v);
            },
            None => {},
        }
    }
    assert(pd.take(pd.len() as int) =~= pd);
    r
}

/// `s` without one leading `(`, if it has one.
pub open spec fn strip_open(s: Seq<char>) -> Seq<char> {
    if s.len() > 0 && s[0] == '(' {
        s.drop_first()
    } else {
        s
    }
}

/// `s` without one trailing `)`, if it has one.
pub open spec fn strip_close(s: Seq<char>) -> Seq<char> {
    if s.len() > 0 && s.last() == ')' {
        s.drop_last()
    } else {
        s
    }
}

/// The mission ids of one `&`/`,` separated group of a prerequisite list:
/// the group may sit in parentheses, its alternatives are separated by `|`,
/// and each alternative may carry a `:` suffix, which is ignored.
pub open spec fn prereq_group_ids(all_of: Seq<char>) -> Seq<i32> {
    spec_split(strip_close(strip_open(all_of)), '|').filter_map(
        |any_of: Seq<char>| spec_parse_i32(spec_split(spec_trim(any_of), ':')[0]),
    )
}

/// The mission ids named in a prerequisite list, in order, repeats kept;
/// items that are no `i32` skipped.
pub open spec fn spec_prereq_ids(text: Seq<char>) -> Seq<i32> {
    spec_split_either(text, '&', ',').flat_map(|p: Seq<char>| prereq_group_ids(spec_trim(p)))
}

fn drop_wrapping(s: Vec<char>) -> (r: Vec<char>)
    ensures
        r@ == strip_close(strip_open(s@)),
{
    let mut r: Vec<char> = Vec::new();
    let start: usize = if s.len() > 0 && s[0] == '(' { 1 } else { 0 };
    let ghost a = strip_open(s@);
    assert(a == s@.skip(start as int));
    let mut end: usize = s.len();
    if end > start && s[end - 1] == ')' {
        end = end - 1;
    }
    let mut i = start;
    while i < end
        invariant
            start <= i <= end <= s@.len(),
            r@ == s@.subrange(start as int, i as int),
        decreases end - i,
    {
        r.push(s[i]);
        assert(s@.subrange(start as int, i + 1) == s@.subrange(start as int, i as int).push(s@[i as int]));
        i = i + 1;
    }
    assert(r@ =~= strip_close(a));
    r
}

/// The ids of one prerequisite group.
fn group_ids(all_of: Vec<char>) -> (r: Vec<i32>)
    ensures
        r@ == prereq_group_ids(all_of@),
{
    let inner = drop_wrapping(all_of);
    let alts = split(inner.as_slice(), '|');
    let ghost f = |any_of: Seq<char>| spec_parse_i32(spec_split(spec_trim(any_of), ':')[0]);
    let ghost pd = alts.deep_view();
    let mut r: Vec<i32> = Vec::new();
    for i in 0..alts.len()
        invariant
            pd == alts.deep_view(),
            pd == spec_split(strip_close(strip_open(all_of@)), '|'),
            f == (|any_of: Seq<char>| spec_parse_i32(spec_split(spec_trim(any_of), ':')[0])),
            r@ == pd.take(i as int).filter_map(f),
    {
        proof {
            pd.lemma_filter_map_take_succ(f, i as int);
            assert(alts[i as int]@ == pd[i as int]);
        }
        let t = trim(alts[i].as_slice());
        let pieces = split(t.as_slice(), ':');
        proof {
            crate::text::lemma_split_nonempty(t@, ':');
            assert(pieces[0]@ == pieces.deep_view()[0]);
        }
        match parse_i32(pieces[0].as_slice()) {
            Some(v) => {
                r.push(v);
            },
            None => {},
        }
    }
    assert(pd.take(pd.len() as int) =~= pd);
    r
}

/// Parses a mission prerequisite list into the ids it names.
pub fn prereq_ids(text: &[char]) -> (r: Vec<i32>)
    ensures
        r@ == spec_prereq_ids(text@),
{
    let groups = split_either(text, '&', ',');
    let ghost g = |p: Seq<char>| prereq_group_ids(spec_trim(p));
    let ghost pd = groups.deep_view();
    let mut r: Vec<i32> = Vec::new();
    for i in 0..groups.len()
        invariant
            pd == groups.deep_view(),
            pd == spec_split_either(text@, '&', ','),
            g == (|p: Seq<char>| prereq_group_ids(spec_trim(p))),
            r@ == pd.take(i as int).map_values(g).flatten(),
    {
        let t = trim(groups[i].as_slice());
        proof {
            assert(groups[i as int]@ == pd[i as int]);
        }
        let ids = group_ids(t);
        let ghost before = r@;
        for j in 0..ids.len()
            invariant
                r@ == before + ids@.take(j as int),
        {
            r.push(ids[j]);
            assert(ids@.take(j + 1) == ids@.take(j as int).push(ids@[j as int]));
        }
        proof {
            assert(ids@.take(ids@.len() as int) =~= ids@);
            assert(pd.take(i + 1).map_values(g) =~= pd.take(i as int).map_values(g).push(g(pd[i as int])));
            pd.take(i as int).map_values(g).lemma_flatten_push(g(pd[i as int]));
        }
    }
    assert(pd.take(pd.len() as int) =~= pd);
    r
}

} // verus!
