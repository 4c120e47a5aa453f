//! Turns the app's index page into the page template: each
//! `<meta name="..." content="...">` (or `property=`) tag whose name is one
//! of the link preview fields gets a placeholder for that field in place of
//! its content.
//!
//! A tag is `<meta`, white space, `name` or `property`, `="`, the name (the
//! shortest text on the line after which the tag goes on), `"`, white space,
//! `content="`, the content (the longest text on the line after which the
//! tag closes), `"`, optional white space, an optional `/`, and `>`. Tags
//! are found from left to right and do not overlap.

use vstd::prelude::*;
use crate::lists::{is_space, is_whitespace};
use crate::text::{push_chars, push_str, str_chars, string_push};

verus! {

broadcast use vstd::string::group_string_axioms;

/// The end of the run of white space that starts at `i`.
pub open spec fn space_end(t: Seq<char>, i: int) -> int
    decreases t.len() - i,
{
    if 0 <= i < t.len() && is_space(t[i]) {
        space_end(t, i + 1)
    } else {
        i
    }
}

/// The end of the line that `i` is on: the first newline from `i` on, or
/// the end of the text.
pub open spec fn line_end(t: Seq<char>, i: int) -> int
    decreases t.len() - i,
{
    if 0 <= i < t.len() && t[i] != '\n' {
        line_end(t, i + 1)
    } else {
        i
    }
}

/// Whether `w` stands in `t` at `i`.
pub open spec fn has_at(t: Seq<char>, i: int, w: Seq<char>) -> bool {
    0 <= i && i + w.len() <= t.len() && t.subrange(i, i + w.len()) == w
}

/// Where the tag ends if the quote at `c` closes its content: the quote,
/// white space, an optional `/`, and `>`.
pub open spec fn close_at(t: Seq<char>, c: int) -> Option<int> {
    if 0 <= c < t.len() && t[c] == '"' {
        let e = space_end(t, c + 1);
        let f = if e < t.len() && t[e] == '/' {
            e + 1
        } else {
            e
        };
        if f < t.len() && t[f] == '>' {
            Some(f + 1)
        } else {
            None
        }
    } else {
        None
    }
}

/// The last quote at or before `c`, and not before `s`, that closes the
/// tag, with the tag's end.
pub open spec fn content_close(t: Seq<char>, s: int, c: int) -> Option<(int, int)>
    decreases c - s + 1,
{
    if c < s {
        None
    } else if close_at(t, c) is Some {
        Some((c, close_at(t, c)->0))
    } else {
        content_close(t, s, c - 1)
    }
}

/// What follows a name that ends at `q`: the quote, white space,
/// `content="`, the content and the close; yields where the content starts
/// and ends and where the tag ends.
pub open spec fn after_name(t: Seq<char>, q: int) -> Option<(int, int, int)> {
    if 0 <= q < t.len() && t[q] == '"' {
        let w = space_end(t, q + 1);
        if w > q + 1 && has_at(t, w, "content=\""@) {
            let s = w + 9;
            match content_close(t, s, line_end(t, s) - 1) {
                Some((c, e)) => Some((s, c, e)),
                None => None,
            }
        } else {
            None
        }
    } else {
        None
    }
}

/// The first end `q` of the name, from `q` on and before `le`, after which
/// the tag goes on, with what `after_name` yields there.
pub open spec fn name_from(t: Seq<char>, q: int, le: int) -> Option<(int, (int, int, int))>
    decreases le - q,
{
    if q >= le {
        None
    } else if after_name(t, q) is Some {
        Some((q, after_name(t, q)->0))
    } else {
        name_from(t, q + 1, le)
    }
}

/// The tag that starts at `i`: where its kind (`name` or `property`)
/// starts and ends, where its name ends (it starts two after the kind's
/// end), where its content starts and ends, and where the tag ends.
pub open spec fn tag_at(t: Seq<char>, i: int) -> Option<(int, int, int, int, int, int)> {
    if has_at(t, i, "<meta"@) && space_end(t, i + 5) > i + 5 {
        let k = space_end(t, i + 5);
        let ke = if has_at(t, k, "name"@) {
            k + 4
        } else if has_at(t, k, "property"@) {
            k + 8
        } else {
            -1
        };
        if ke >= 0 && has_at(t, ke, "=\""@) {
            match name_from(t, ke + 2, line_end(t, ke + 2)) {
                Some((q, (s, c, e))) => Some((k, ke, q, s, c, e)),
                None => None,
            }
        } else {
            None
        }
    } else {
        None
    }
}

/// The content a tag gets: the placeholder of its preview field, or its
/// own content for other names.
pub open spec fn meta_value(name: Seq<char>, content: Seq<char>) -> Seq<char> {
    if name == "twitter:title"@ || name == "og:title"@ {
        "{{title}}"@
    } else if name == "twitter:description"@ || name == "og:description"@ {
        "{{description}}"@
    } else if name == "twitter:image"@ || name == "og:image"@ {
        "{{image}}"@
    } else if name == "og:url"@ {
        "{{url}}"@
    } else if name == "og:type"@ {
        "{{type}}"@
    } else if name == "twitter:card"@ {
        "{{card}}"@
    } else if name == "twitter:site"@ {
        "{{site}}"@
    } else {
        content
    }
}

/// What a tag is written as: `<meta KIND="NAME" content="VALUE">`.
pub open spec fn tag_text(kind: Seq<char>, name: Seq<char>, value: Seq<char>) -> Seq<char> {
    "<meta "@ + kind + "=\""@ + name + "\" content=\""@ + value + "\">"@
}

/// The text from `i` on, with each tag rewritten.
pub open spec fn rewrite_from(t: Seq<char>, i: int) -> Seq<char>
    decreases t.len() - i,
{
    if i < 0 || i >= t.len() {
        Seq::empty()
    } else {
        match tag_at(t, i) {
            Some((k, ke, q, s, c, e)) => if i < e <= t.len() {
                tag_text(
                    t.subrange(k, ke),
                    t.subrange(ke + 2, q),
                    meta_value(t.subrange(ke + 2, q), t.subrange(s, c)),
                ) + rewrite_from(t, e)
            } else {
                Seq::empty()
            },
            None => seq![t[i]] + rewrite_from(t, i + 1),
        }
    }
}

proof fn lemma_space_end(t: Seq<char>, i: int)
    requires
        0 <= i <= t.len(),
    ensures
        i <= space_end(t, i) <= t.len(),
    decreases t.len() - i,
{
    if i < t.len() && is_space(t[i]) {
        lemma_space_end(t, i + 1);
    }
}

proof fn lemma_line_end(t: Seq<char>, i: int)
    requires
        0 <= i <= t.len(),
    ensures
        i <= line_end(t, i) <= t.len(),
    decreases t.len() - i,
{
    if i < t.len() && t[i] != '\n' {
        lemma_line_end(t, i + 1);
    }
}

proof fn lemma_content_close(t: Seq<char>, s: int, c: int)
    requires
        0 <= s,
    ensures
        content_close(t, s, c) matches Some((cc, e)) ==> s <= cc <= c && close_at(t, cc) == Some(e),
    decreases c - s + 1,
{
    if c >= s && close_at(t, c) is None {
        lemma_content_close(t, s, c - 1);
    }
}

proof fn lemma_name_from(t: Seq<char>, q: int, le: int)
    ensures
        name_from(t, q, le) matches Some((qq, x)) ==> q <= qq < le && after_name(t, qq) == Some(x),
    decreases le - q,
{
    if q < le && after_name(t, q) is None {
        lemma_name_from(t, q + 1, le);
    }
}

fn space_end_of(t: &Vec<char>, i: usize) -> (r: usize)
    requires
        i <= t.len(),
    ensures
        r as int == space_end(t@, i as int),
        i <= r <= t.len(),
{
    let mut j = i;
    while j < t.len() && is_whitespace(t[j])
        invariant
            i <= j <= t.len(),
            space_end(t@, i as int) == space_end(t@, j as int),
        decreases t.len() - j,
    {
        j = j + 1;
    }
    j
}

fn line_end_of(t: &Vec<char>, i: usize) -> (r: usize)
    requires
        i <= t.len(),
    ensures
        r as int == line_end(t@, i as int),
        i <= r <= t.len(),
{
    let mut j = i;
    while j < t.len() && t[j] != '\n'
        invariant
            i <= j <= t.len(),
            line_end(t@, i as int) == line_end(t@, j as int),
        decreases t.len() - j,
    {
        j = j + 1;
    }
    j
}

fn has_at_of(t: &Vec<char>, i: usize, w: &str) -> (r: bool)
    ensures
        r == has_at(t@, i as int, w@),
{
    let wv = str_chars(w);
    if i > t.len() || wv.len() > t.len() - i {
        return false;
    }
    let mut k: usize = 0;
    while k < wv.len()
        invariant
            wv@ == w@,
            i + wv@.len() <= t@.len(),
            i <= t.len(),
            k <= wv@.len(),
            forall|j: int| 0 <= j < k ==> t@[i + j] == wv@[j],
        decreases wv@.len() - k,
    {
        if t[i + k] != wv[k] {
            assert(t@.subrange(i as int, i + wv@.len())[k as int] != wv@[k as int]);
            return false;
        }
        k = k + 1;
    }
    assert(t@.subrange(i as int, i + wv@.len()) =~= wv@);
    true
}

fn close_at_of(t: &Vec<char>, c: usize) -> (r: Option<usize>)
    requires
        c < t.len(),
    ensures
        r matches Some(e) ==> close_at(t@, c as int) == Some(e as int),
        r is None ==> close_at(t@, c as int) is None,
{
    if t[c] != '"' {
        return None;
    }
    let e = space_end_of(t, c + 1);
    let f = if e < t.len() && t[e] == '/' {
        e + 1
    } else {
        e
    };
    if f < t.len() && t[f] == '>' {
        Some(f + 1)
    } else {
        None
    }
}

fn after_name_of(t: &Vec<char>, q: usize) -> (r: Option<(usize, usize, usize)>)
    requires
        q < t.len(),
    ensures
        r matches Some((s, c, e)) ==> after_name(t@, q as int) == Some((s as int, c as int, e as int))
            && s <= c < e <= t.len(),
        r is None ==> after_name(t@, q as int) is None,
{
    if t[q] != '"' {
        return None;
    }
    let w = space_end_of(t, q + 1);
    if !(w > q + 1 && has_at_of(t, w, "content=\"")) {
        return None;
    }
    proof {
        reveal_strlit("content=\"");
    }
    let s = w + 9;
    let le = line_end_of(t, s);
    let mut j = le;
    while j > s
        invariant
            s <= j <= le <= t.len(),
            content_close(t@, s as int, le - 1) == content_close(t@, s as int, j - 1),
            q < t.len(),
            t@[q as int] == '"',
            space_end(t@, q + 1) == w,
            w > q + 1,
            has_at(t@, w as int, "content=\""@),
            s == w + 9,
            line_end(t@, s as int) == le,
        decreases j - s,
    {
        j = j - 1;
        match close_at_of(t, j) {
            Some(e) => {
                proof {
                    lemma_space_end(t@, j + 1);
                    assert(content_close(t@, s as int, j as int) == Some((j as int, e as int)));
                    assert(after_name(t@, q as int) == Some((s as int, j as int, e as int)));
                }
                return Some((s, j, e));
            },
            None => {},
        }
    }
    None
}

fn tag_at_of(t: &Vec<char>, i: usize) -> (r: Option<(usize, usize, usize, usize, usize, usize)>)
    requires
        i < t.len(),
    ensures
        r matches Some((k, ke, q, s, c, e)) ==> tag_at(t@, i as int) == Some(
            (k as int, ke as int, q as int, s as int, c as int, e as int),
        ) && i < k < ke && ke + 2 <= q <= s <= c < e <= t.len(),
        r is None ==> tag_at(t@, i as int) is None,
{
    if !has_at_of(t, i, "<meta") {
        return None;
    }
    proof {
        reveal_strlit("<meta");
    }
    let k = space_end_of(t, i + 5);
    if k == i + 5 {
        return None;
    }
    let ke: usize;
    if has_at_of(t, k, "name") {
        proof {
            reveal_strlit("name");
        }
        ke = k + 4;
    } else if has_at_of(t, k, "property") {
        proof {
            reveal_strlit("property");
        }
        ke = k + 8;
    } else {
        return None;
    }
    if !has_at_of(t, ke, "=\"") {
        return None;
    }
    proof {
        reveal_strlit("=\"");
    }
    let ns = ke + 2;
    let le = line_end_of(t, ns);
    let mut q = ns;
    while q < le
        invariant
            ns <= q <= le <= t.len(),
            name_from(t@, ns as int, le as int) == name_from(t@, q as int, le as int),
            ns == ke + 2,
            line_end(t@, ns as int) == le,
            has_at(t@, i as int, "<meta"@),
            k == space_end(t@, i + 5),
            k > i + 5,
            ke == (if has_at(t@, k as int, "name"@) {
                k + 4
            } else {
                k + 8
            }),
            !has_at(t@, k as int, "name"@) ==> has_at(t@, k as int, "property"@),
            has_at(t@, ke as int, "=\""@),
        decreases le - q,
    {
        match after_name_of(t, q) {
            Some((s, c, e)) => {
                assert(name_from(t@, q as int, le as int) == Some(
                    (q as int, (s as int, c as int, e as int)),
                ));
                return Some((k, ke, q, s, c, e));
            },
            None => {},
        }
        q = q + 1;
    }
    None
}

/// Appends the content a tag with the given name and content gets.
fn push_meta_value(out: &mut String, name: &[char], content: &[char])
    ensures
        final(out)@ == old(out)@ + meta_value(name@, content@),
{
    let n = crate::text::chars_to_string(name);
    let v = meta_placeholder(n.as_str());
    match v {
        Some(p) => push_str(out, p),
        None => push_chars(out, content),
    }
}

/// The placeholder of a preview field's tag name.
fn meta_placeholder(name: &str) -> (r: Option<&'static str>)
    ensures
        r matches Some(p) ==> meta_value(name@, Seq::empty()) == p@ && p@.len() > 0,
        r is None ==> forall|c: Seq<char>| meta_value(name@, c) == c,
{
    let v = str_chars(name);
    let s = v.as_slice();
    use_placeholder_texts();
    if crate::text::chars_eq_str(s, "twitter:title") || crate::text::chars_eq_str(s, "og:title") {
        Some("{{title}}")
    } else if crate::text::chars_eq_str(s, "twitter:description") || crate::text::chars_eq_str(
        s,
        "og:description",
    ) {
        Some("{{description}}")
    } else if crate::text::chars_eq_str(s, "twitter:image") || crate::text::chars_eq_str(
        s,
        "og:image",
    ) {
        Some("{{image}}")
    } else if crate::text::chars_eq_str(s, "og:url") {
        Some("{{url}}")
    } else if crate::text::chars_eq_str(s, "og:type") {
        Some("{{type}}")
    } else if crate::text::chars_eq_str(s, "twitter:card") {
        Some("{{card}}")
    } else if crate::text::chars_eq_str(s, "twitter:site") {
        Some("{{site}}")
    } else {
        None
    }
}

fn use_placeholder_texts()
    ensures
        "{{title}}"@.len() > 0,
        "{{description}}"@.len() > 0,
        "{{image}}"@.len() > 0,
        "{{url}}"@.len() > 0,
        "{{type}}"@.len() > 0,
        "{{card}}"@.len() > 0,
        "{{site}}"@.len() > 0,
{
    proof {
        reveal_strlit("{{title}}");
        reveal_strlit("{{description}}");
        reveal_strlit("{{image}}");
        reveal_strlit("{{url}}");
        reveal_strlit("{{type}}");
        reveal_strlit("{{card}}");
        reveal_strlit("{{site}}");
    }
}

/// The page template made from the app's index page: each meta tag
/// rewritten, with the placeholder of its field for a preview field.
pub fn make_meta_template(text: &str) -> (r: String)
    ensures
        r@ == rewrite_from(text@, 0),
{
    let t = str_chars(text);
    let ghost tv = t@;
    let mut out = String::new();
    let mut i: usize = 0;
    while i < t.len()
        invariant
            tv == t@,
            tv == text@,
            i <= t.len(),
            out@ + rewrite_from(tv, i as int) == rewrite_from(tv, 0),
        decreases t.len() - i,
    {
        let ghost before = out@;
        match tag_at_of(&t, i) {
            Some((k, ke, q, s, c, e)) => {
                push_str(&mut out, "<meta ");
                push_chars(&mut out, vstd::slice::slice_subrange(t.as_slice(), k, ke));
                push_str(&mut out, "=\"");
                push_chars(&mut out, vstd::slice::slice_subrange(t.as_slice(), ke + 2, q));
                push_str(&mut out, "\" content=\"");
                push_meta_value(&mut out, vstd::slice::slice_subrange(t.as_slice(), ke + 2, q), vstd::slice::slice_subrange(t.as_slice(), s, c));
                push_str(&mut out, "\">");
                proof {
                    assert(out@ =~= before + tag_text(
                        tv.subrange(k as int, ke as int),
                        tv.subrange(ke + 2, q as int),
                        meta_value(tv.subrange(ke + 2, q as int), tv.subrange(s as int, c as int)),
                    ));
                    assert(out@ + rewrite_from(tv, e as int) =~= before + rewrite_from(
                        tv,
                        i as int,
                    ));
                }
                i = e;
            },
            None => {
                string_push(&mut out, t[i]);
                assert(out@ + rewrite_from(tv, i + 1) =~= before + rewrite_from(tv, i as int));
                i = i + 1;
            },
        }
    }
    assert(out@ =~= rewrite_from(tv, 0));
    out
}

} // verus!
