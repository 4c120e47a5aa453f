//! A minimal template language: `{{name}}`, where the name is made of
//! lower case ASCII letters and underscores, is replaced by the value of
//! that field; everything else is kept.

use vstd::prelude::*;
use crate::text::{push_str, str_chars, string_push};

verus! {

broadcast use vstd::string::group_string_axioms;

/// The fields a template can be filled in from.
pub trait Lookup {
    /// The text of field `key`. A type that keeps this default states that
    /// every field is empty, and its `field` is held to that; a type with
    /// fields gives its own.
    closed spec fn value_of(&self, key: Seq<char>) -> Seq<char> {
        Seq::empty()
    }

    /// The text of field `key`.
    fn field(&self, key: &str) -> (r: String)
        ensures
            r@ == self.value_of(key@),
    ;
}

/// Whether `c` may stand in a field name.
pub open spec fn name_char(c: char) -> bool {
    ('a' <= c && c <= 'z') || c == '_'
}

/// The end of the run of name characters that starts at `i`.
pub open spec fn name_end(t: Seq<char>, i: int) -> int
    decreases t.len() - i,
{
    if 0 <= i < t.len() && name_char(t[i]) {
        name_end(t, i + 1)
    } else {
        i
    }
}

/// The field name of a `{{name}}` that starts at `i`, and where it ends.
pub open spec fn placeholder_at(t: Seq<char>, i: int) -> Option<(Seq<char>, int)> {
    if 0 <= i && i + 2 <= t.len() && t[i] == '{' && t[i + 1] == '{' {
        let e = name_end(t, i + 2);
        if e > i + 2 && t.len() - e >= 2 && t[e] == '}' && t[e + 1] == '}' {
            Some((t.subrange(i + 2, e), e + 2))
        } else {
            None
        }
    } else {
        None
    }
}

/// The text from position `i` on, with each placeholder replaced by the
/// value of its field.
pub open spec fn render_from(t: Seq<char>, i: int, value: spec_fn(Seq<char>) -> Seq<char>) -> Seq<
    char,
>
    decreases t.len() - i,
{
    if i < 0 || i >= t.len() {
        Seq::empty()
    } else {
        match placeholder_at(t, i) {
            Some((name, end)) => if end > i {
                value(name) + render_from(t, end, value)
            } else {
                Seq::empty()
            },
            None => seq![t[i]] + render_from(t, i + 1, value),
        }
    }
}

/// Where no placeholder starts from position `i` on, the text from `i` on
/// renders to itself, whatever the fields hold.
pub proof fn lemma_render_plain(t: Seq<char>, i: int, value: spec_fn(Seq<char>) -> Seq<char>)
    requires
        0 <= i <= t.len(),
        forall|j: int| i <= j < t.len() ==> #[trigger] placeholder_at(t, j) is None,
    ensures
        render_from(t, i, value) == t.subrange(i, t.len() as int),
    decreases t.len() - i,
{
    if i < t.len() {
        lemma_render_plain(t, i + 1, value);
        assert(placeholder_at(t, i) is None);
        assert(seq![t[i]] + t.subrange(i + 1, t.len() as int) =~= t.subrange(i, t.len() as int));
    } else {
        assert(t.subrange(i, t.len() as int) =~= Seq::<char>::empty());
    }
}

proof fn lemma_name_end(t: Seq<char>, i: int)
    requires
        0 <= i <= t.len(),
    ensures
        i <= name_end(t, i) <= t.len(),
        forall|j: int| i <= j < name_end(t, i) ==> name_char(#[trigger] t[j]),
        name_end(t, i) < t.len() ==> !name_char(t[name_end(t, i)]),
    decreases t.len() - i,
{
    if i < t.len() && name_char(t[i]) {
        lemma_name_end(t, i + 1);
    }
}

/// A template: a text with placeholders.
pub struct Template {
    pub text: String,
}

impl Template {
    /// An empty template.
    pub fn new() -> (r: Self)
        ensures
            r.text@ == Seq::<char>::empty(),
    {
        Template { text: String::new() }
    }

    /// Replaces the text of the template.
    pub fn set_text(&mut self, text: String)
        ensures
            final(self).text@ == text@,
    {
        self.text = text;
    }

    /// The text with each placeholder replaced by the value of its field.
    pub fn render<T: Lookup>(&self, data: &T) -> (r: String)
        ensures
            r@ == render_from(self.text@, 0, |k: Seq<char>| data.value_of(k)),
    {
        let t = str_chars(self.text.as_str());
        let ghost tv = t@;
        let ghost value = |k: Seq<char>| data.value_of(k);
        let mut out = String::new();
        let mut i: usize = 0;
        while i < t.len()
            invariant
                tv == t@,
                tv == self.text@,
                value == (|k: Seq<char>| data.value_of(k)),
                i <= t.len(),
                out@ + render_from(tv, i as int, value) == render_from(tv, 0, value),
            decreases t.len() - i,
        {
            let mut matched = false;
            if t.len() - i >= 2 && t[i] == '{' && t[i + 1] == '{' {
                let mut e = i + 2;
                while e < t.len() && (('a' <= t[e] && t[e] <= 'z') || t[e] == '_')
                    invariant
                        i + 2 <= e <= t.len(),
                        tv == t@,
                        name_end(tv, i + 2) == name_end(tv, e as int),
                    decreases t.len() - e,
                {
                    e = e + 1;
                }
                proof {
                    lemma_name_end(tv, e as int);
                }
                if e > i + 2 && t.len() - e >= 2 && t[e] == '}' && t[e + 1] == '}' {
                    let mut name = String::new();
                    let mut k = i + 2;
                    while k < e
                        invariant
                            i + 2 <= k <= e,
                            e + 2 <= t.len(),
                            tv == t@,
                            name@ == tv.subrange(i + 2, k as int),
                        decreases e - k,
                    {
                        string_push(&mut name, t[k]);
                        assert(tv.subrange(i + 2, k + 1) == tv.subrange(i + 2, k as int).push(tv[k as int]));
                        k = k + 1;
                    }
                    let v = data.field(name.as_str());
                    let ghost before = out@;
                    push_str(&mut out, v.as_str());
                    proof {
                        assert(placeholder_at(tv, i as int) == Some((name@, e + 2)));
                        assert(render_from(tv, i as int, value) == value(name@) + render_from(
                            tv,
                            e + 2,
                            value,
                        ));
                        assert(out@ + render_from(tv, e + 2, value) =~= before + render_from(
                            tv,
                            i as int,
                            value,
                        ));
                    }
                    i = e + 2;
                    matched = true;
                }
            }
            if !matched {
                let ghost before = out@;
                string_push(&mut out, t[i]);
                proof {
                    assert(placeholder_at(tv, i as int) is None);
                    assert(out@ + render_from(tv, i + 1, value) =~= before + render_from(
                        tv,
                        i as int,
                        value,
                    ));
                }
                i = i + 1;
            }
        }
        assert(out@ =~= render_from(tv, 0, value));
        out
    }
}

} // verus!
