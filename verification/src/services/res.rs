//! Where the resource files of game images are served: an image path of
//! the game database, made a path below `/textures/ui` of the converted
//! PNG file, and its address below the resource prefix.

use vstd::prelude::*;
use crate::api::graphql::{joined, own};
use crate::text::{push_chars, push_str, split, spec_split, str_chars, string_push};

verus! {

broadcast use vstd::string::group_string_axioms;

/// A character of a database path as the file system has it: `/` for a
/// backslash, ASCII letters in lower case.
pub open spec fn url_char(c: char) -> char {
    if c == '\\' {
        '/'
    } else if 'A' <= c <= 'Z' {
        ((c as u32) + 32) as char
    } else {
        c
    }
}

/// A database path as the file system has it.
pub open spec fn url_text(s: Seq<char>) -> Seq<char> {
    s.map_values(|c: char| url_char(c))
}

/// The directories after walking the segments: an empty segment or `.`
/// stays, `..` goes up (not above the root), any other goes down.
pub open spec fn walk(dirs: Seq<Seq<char>>, segs: Seq<Seq<char>>) -> Seq<Seq<char>>
    decreases segs.len(),
{
    if segs.len() == 0 {
        dirs
    } else {
        let s = segs[0];
        let d = if s.len() == 0 || s == seq!['.'] {
            dirs
        } else if s == seq!['.', '.'] {
            if dirs.len() > 0 {
                dirs.drop_last()
            } else {
                dirs
            }
        } else {
            dirs.push(s)
        };
        walk(d, segs.drop_first())
    }
}

/// The last `.` of a name at or before `i`, if it is not its first
/// character.
pub open spec fn last_dot(name: Seq<char>, i: int) -> int
    decreases i,
{
    if i <= 0 {
        0
    } else if name[i] == '.' {
        i
    } else {
        last_dot(name, i - 1)
    }
}

/// A file name with its extension made `png`.
pub open spec fn with_png(name: Seq<char>) -> Seq<char> {
    let d = last_dot(name, name.len() - 1);
    let stem = if d > 0 {
        name.take(d)
    } else {
        name
    };
    stem + seq!['.', 'p', 'n', 'g']
}

/// The path of the directories, the last one's extension made `png`.
pub open spec fn png_path(dirs: Seq<Seq<char>>) -> Seq<char> {
    if dirs.len() == 0 {
        seq!['/']
    } else {
        seq!['/'] + joined(dirs.drop_last().push(with_png(dirs.last())), seq!['/'])
    }
}

/// The path of the PNG file of a database image path, below
/// `/textures/ui`; `None` for an absolute path.
pub open spec fn cleaned(url: Seq<char>) -> Option<Seq<char>> {
    let t = url_text(url);
    if t.len() > 0 && t[0] == '/' {
        None
    } else {
        Some(png_path(walk(seq![seq!['t', 'e', 'x', 't', 'u', 'r', 'e', 's'], seq!['u', 'i']], spec_split(t, '/'))))
    }
}

fn url_char_of(c: char) -> (r: char)
    ensures
        r == url_char(c),
{
    if c == '\\' {
        '/'
    } else if 'A' <= c && c <= 'Z' {
        let b: u8 = c as u8;
        (b + 32) as char
    } else {
        c
    }
}

/// The path of the PNG file of a database image path, below
/// `/textures/ui`: backslashes made slashes, letters made lower case, `.`
/// and `..` resolved, and the extension made `png`; `None` for an absolute
/// path.
pub fn cleanup_path(url: &str) -> (r: Option<String>)
    ensures
        match r {
            Some(p) => cleaned(url@) == Some(p@),
            None => cleaned(url@) is None,
        },
{
    let chars = str_chars(url);
    let mut t: Vec<char> = Vec::new();
    for i in 0..chars.len()
        invariant
            chars@ == url@,
            t@ == url_text(chars@.take(i as int)),
    {
        t.push(url_char_of(chars[i]));
        assert(url_text(chars@.take(i + 1)) =~= url_text(chars@.take(i as int)).push(url_char(chars@[i as int])));
    }
    assert(chars@.take(chars@.len() as int) =~= chars@);
    if t.len() > 0 && t[0] == '/' {
        return None;
    }
    let segs = split(t.as_slice(), '/');
    let ghost sv = segs.deep_view();
    let mut dirs: Vec<Vec<char>> = Vec::new();
    dirs.push(str_chars("textures"));
    dirs.push(str_chars("ui"));
    proof {
        reveal_strlit("textures");
        reveal_strlit("ui");
        assert(dirs@[0].deep_view() =~= dirs@[0]@);
        assert(dirs@[1].deep_view() =~= dirs@[1]@);
        assert("textures"@ =~= seq!['t', 'e', 'x', 't', 'u', 'r', 'e', 's']);
        assert("ui"@ =~= seq!['u', 'i']);
        assert(dirs.deep_view() =~= seq![seq!['t', 'e', 'x', 't', 'u', 'r', 'e', 's'], seq!['u', 'i']]);
        assert(sv.skip(0) =~= sv);
    }
    let ghost start = dirs.deep_view();
    for k in 0..segs.len()
        invariant
            sv == segs.deep_view(),
            sv == spec_split(t@, '/'),
            walk(start, sv) == walk(dirs.deep_view(), sv.skip(k as int)),
    {
        let s = &segs[k];
        let ghost before = dirs.deep_view();
        assert(s@ == sv[k as int]);
        assert(sv.skip(k as int)[0] == sv[k as int]);
        assert(sv.skip(k as int).drop_first() =~= sv.skip(k + 1));
        if s.len() == 0 || (s.len() == 1 && s[0] == '.') {
            assert(s@.len() == 1 ==> s@ =~= seq!['.']);
        } else if s.len() == 2 && s[0] == '.' && s[1] == '.' {
            assert(s@ =~= seq!['.', '.']);
            if dirs.len() > 0 {
                dirs.pop();
                assert(dirs.deep_view() =~= before.drop_last());
            }
        } else {
            assert(s@ != seq!['.']);
            assert(s@ != seq!['.', '.']);
            dirs.push(s.clone());
            assert(dirs.deep_view() =~= before.push(s@));
        }
    }
    assert(sv.skip(sv.len() as int) =~= Seq::<Seq<char>>::empty());
    let ghost dv = dirs.deep_view();
    assert(walk(start, sv) == dv);
    let mut out = String::new();
    string_push(&mut out, '/');
    let n = dirs.len();
    if n == 0 {
        return Some(out);
    }
    let mut parts: Vec<String> = Vec::new();
    for i in 0..n - 1
        invariant
            n == dirs@.len(),
            n > 0,
            dv == dirs.deep_view(),
            parts@.len() == i,
            forall|j: int| 0 <= j < i ==> #[trigger] parts@[j]@ == dv[j],
    {
        parts.push(crate::text::chars_to_string(dirs[i].as_slice()));
    }
    let last = &dirs[n - 1];
    let mut d: usize = if last.len() > 0 { last.len() - 1 } else { 0 };
    while d > 0 && last[d] != '.'
        invariant
            last@ == dv[n - 1],
            d < last@.len() || (d == 0 && last@.len() == 0),
            last_dot(last@, last@.len() - 1) == last_dot(last@, d as int),
        decreases d,
    {
        d = d - 1;
    }
    let mut name = String::new();
    if d > 0 {
        push_chars(&mut name, vstd::slice::slice_subrange(last.as_slice(), 0, d));
        assert(last@.subrange(0, d as int) =~= last@.take(d as int));
    } else {
        push_chars(&mut name, last.as_slice());
    }
    push_str(&mut name, ".png");
    proof {
        reveal_strlit(".png");
        assert(last_dot(last@, d as int) == d as int || d == 0);
    }
    assert(name@ =~= with_png(dv.last()));
    parts.push(name);
    let body = crate::api::graphql::join_strings(&parts, "/");
    let ghost o0 = out@;
    push_str(&mut out, body.as_str());
    proof {
        reveal_strlit("/");
        assert("/"@ =~= seq!['/']);
        assert(crate::api::graphql::texts(parts@) =~= dv.drop_last().push(with_png(dv.last())));
        assert(body@ == joined(dv.drop_last().push(with_png(dv.last())), seq!['/']));
        assert(o0 =~= seq!['/']);
        assert(dv.len() > 0);
    }
    assert(out@ =~= png_path(dv));
    Some(out)
}

/// The address of a resource file below the resource prefix.
pub fn res_href(prefix: &str, path: &str) -> (r: String)
    ensures
        r@ == prefix@ + path@,
{
    let mut r = own(prefix);
    push_str(&mut r, path);
    r
}

} // verus!
