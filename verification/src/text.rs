//! Character-level helpers shared by the parsers of this crate: splitting,
//! trimming, comparing and the decimal integer syntax of `str::parse`.

use vstd::prelude::*;

verus! {

broadcast use vstd::string::group_string_axioms;

/// Appends one character to a string.
///
/// Trusted: std's `String::push` appends exactly the given character.
#[verifier::external_body]
pub(crate) fn string_push(s: &mut String, c: char)
    ensures
        final(s)@ == old(s)@.push(c),
{
    s.push(c);
}

/// The characters of a string slice, in order.
pub fn str_chars(s: &str) -> (r: Vec<char>)
    ensures
        r@ == s@,
{
    let mut r: Vec<char> = Vec::new();
    for c in iter: s.chars()
        invariant
            r@ == iter.seq().take(iter.index() as int),
    {
        r.push(c);
    }
    r
}

/// A string holding exactly the given characters.
pub fn chars_to_string(v: &[char]) -> (r: String)
    ensures
        r@ == v@,
{
    let mut r = String::new();
    for i in 0..v.len()
        invariant
            r@ == v@.take(i as int),
    {
        string_push(&mut r, v[i]);
        assert(v@.take(i + 1) == v@.take(i as int).push(v@[i as int]));
    }
    assert(v@.take(v@.len() as int) == v@);
    r
}

/// Appends the characters of `v` to `s`.
pub fn push_chars(s: &mut String, v: &[char])
    ensures
        final(s)@ == old(s)@ + v@,
{
    let ghost s0 = s@;
    for i in 0..v.len()
        invariant
            s@ == s0 + v@.take(i as int),
    {
        string_push(s, v[i]);
        assert(v@.take(i + 1) == v@.take(i as int).push(v@[i as int]));
    }
    assert(v@.take(v@.len() as int) == v@);
}

/// Appends a string slice to `s`.
pub fn push_str(s: &mut String, t: &str)
    ensures
        final(s)@ == old(s)@ + t@,
{
    let v = str_chars(t);
    push_chars(s, v.as_slice());
}

/// Whether the characters of `a` are exactly those of `b`.
pub fn chars_eq_str(a: &[char], b: &str) -> (r: bool)
    ensures
        r == (a@ == b@),
{
    let bv = str_chars(b);
    chars_eq(a, bv.as_slice())
}

/// Whether two character sequences are equal.
pub fn chars_eq(a: &[char], b: &[char]) -> (r: bool)
    ensures
        r == (a@ == b@),
{
    if a.len() != b.len() {
        return false;
    }
    for i in 0..a.len()
        invariant
            a@.len() == b@.len(),
            forall|j: int| 0 <= j < i ==> a@[j] == b@[j],
    {
        if a[i] != b[i] {
            return false;
        }
    }
    assert(a@ =~= b@);
    true
}

/// Whether `p` is a prefix of `s`.
pub open spec fn is_prefix(p: Seq<char>, s: Seq<char>) -> bool {
    p.len() <= s.len() && s.take(p.len() as int) == p
}

/// Whether `p` is a prefix of `s`, and if so, what follows it (`str::strip_prefix`).
pub fn strip_prefix(s: &[char], p: &str) -> (r: Option<Vec<char>>)
    ensures
        r matches Some(rest) ==> is_prefix(p@, s@) && rest@ == s@.skip(p@.len() as int),
        r is None ==> !is_prefix(p@, s@),
{
    let pv = str_chars(p);
    if pv.len() > s.len() {
        return None;
    }
    for i in 0..pv.len()
        invariant
            pv@ == p@,
            pv@.len() <= s@.len(),
            forall|j: int| 0 <= j < i ==> s@[j] == pv@[j],
    {
        if s[i] != pv[i] {
            assert(s@.take(pv@.len() as int)[i as int] != pv@[i as int]);
            return None;
        }
    }
    assert(s@.take(pv@.len() as int) =~= pv@);
    let mut rest: Vec<char> = Vec::new();
    let mut k = pv.len();
    while k < s.len()
        invariant
            pv@.len() <= k <= s@.len(),
            rest@ == s@.subrange(pv@.len() as int, k as int),
        decreases s@.len() - k,
    {
        rest.push(s[k]);
        assert(s@.subrange(pv@.len() as int, k + 1) == s@.subrange(pv@.len() as int, k as int).push(s@[k as int]));
        k = k + 1;
    }
    Some(rest)
}

/// `s` with every leading `c` removed (`str::trim_start_matches` with a char).
pub open spec fn spec_trim_start(s: Seq<char>, c: char) -> Seq<char>
    decreases s.len(),
{
    if s.len() > 0 && s[0] == c {
        spec_trim_start(s.drop_first(), c)
    } else {
        s
    }
}

proof fn lemma_trim_start_skip(s: Seq<char>, c: char, i: int)
    requires
        0 <= i <= s.len(),
        forall|j: int| 0 <= j < i ==> s[j] == c,
    ensures
        spec_trim_start(s, c) == spec_trim_start(s.skip(i), c),
    decreases i,
{
    if i > 0 {
        assert(s.drop_first().skip(i - 1) == s.skip(i));
        lemma_trim_start_skip(s.drop_first(), c, i - 1);
    } else {
        assert(s.skip(0) == s);
    }
}

/// Removes every leading `c`.
pub fn trim_start(s: &[char], c: char) -> (r: Vec<char>)
    ensures
        r@ == spec_trim_start(s@, c),
{
    let mut i: usize = 0;
    while i < s.len() && s[i] == c
        invariant
            i <= s@.len(),
            forall|j: int| 0 <= j < i ==> s@[j] == c,
        decreases s@.len() - i,
    {
        i = i + 1;
    }
    proof {
        lemma_trim_start_skip(s@, c, i as int);
    }
    let mut r: Vec<char> = Vec::new();
    let mut k = i;
    while k < s.len()
        invariant
            i <= k <= s@.len(),
            r@ == s@.subrange(i as int, k as int),
        decreases s@.len() - k,
    {
        r.push(s[k]);
        assert(s@.subrange(i as int, k + 1) == s@.subrange(i as int, k as int).push(s@[k as int]));
        k = k + 1;
    }
    assert(r@ == s@.skip(i as int));
    r
}

/// The pieces of `s` between occurrences of `sep`, as `str::split` with a
/// char pattern yields them: one more piece than there are separators,
/// empty pieces included.
pub open spec fn spec_split(s: Seq<char>, sep: char) -> Seq<Seq<char>>
    decreases s.len(),
{
    if s.len() == 0 {
        seq![Seq::<char>::empty()]
    } else {
        let p = spec_split(s.drop_last(), sep);
        if s.last() == sep {
            p.push(Seq::<char>::empty())
        } else {
            p.update(p.len() - 1, p.last().push(s.last()))
        }
    }
}

/// A text without the separator is a single piece.
pub proof fn lemma_split_single(a: Seq<char>, sep: char)
    requires
        forall|i: int| 0 <= i < a.len() ==> a[i] != sep,
    ensures
        spec_split(a, sep) == seq![a],
    decreases a.len(),
{
    if a.len() > 0 {
        lemma_split_single(a.drop_last(), sep);
        assert(a.last() != sep);
        assert(a.drop_last().push(a.last()) =~= a);
        let p = seq![a.drop_last()];
        assert(p.last() == a.drop_last());
        assert(p.update(p.len() - 1, p.last().push(a.last())) =~= seq![a]);
    } else {
        assert(a =~= Seq::<char>::empty());
    }
}

/// Splitting at the first separator: the piece before it, then the pieces
/// of what follows it.
pub proof fn lemma_split_first(a: Seq<char>, s: Seq<char>, sep: char)
    requires
        forall|i: int| 0 <= i < a.len() ==> a[i] != sep,
    ensures
        spec_split(a + seq![sep] + s, sep) == seq![a] + spec_split(s, sep),
    decreases s.len(),
{
    let x = a + seq![sep] + s;
    if s.len() == 0 {
        lemma_split_single(a, sep);
        assert(x.drop_last() =~= a);
        assert(seq![a].push(Seq::<char>::empty()) =~= seq![a] + seq![Seq::<char>::empty()]);
    } else {
        lemma_split_first(a, s.drop_last(), sep);
        lemma_split_nonempty(s.drop_last(), sep);
        assert(x.drop_last() =~= a + seq![sep] + s.drop_last());
        let q = spec_split(s.drop_last(), sep);
        let p = seq![a] + q;
        if s.last() == sep {
            assert(p.push(Seq::<char>::empty()) =~= seq![a] + q.push(Seq::<char>::empty()));
        } else {
            assert(p.update(p.len() - 1, p.last().push(s.last())) =~= seq![a] + q.update(
                q.len() - 1,
                q.last().push(s.last()),
            ));
        }
    }
}

/// `spec_split` never yields an empty list of pieces.
pub proof fn lemma_split_nonempty(s: Seq<char>, sep: char)
    ensures
        spec_split(s, sep).len() >= 1,
    decreases s.len(),
{
    if s.len() > 0 {
        lemma_split_nonempty(s.drop_last(), sep);
    }
}

/// Splits `s` at every `sep`.
pub fn split(s: &[char], sep: char) -> (r: Vec<Vec<char>>)
    ensures
        r.deep_view() == spec_split(s@, sep),
{
    let mut parts: Vec<Vec<char>> = Vec::new();
    let mut cur: Vec<char> = Vec::new();
    for i in 0..s.len()
        invariant
            parts.deep_view().push(cur@) == spec_split(s@.take(i as int), sep),
    {
        let ghost t = s@.take(i + 1);
        let ghost pd = parts.deep_view();
        assert(t.drop_last() == s@.take(i as int));
        proof {
            lemma_split_nonempty(s@.take(i as int), sep);
        }
        if s[i] == sep {
            let mut old_cur: Vec<char> = Vec::new();
            std::mem::swap(&mut old_cur, &mut cur);
            parts.push(old_cur);
            assert(old_cur.deep_view() =~= old_cur@);
            assert(parts.deep_view() =~= pd.push(old_cur@));
            assert(parts.deep_view().push(cur@) =~= spec_split(t, sep));
        } else {
            cur.push(s[i]);
            assert(parts.deep_view().push(cur@) =~= spec_split(t, sep));
        }
    }
    assert(s@.take(s@.len() as int) == s@);
    let ghost pd = parts.deep_view();
    let ghost c = cur@;
    parts.push(cur);
    assert(cur.deep_view() =~= c);
    assert(parts.deep_view() =~= pd.push(c));
    parts
}

/// Whether `c` is an ASCII decimal digit.
pub open spec fn is_digit(c: char) -> bool {
    '0' <= c <= '9'
}

/// The value of the digit `c`.
pub open spec fn digit_value(c: char) -> int {
    c as int - '0' as int
}

/// Whether every character of `s` is an ASCII digit.
pub open spec fn all_digits(s: Seq<char>) -> bool {
    forall|i: int| 0 <= i < s.len() ==> is_digit(#[trigger] s[i])
}

/// The number that the decimal digits `s` denote.
pub open spec fn digits_value(s: Seq<char>) -> int
    decreases s.len(),
{
    if s.len() == 0 {
        0
    } else {
        10 * digits_value(s.drop_last()) + digit_value(s.last())
    }
}

/// The sign and the magnitude text of a signed decimal literal: a single
/// leading `-` or `+` is the sign.
pub open spec fn split_sign(s: Seq<char>) -> (bool, Seq<char>) {
    if s.len() > 0 && s[0] == '-' {
        (true, s.skip(1))
    } else if s.len() > 0 && s[0] == '+' {
        (false, s.skip(1))
    } else {
        (false, s)
    }
}

/// What `str::parse::<i32>` accepts and yields: an optional sign, then at
/// least one ASCII digit and nothing else, with the value in range.
pub open spec fn spec_parse_i32(s: Seq<char>) -> Option<i32> {
    let (neg, d) = split_sign(s);
    if d.len() == 0 || !all_digits(d) {
        None
    } else {
        let v = if neg { -digits_value(d) } else { digits_value(d) };
        if i32::MIN <= v <= i32::MAX {
            Some(v as i32)
        } else {
            None
        }
    }
}

/// What `str::parse::<u32>` accepts and yields: an optional `+`, then at
/// least one ASCII digit and nothing else, with the value in range.
pub open spec fn spec_parse_u32(s: Seq<char>) -> Option<u32> {
    let d = if s.len() > 0 && s[0] == '+' { s.skip(1) } else { s };
    if d.len() == 0 || !all_digits(d) {
        None
    } else if digits_value(d) <= u32::MAX {
        Some(digits_value(d) as u32)
    } else {
        None
    }
}

proof fn lemma_digits_value_nonneg(s: Seq<char>)
    requires
        all_digits(s),
    ensures
        digits_value(s) >= 0,
    decreases s.len(),
{
    if s.len() > 0 {
        lemma_digits_value_nonneg(s.drop_last());
    }
}

proof fn lemma_digits_value_mono(s: Seq<char>, i: int)
    requires
        all_digits(s),
        0 <= i <= s.len(),
    ensures
        digits_value(s.take(i)) <= digits_value(s),
    decreases s.len() - i,
{
    if i < s.len() {
        let t = s.take(i + 1);
        assert(t.drop_last() == s.take(i));
        assert(all_digits(t));
        lemma_digits_value_nonneg(s.take(i));
        lemma_digits_value_mono(s, i + 1);
    } else {
        assert(s.take(i) == s);
    }
}

/// The magnitude of the digits `d`, or `None` when one of them is not a
/// digit, `d` is empty, or the value exceeds `limit`.
fn parse_magnitude(d: &[char], start: usize, limit: u128) -> (r: Option<u128>)
    requires
        start <= d@.len(),
        limit <= 0x1_0000_0000_0000_0000,
    ensures
        ({
            let t = d@.skip(start as int);
            match r {
                Some(v) => t.len() > 0 && all_digits(t) && v == digits_value(t) && v <= limit,
                None => t.len() == 0 || !all_digits(t) || digits_value(t) > limit,
            }
        }),
{
    let ghost t = d@.skip(start as int);
    if start == d.len() {
        return None;
    }
    let mut v: u128 = 0;
    let mut i = start;
    let mut too_big = false;
    while i < d.len()
        invariant
            start <= i <= d@.len(),
            t == d@.skip(start as int),
            all_digits(t.take(i - start)),
            !too_big ==> v == digits_value(t.take(i - start)) && v <= limit,
            too_big ==> digits_value(t.take(i - start)) > limit,
            limit <= 0x1_0000_0000_0000_0000,
        decreases d@.len() - i,
    {
        let c = d[i];
        let ghost p = t.take(i - start);
        let ghost q = t.take(i - start + 1);
        assert(q.drop_last() == p);
        assert(q.last() == c);
        if !('0' <= c && c <= '9') {
            assert(!all_digits(t)) by {
                assert(!is_digit(t[i - start]));
            }
            return None;
        }
        assert(all_digits(q));
        proof {
            lemma_digits_value_nonneg(p);
        }
        if !too_big {
            let dv = (c as u32 - '0' as u32) as u128;
            assert(dv == digit_value(c));
            v = v * 10 + dv;
            if v > limit {
                too_big = true;
            }
        }
        i = i + 1;
    }
    assert(t.take(i - start) == t);
    if too_big {
        None
    } else {
        Some(v)
    }
}

/// Parses a decimal `i32` exactly as `str::parse::<i32>` does.
pub fn parse_i32(s: &[char]) -> (r: Option<i32>)
    ensures
        r == spec_parse_i32(s@),
{
    let neg = s.len() > 0 && s[0] == '-';
    let start: usize = if s.len() > 0 && (s[0] == '-' || s[0] == '+') { 1 } else { 0 };
    proof {
        assert(s@.skip(0) == s@);
    }
    let limit: u128 = if neg { 0x8000_0000 } else { 0x7fff_ffff };
    match parse_magnitude(s, start, limit) {
        Some(m) => {
            if neg {
                if m == 0x8000_0000 {
                    Some(i32::MIN)
                } else {
                    Some(-(m as i32))
                }
            } else {
                Some(m as i32)
            }
        },
        None => None,
    }
}

/// What `str::parse::<i64>` accepts and yields: an optional sign, then at
/// least one ASCII digit and nothing else, with the value in range.
pub open spec fn spec_parse_i64(s: Seq<char>) -> Option<i64> {
    let (neg, d) = split_sign(s);
    if d.len() == 0 || !all_digits(d) {
        None
    } else {
        let v = if neg { -digits_value(d) } else { digits_value(d) };
        if i64::MIN <= v <= i64::MAX {
            Some(v as i64)
        } else {
            None
        }
    }
}

/// Parses a decimal `i64` exactly as `str::parse::<i64>` does.
pub fn parse_i64(s: &[char]) -> (r: Option<i64>)
    ensures
        r == spec_parse_i64(s@),
{
    let neg = s.len() > 0 && s[0] == '-';
    let start: usize = if s.len() > 0 && (s[0] == '-' || s[0] == '+') { 1 } else { 0 };
    proof {
        assert(s@.skip(0) == s@);
    }
    let limit: u128 = if neg { 0x8000_0000_0000_0000 } else { 0x7fff_ffff_ffff_ffff };
    match parse_magnitude(s, start, limit) {
        Some(m) => {
            if neg {
                if m == 0x8000_0000_0000_0000 {
                    Some(i64::MIN)
                } else {
                    Some(-(m as i64))
                }
            } else {
                Some(m as i64)
            }
        },
        None => None,
    }
}

/// Parses a decimal `u32` exactly as `str::parse::<u32>` does.
pub fn parse_u32(s: &[char]) -> (r: Option<u32>)
    ensures
        r == spec_parse_u32(s@),
{
    let start: usize = if s.len() > 0 && s[0] == '+' { 1 } else { 0 };
    proof {
        assert(s@.skip(0) == s@);
    }
    match parse_magnitude(s, start, 0xffff_ffff) {
        Some(m) => Some(m as u32),
        None => None,
    }
}

} // verus!
