//! The segments of a request path, consumed front to back.

use vstd::prelude::*;
use crate::text::{spec_split, spec_trim_start, split, trim_start, str_chars};

verus! {

/// The segments of a path that are still to be read, as an iterator over
/// `str::split('/')` yields them.
pub struct PathSplit {
    parts: Vec<Vec<char>>,
    pos: usize,
}

impl View for PathSplit {
    type V = Seq<Seq<char>>;

    /// The segments not read yet.
    closed spec fn view(&self) -> Seq<Seq<char>> {
        self.parts.deep_view().skip(self.pos as int)
    }
}

impl PathSplit {
    #[verifier::type_invariant]
    closed spec fn inv(self) -> bool {
        self.pos <= self.parts.len()
    }

    /// The segments of `s` between its `/`s, none read yet.
    pub fn new(s: &[char]) -> (r: PathSplit)
        ensures
            r@ == spec_split(s@, '/'),
    {
        let parts = split(s, '/');
        let r = PathSplit { parts, pos: 0 };
        assert(r.parts.deep_view().skip(0) == r.parts.deep_view());
        r
    }

    /// The segments of `s` between its `sep`s, none read yet.
    pub fn split_on(s: &[char], sep: char) -> (r: PathSplit)
        ensures
            r@ == spec_split(s@, sep),
    {
        let parts = split(s, sep);
        let r = PathSplit { parts, pos: 0 };
        assert(r.parts.deep_view().skip(0) == r.parts.deep_view());
        r
    }

    /// The segments of `s` after its leading `/`s have been removed, as
    /// `s.trim_start_matches('/').split('/')` yields them.
    pub fn of_path(s: &str) -> (r: PathSplit)
        ensures
            r@ == spec_split(spec_trim_start(s@, '/'), '/'),
    {
        let v = str_chars(s);
        let t = trim_start(v.as_slice(), '/');
        PathSplit::new(t.as_slice())
    }

    /// Reads the next segment.
    pub fn next(&mut self) -> (r: Option<Vec<char>>)
        ensures
            old(self)@.len() > 0 ==> (r matches Some(v) && v@ == old(self)@[0] && final(self)@ == old(self)@.drop_first()),
            old(self)@.len() == 0 ==> r is None && final(self)@ == old(self)@,
    {
        proof {
            use_type_invariant(&*self);
        }
        if self.pos < self.parts.len() {
            let v = self.parts[self.pos].clone();
            proof {
                assert(v.deep_view() == self.parts[self.pos as int].deep_view());
                assert(v.deep_view() =~= v@);
                assert(self.parts[self.pos as int].deep_view() =~= self.parts[self.pos as int]@);
            }
            let ghost before = self@;
            self.pos = self.pos + 1;
            assert(self@ =~= before.drop_first());
            Some(v)
        } else {
            None
        }
    }

    /// The segments not read yet, as strings.
    pub fn rest(&self) -> (r: Vec<String>)
        ensures
            r@.len() == self@.len(),
            forall|i: int| 0 <= i < r@.len() ==> #[trigger] r@[i]@ == self@[i],
    {
        proof {
            use_type_invariant(self);
        }
        let mut r: Vec<String> = Vec::new();
        let mut k = self.pos;
        while k < self.parts.len()
            invariant
                self.pos <= k <= self.parts.len(),
                r@.len() == k - self.pos,
                forall|i: int| 0 <= i < r@.len() ==> #[trigger] r@[i]@ == self@[i],
            decreases self.parts.len() - k,
        {
            let s = crate::text::chars_to_string(self.parts[k].as_slice());
            proof {
                assert(self.parts[k as int].deep_view() =~= self.parts[k as int]@);
            }
            r.push(s);
            k = k + 1;
        }
        r
    }
}

} // verus!
