//! A map from strings to values that keeps its keys in the order of `str`'s
//! `Ord` (code point by code point), so that walking it gives the keys
//! sorted, as a `BTreeMap<String, V>` would.

use vstd::prelude::*;
use crate::text::str_chars;

verus! {

broadcast use vstd::string::group_string_axioms;

/// The order of `str`: lexicographic over the code points.
pub open spec fn str_lt(a: Seq<char>, b: Seq<char>) -> bool
    decreases a.len(),
{
    if a.len() == 0 {
        b.len() > 0
    } else if b.len() == 0 {
        false
    } else if a[0] != b[0] {
        a[0] < b[0]
    } else {
        str_lt(a.drop_first(), b.drop_first())
    }
}

/// No string is below itself.
pub proof fn lemma_str_lt_irreflexive(a: Seq<char>)
    ensures
        !str_lt(a, a),
    decreases a.len(),
{
    if a.len() > 0 {
        lemma_str_lt_irreflexive(a.drop_first());
    }
}

/// The order is transitive.
pub proof fn lemma_str_lt_transitive(a: Seq<char>, b: Seq<char>, c: Seq<char>)
    requires
        str_lt(a, b),
        str_lt(b, c),
    ensures
        str_lt(a, c),
    decreases a.len(),
{
    if a.len() > 0 && b.len() > 0 && c.len() > 0 && a[0] == b[0] && b[0] == c[0] {
        lemma_str_lt_transitive(a.drop_first(), b.drop_first(), c.drop_first());
    }
}

/// Two different strings are ordered one way or the other.
pub proof fn lemma_str_lt_total(a: Seq<char>, b: Seq<char>)
    requires
        a != b,
    ensures
        str_lt(a, b) || str_lt(b, a),
    decreases a.len(),
{
    if a.len() > 0 && b.len() > 0 && a[0] == b[0] {
        if a.drop_first() == b.drop_first() {
            assert(a =~= seq![a[0]] + a.drop_first());
            assert(b =~= seq![b[0]] + b.drop_first());
        } else {
            lemma_str_lt_total(a.drop_first(), b.drop_first());
        }
    } else if a.len() == 0 && b.len() == 0 {
        assert(a =~= b);
    } else if a.len() > 0 && b.len() > 0 {
        assert(a[0] != b[0]);
    }
}

proof fn lemma_str_lt_common_prefix(a: Seq<char>, b: Seq<char>, i: int)
    requires
        0 <= i <= a.len(),
        i <= b.len(),
        a.take(i) == b.take(i),
    ensures
        str_lt(a, b) == str_lt(a.skip(i), b.skip(i)),
    decreases i,
{
    if i > 0 {
        assert(a[0] == a.take(i)[0]);
        assert(b[0] == b.take(i)[0]);
        assert(a.drop_first().take(i - 1) =~= a.take(i).drop_first());
        assert(b.drop_first().take(i - 1) =~= b.take(i).drop_first());
        lemma_str_lt_common_prefix(a.drop_first(), b.drop_first(), i - 1);
        assert(a.drop_first().skip(i - 1) =~= a.skip(i));
        assert(b.drop_first().skip(i - 1) =~= b.skip(i));
    } else {
        assert(a.skip(0) =~= a);
        assert(b.skip(0) =~= b);
    }
}

/// Whether `a` sorts before `b`, as `a < b` on `str` decides it.
pub fn str_less(a: &str, b: &str) -> (r: bool)
    ensures
        r == str_lt(a@, b@),
{
    let x = str_chars(a);
    let y = str_chars(b);
    let mut i: usize = 0;
    while i < x.len() && i < y.len() && x[i] == y[i]
        invariant
            i <= x.len(),
            i <= y.len(),
            x@ == a@,
            y@ == b@,
            x@.take(i as int) == y@.take(i as int),
        decreases x.len() - i,
    {
        assert(x@.take(i + 1) == x@.take(i as int).push(x@[i as int]));
        assert(y@.take(i + 1) == y@.take(i as int).push(y@[i as int]));
        i = i + 1;
    }
    proof {
        lemma_str_lt_common_prefix(x@, y@, i as int);
        if i < x.len() {
            assert(x@.skip(i as int)[0] == x@[i as int]);
        }
        if i < y.len() {
            assert(y@.skip(i as int)[0] == y@[i as int]);
        }
    }
    if i == x.len() {
        i < y.len()
    } else if i == y.len() {
        false
    } else {
        x[i] < y[i]
    }
}

/// Whether `a` and `b` hold the same text.
pub fn str_same(a: &str, b: &str) -> (r: bool)
    ensures
        r == (a@ == b@),
{
    let x = str_chars(a);
    let y = str_chars(b);
    if x.len() != y.len() {
        return false;
    }
    let mut i: usize = 0;
    while i < x.len()
        invariant
            i <= x.len(),
            x.len() == y.len(),
            x@ == a@,
            y@ == b@,
            forall|j: int| 0 <= j < i ==> x@[j] == y@[j],
        decreases x.len() - i,
    {
        if x[i] != y[i] {
            return false;
        }
        i = i + 1;
    }
    assert(x@ =~= y@);
    true
}

/// Whether the keys are strictly increasing.
pub open spec fn sorted_keys(keys: Seq<Seq<char>>) -> bool {
    forall|i: int, j: int| 0 <= i < j < keys.len() ==> str_lt(#[trigger] keys[i], #[trigger] keys[j])
}

/// A map from strings to values, its entries sorted by key.
#[derive(Debug)]
pub struct StrMap<V> {
    entries: Vec<(String, V)>,
}

impl<V> StrMap<V> {
    /// The keys, in the order the map holds them: sorted.
    pub closed spec fn key_seq(&self) -> Seq<Seq<char>> {
        self.entries@.map_values(|e: (String, V)| e.0@)
    }

    /// The value stored under the `i`th key.
    pub closed spec fn value_at(&self, i: int) -> V {
        self.entries@[i].1
    }

    /// The number of entries.
    pub open spec fn len_spec(&self) -> nat {
        self.key_seq().len()
    }

    #[verifier::type_invariant]
    closed spec fn inv(&self) -> bool {
        sorted_keys(self.key_seq())
    }

    /// The position of key `k`, if the map has it.
    pub open spec fn index_of(&self, k: Seq<char>) -> int {
        choose|i: int| 0 <= i < self.key_seq().len() && self.key_seq()[i] == k
    }

    /// Whether the map has key `k`.
    pub open spec fn has(&self, k: Seq<char>) -> bool {
        exists|i: int| 0 <= i < self.key_seq().len() && self.key_seq()[i] == k
    }

    /// The value under key `k` (meaningful where `has(k)`).
    pub open spec fn at(&self, k: Seq<char>) -> V {
        self.value_at(self.index_of(k))
    }

    /// The value found under the `i`th key is the `i`th value.
    proof fn lemma_at_index(&self, i: int)
        requires
            0 <= i < self.key_seq().len(),
            sorted_keys(self.key_seq()),
        ensures
            self.has(self.key_seq()[i]),
            self.index_of(self.key_seq()[i]) == i,
            self.at(self.key_seq()[i]) == self.value_at(i),
    {
        let k = self.key_seq()[i];
        assert(self.has(k));
        let j = self.index_of(k);
        if j != i {
            if j < i {
                assert(str_lt(self.key_seq()[j], self.key_seq()[i]));
            } else {
                assert(str_lt(self.key_seq()[i], self.key_seq()[j]));
            }
            lemma_str_lt_irreflexive(k);
        }
    }

    /// An empty map.
    pub fn new() -> (r: Self)
        ensures
            r.key_seq() == Seq::<Seq<char>>::empty(),
    {
        let r = StrMap { entries: Vec::new() };
        assert(r.key_seq() =~= Seq::<Seq<char>>::empty());
        r
    }

    /// The number of entries.
    pub fn len(&self) -> (r: usize)
        ensures
            r == self.len_spec(),
    {
        self.entries.len()
    }

    /// The `i`th key and its value, in key order.
    pub fn entry(&self, i: usize) -> (r: (&String, &V))
        requires
            i < self.len_spec(),
        ensures
            r.0@ == self.key_seq()[i as int],
            *r.1 == self.value_at(i as int),
    {
        let e = &self.entries[i];
        (&e.0, &e.1)
    }

    /// The position where `k` stands, or where it would be inserted.
    fn find(&self, k: &str) -> (r: (usize, bool))
        ensures
            r.0 <= self.len_spec(),
            r.1 ==> r.0 < self.len_spec() && self.key_seq()[r.0 as int] == k@,
            !r.1 ==> forall|i: int| 0 <= i < r.0 ==> str_lt(#[trigger] self.key_seq()[i], k@),
            !r.1 ==> forall|i: int| r.0 <= i < self.len_spec() ==> str_lt(k@, #[trigger] self.key_seq()[i]),
    {
        proof {
            use_type_invariant(self);
        }
        let mut i: usize = 0;
        while i < self.entries.len()
            invariant
                i <= self.entries.len(),
                self.entries@.len() == self.key_seq().len(),
                sorted_keys(self.key_seq()),
                forall|j: int| 0 <= j < i ==> str_lt(#[trigger] self.key_seq()[j], k@),
            decreases self.entries.len() - i,
        {
            let key = &self.entries[i].0;
            assert(key@ == self.key_seq()[i as int]);
            if str_same(key.as_str(), k) {
                return (i, true);
            }
            if !str_less(key.as_str(), k) {
                proof {
                    lemma_str_lt_total(key@, k@);
                    assert forall|j: int| i <= j < self.len_spec() implies str_lt(
                        k@,
                        #[trigger] self.key_seq()[j],
                    ) by {
                        if j > i {
                            lemma_str_lt_transitive(k@, key@, self.key_seq()[j]);
                        }
                    }
                }
                return (i, false);
            }
            i = i + 1;
        }
        (i, false)
    }

    /// Whether the map has key `k`.
    pub fn contains(&self, k: &str) -> (r: bool)
        ensures
            r == self.has(k@),
            r == self.view().contains_key(k@),
    {
        let (i, found) = self.find(k);
        proof {
            if found {
                assert(self.key_seq()[i as int] == k@);
            } else if self.has(k@) {
                let j = self.index_of(k@);
                lemma_str_lt_irreflexive(k@);
                if j < i {
                    assert(str_lt(self.key_seq()[j], k@));
                } else {
                    assert(str_lt(k@, self.key_seq()[j]));
                }
            }
        }
        found
    }

    /// The value under key `k`, if there is one.
    pub fn get(&self, k: &str) -> (r: Option<&V>)
        ensures
            r.is_some() == self.has(k@),
            r.is_some() ==> *r.unwrap() == self.at(k@),
            r.is_some() == self.view().contains_key(k@),
            r matches Some(v) ==> *v == self.view()[k@],
    {
        proof {
            use_type_invariant(self);
        }
        let (i, found) = self.find(k);
        if found {
            proof {
                self.lemma_at_index(i as int);
            }
            Some(&self.entries[i].1)
        } else {
            proof {
                if self.has(k@) {
                    let j = self.index_of(k@);
                    lemma_str_lt_irreflexive(k@);
                    if j < i {
                        assert(str_lt(self.key_seq()[j], k@));
                    } else {
                        assert(str_lt(k@, self.key_seq()[j]));
                    }
                }
            }
            None
        }
    }

    /// The keys, sorted.
    pub fn keys(&self) -> (r: Vec<String>)
        ensures
            r@.len() == self.key_seq().len(),
            forall|i: int| 0 <= i < r@.len() ==> #[trigger] r@[i]@ == self.key_seq()[i],
            sorted_keys(self.key_seq()),
            forall|k: Seq<char>| #[trigger] self.view().contains_key(k) <==> self.key_seq().contains(k),
    {
        proof {
            use_type_invariant(self);
        }
        let mut r: Vec<String> = Vec::new();
        for i in 0..self.entries.len()
            invariant
                r@.len() == i,
                self.entries@.len() == self.key_seq().len(),
                forall|j: int| 0 <= j < i ==> #[trigger] r@[j]@ == self.key_seq()[j],
        {
            let k = self.entries[i].0.clone();
            r.push(k);
        }
        r
    }

    /// Removes the `i`th entry.
    fn remove_at(&mut self, i: usize) -> (r: (String, V))
        requires
            i < old(self).len_spec(),
        ensures
            final(self).key_seq() == old(self).key_seq().remove(i as int),
            r.0@ == old(self).key_seq()[i as int],
            r.1 == old(self).value_at(i as int),
            forall|j: int| 0 <= j < i ==> final(self).value_at(j) == old(self).value_at(j),
            forall|j: int|
                i <= j < final(self).len_spec() ==> final(self).value_at(j) == old(
                    self,
                ).value_at(j + 1),
    {
        proof {
            use_type_invariant(&*self);
        }
        let ghost ks = self.key_seq();
        let mut es: Vec<(String, V)> = Vec::new();
        std::mem::swap(&mut es, &mut self.entries);
        let r = es.remove(i);
        proof {
            assert(es@.map_values(|e: (String, V)| e.0@) =~= ks.remove(i as int));
        }
        self.entries = es;
        r
    }

    /// Puts `k` with value `v` at position `i`, where it sorts.
    fn insert_at(&mut self, i: usize, k: String, v: V)
        requires
            i <= old(self).len_spec(),
            forall|j: int| 0 <= j < i ==> str_lt(#[trigger] old(self).key_seq()[j], k@),
            forall|j: int|
                i <= j < old(self).len_spec() ==> str_lt(k@, #[trigger] old(self).key_seq()[j]),
        ensures
            final(self).key_seq() == old(self).key_seq().insert(i as int, k@),
            final(self).value_at(i as int) == v,
            forall|j: int| 0 <= j < i ==> final(self).value_at(j) == old(self).value_at(j),
            forall|j: int|
                i <= j < old(self).len_spec() ==> final(self).value_at(j + 1) == old(
                    self,
                ).value_at(j),
    {
        proof {
            use_type_invariant(&*self);
        }
        let ghost ks = self.key_seq();
        let ghost nks = ks.insert(i as int, k@);
        proof {
            assert forall|a: int, b: int| 0 <= a < b < nks.len() implies str_lt(
                #[trigger] nks[a],
                #[trigger] nks[b],
            ) by {
                if a < i && b > i {
                    lemma_str_lt_transitive(ks[a], k@, ks[b - 1]);
                }
            }
        }
        let mut es: Vec<(String, V)> = Vec::new();
        std::mem::swap(&mut es, &mut self.entries);
        es.insert(i, (k, v));
        proof {
            assert(es@.map_values(|e: (String, V)| e.0@) =~= nks);
        }
        self.entries = es;
    }

    /// The map as a mathematical map from key text to value.
    pub open spec fn view(&self) -> Map<Seq<char>, V> {
        Map::new(|k: Seq<char>| self.has(k), |k: Seq<char>| self.at(k))
    }

    /// The keys, in order, are exactly the keys of the map.
    pub proof fn lemma_keys(&self)
        ensures
            forall|k: Seq<char>| #[trigger] self.view().contains_key(k) <==> self.key_seq().contains(k),
    {
    }

    /// Takes the value under `k` out of the map, if there is one.
    pub fn take(&mut self, k: &str) -> (r: Option<V>)
        ensures
            r.is_some() == old(self).view().contains_key(k@),
            r.is_some() ==> r.unwrap() == old(self).view()[k@],
            final(self).view() == old(self).view().remove(k@),
    {
        proof {
            use_type_invariant(&*self);
        }
        let (i, found) = self.find(k);
        let ghost old_self = *self;
        if found {
            proof {
                old_self.lemma_at_index(i as int);
            }
            let (_, v) = self.remove_at(i);
            proof {
                use_type_invariant(&*self);
                let ks = old_self.key_seq();
                assert forall|k2: Seq<char>| #[trigger] self.view().contains_key(k2)
                    == old_self.view().remove(k@).contains_key(k2) by {
                    if self.has(k2) {
                        let j = self.index_of(k2);
                        if j < i {
                            assert(ks[j] == k2);
                        } else {
                            assert(ks[j + 1] == k2);
                        }
                        if k2 == k@ {
                            if j < i {
                                assert(str_lt(ks[j], ks[i as int]));
                            } else {
                                assert(str_lt(ks[i as int], ks[j + 1]));
                            }
                            lemma_str_lt_irreflexive(k2);
                        }
                    }
                    if old_self.has(k2) && k2 != k@ {
                        let j = old_self.index_of(k2);
                        if j < i {
                            assert(self.key_seq()[j] == k2);
                        } else {
                            assert(j != i);
                            assert(self.key_seq()[j - 1] == k2);
                        }
                    }
                }
                assert forall|k2: Seq<char>| #[trigger] self.view().contains_key(k2) implies self.view()[k2]
                    == old_self.view()[k2] by {
                    let j = self.index_of(k2);
                    self.lemma_at_index(j);
                    if j < i {
                        old_self.lemma_at_index(j);
                    } else {
                        old_self.lemma_at_index(j + 1);
                    }
                }
                assert(self.view() =~= old_self.view().remove(k@));
            }
            Some(v)
        } else {
            proof {
                if old_self.has(k@) {
                    let j = old_self.index_of(k@);
                    lemma_str_lt_irreflexive(k@);
                    if j < i {
                        assert(str_lt(old_self.key_seq()[j], k@));
                    } else {
                        assert(str_lt(k@, old_self.key_seq()[j]));
                    }
                }
                assert(self.view() =~= old_self.view().remove(k@));
            }
            None
        }
    }

    /// Sets the value under `k` to `v`.
    pub fn put(&mut self, k: String, v: V)
        ensures
            final(self).view() == old(self).view().insert(k@, v),
    {
        proof {
            use_type_invariant(&*self);
        }
        let (i, found) = self.find(k.as_str());
        let ghost old_self = *self;
        let ghost kv = k@;
        if found {
            let _ = self.remove_at(i);
            self.insert_at_checked(i, k, v, Ghost(old_self));
        } else {
            self.insert_at(i, k, v);
            proof {
                use_type_invariant(&*self);
                let ks = old_self.key_seq();
                assert forall|k2: Seq<char>| #[trigger] self.view().contains_key(k2)
                    == old_self.view().insert(kv, v).contains_key(k2) by {
                    if self.has(k2) {
                        let j = self.index_of(k2);
                        if j < i {
                            assert(ks[j] == k2);
                        } else if j > i {
                            assert(ks[j - 1] == k2);
                        }
                    }
                    if old_self.has(k2) {
                        let j = old_self.index_of(k2);
                        if j < i {
                            assert(self.key_seq()[j] == k2);
                        } else {
                            assert(self.key_seq()[j + 1] == k2);
                        }
                    }
                    if k2 == kv {
                        assert(self.key_seq()[i as int] == k2);
                    }
                }
                assert forall|k2: Seq<char>| #[trigger] self.view().contains_key(k2) implies self.view()[k2]
                    == old_self.view().insert(kv, v)[k2] by {
                    let j = self.index_of(k2);
                    self.lemma_at_index(j);
                    if j < i {
                        old_self.lemma_at_index(j);
                        assert(str_lt(ks[j], kv));
                        if k2 == kv {
                            lemma_str_lt_irreflexive(kv);
                        }
                    } else if j > i {
                        old_self.lemma_at_index(j - 1);
                        assert(str_lt(kv, ks[j - 1]));
                        if k2 == kv {
                            lemma_str_lt_irreflexive(kv);
                        }
                    }
                }
                assert(self.view() =~= old_self.view().insert(kv, v));
            }
        }
    }

    /// Puts back `k` at position `i` from which an entry with the same key
    /// was just removed.
    fn insert_at_checked(&mut self, i: usize, k: String, v: V, Ghost(orig): Ghost<Self>)
        requires
            i < orig.len_spec(),
            orig.key_seq()[i as int] == k@,
            sorted_keys(orig.key_seq()),
            old(self).key_seq() == orig.key_seq().remove(i as int),
            forall|j: int| 0 <= j < i ==> old(self).value_at(j) == orig.value_at(j),
            forall|j: int|
                i <= j < old(self).len_spec() ==> old(self).value_at(j) == orig.value_at(j + 1),
        ensures
            final(self).view() == orig.view().insert(k@, v),
    {
        proof {
            let ks = orig.key_seq();
            assert forall|j: int| 0 <= j < i implies str_lt(#[trigger] old(self).key_seq()[j], k@) by {
                assert(old(self).key_seq()[j] == ks[j]);
            }
            assert forall|j: int| i <= j < old(self).len_spec() implies str_lt(
                k@,
                #[trigger] old(self).key_seq()[j],
            ) by {
                assert(old(self).key_seq()[j] == ks[j + 1]);
            }
        }
        self.insert_at(i, k, v);
        proof {
            use_type_invariant(&*self);
            let ks = orig.key_seq();
            assert(self.key_seq() =~= ks);
            orig.lemma_at_index(i as int);
            assert forall|k2: Seq<char>| #[trigger] self.view().contains_key(k2)
                == orig.view().insert(k@, v).contains_key(k2) by {
            }
            assert forall|k2: Seq<char>| #[trigger] self.view().contains_key(k2) implies self.view()[k2]
                == orig.view().insert(k@, v)[k2] by {
                let j = self.index_of(k2);
                self.lemma_at_index(j);
                orig.lemma_at_index(j);
                if j > i {
                    assert(self.value_at((j - 1) + 1) == old(self).value_at(j - 1));
                }
            }
            assert(self.view() =~= orig.view().insert(k@, v));
        }
    }
}

} // verus!
