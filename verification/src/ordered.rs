//! The keys of integer-keyed ordered maps, in the order the maps keep them.

use vstd::prelude::*;
use vstd::std_specs::iter::IteratorSpec;
use vstd::std_specs::cmp::OrdSpec;
use std::collections::BTreeMap;

verus! {

/// Whether the ids increase strictly.
pub open spec fn increasing(s: Seq<i32>) -> bool {
    forall|i: int, j: int| 0 <= i < j < s.len() ==> s[i] < s[j]
}

proof fn lemma_increasing_at<K: Ord>(s: Seq<K>, i: int, j: int)
    requires
        vstd::laws_cmp::obeys_cmp::<K>(),
        vstd::std_specs::btree::increasing_seq(s),
        0 <= i < j < s.len(),
    ensures
        s[i].cmp_spec(&s[j]) is Less,
{
    vstd::std_specs::btree::axiom_increasing_seq_meaning(s);
}

proof fn lemma_increasing_refs(s: Seq<&i32>)
    requires
        vstd::std_specs::btree::increasing_seq(s),
    ensures
        forall|i: int, j: int| 0 <= i < j < s.len() ==> *s[i] < *s[j],
{
    assert(vstd::laws_cmp::obeys_cmp::<i32>());
    assert(vstd::laws_cmp::obeys_cmp::<&i32>());
    assert forall|i: int, j: int| 0 <= i < j < s.len() implies *s[i] < *s[j] by {
        lemma_increasing_at(s, i, j);
    }
}

/// The keys of `m`, in increasing order.
pub fn int_keys<V>(m: &BTreeMap<i32, V>) -> (r: Vec<i32>)
    ensures
        increasing(r@),
        forall|k: i32| #[trigger] m@.contains_key(k) <==> r@.contains(k),
{
    let mut r: Vec<i32> = Vec::new();
    let ghost full = vstd::std_specs::btree::spec_keys_iter(m).remaining();
    proof {
        assert(full.unref().to_set() == m@.dom());
        assert(vstd::std_specs::btree::increasing_seq(full));
    }
    for k in it: m.keys()
        invariant
            it.seq() == full,
            r@ == full.unref().take(it.index() as int),
    {
        r.push(*k);
        assert(full.unref().take(it.index() + 1) =~= full.unref().take(it.index() as int).push(*k));
    }
    proof {
        assert(r@ =~= full.unref());
        lemma_increasing_refs(full);
        assert forall|k: i32| #[trigger] m@.contains_key(k) <==> r@.contains(k) by {
            assert(full.unref().to_set().contains(k) <==> full.unref().contains(k));
        }
    }
    r
}

} // verus!
