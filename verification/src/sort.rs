//! Sorting by an integer key. Every ordering the engine needs (submission
//! time, vote/lock ranking) is expressed as one signed key per record, so a
//! single verified selection sort serves them all.

use vstd::prelude::*;

verus! {

use vstd::multiset::Multiset;

broadcast use vstd::seq_lib::group_to_multiset_ensures;

/// A record with a total order given by an integer key.
pub trait SortKey {
    spec fn spec_key(&self) -> int;

    fn key(&self) -> (r: i128)
        ensures
            r as int == self.spec_key(),
    ;
}

/// Ascending by key.
pub open spec fn sorted_by_key<T: SortKey>(s: Seq<T>) -> bool {
    forall|k: int, l: int| 0 <= k < l < s.len() ==> #[trigger] s[k].spec_key() <= #[trigger] s[l].spec_key()
}

/// Sort ascending by key: the result is sorted and holds exactly the same
/// records, duplicates included.
pub fn sort_by_key<T: SortKey>(v: &mut Vec<T>)
    ensures
        sorted_by_key(final(v)@),
        final(v)@.to_multiset() == old(v)@.to_multiset(),
{
    let mut src: Vec<T> = Vec::new();
    core::mem::swap(&mut src, v);
    let ghost orig = src@;
    while src.len() > 0
        invariant
            v@.to_multiset().add(src@.to_multiset()) == orig.to_multiset(),
            sorted_by_key(v@),
            forall|k: int, l: int|
                0 <= k < v@.len() && 0 <= l < src@.len() ==> #[trigger] v@[k].spec_key()
                    <= #[trigger] src@[l].spec_key(),
        decreases src@.len(),
    {
        let mut m: usize = 0;
        let mut j: usize = 1;
        while j < src.len()
            invariant
                0 <= m < j <= src@.len(),
                src@.len() > 0,
                forall|k: int| 0 <= k < j ==> src@[m as int].spec_key() <= #[trigger] src@[k].spec_key(),
            decreases src@.len() - j,
        {
            if src[j].key() < src[m].key() {
                m = j;
            }
            j = j + 1;
        }
        let x = src.remove(m);
        v.push(x);
    }
    proof {
        assert(src@.to_multiset() =~= Multiset::<T>::empty());
        assert(v@.to_multiset() =~= orig.to_multiset());
    }
}

} // verus!
