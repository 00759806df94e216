//! First-match search and sorting facts shared by the other modules.
use vstd::prelude::*;

verus! {

/// `i` is the first position at which `mask` holds.
pub open spec fn first_at(mask: Seq<bool>, i: int) -> bool {
    &&& 0 <= i < mask.len()
    &&& mask[i]
    &&& forall|j: int| 0 <= j < i ==> !mask[j]
}

/// The first position at which `mask` holds, if it holds anywhere.
pub open spec fn first_true(mask: Seq<bool>) -> Option<int> {
    if exists|i: int| first_at(mask, i) {
        Some(choose|i: int| first_at(mask, i))
    } else {
        None
    }
}

pub proof fn lemma_first_hit(mask: Seq<bool>, i: int)
    requires
        first_at(mask, i),
    ensures
        first_true(mask) == Some(i),
{
    let k = choose|k: int| first_at(mask, k);
    assert(first_at(mask, k));
    if k < i {
        assert(!mask[k]);
    } else if i < k {
        assert(!mask[i]);
    }
}

pub proof fn lemma_first_miss(mask: Seq<bool>)
    requires
        forall|i: int| 0 <= i < mask.len() ==> !mask[i],
    ensures
        first_true(mask) is None,
{
}

/// What [`first_true`] says of the mask.
pub proof fn lemma_first_true(mask: Seq<bool>)
    ensures
        match first_true(mask) {
            Some(i) => first_at(mask, i),
            None => forall|i: int| 0 <= i < mask.len() ==> !mask[i],
        },
    decreases mask.len(),
{
    if mask.len() > 0 {
        let init = mask.drop_last();
        lemma_first_true(init);
        match first_true(init) {
            Some(i) => {
                assert forall|j: int| 0 <= j < i implies !mask[j] by {
                    assert(!init[j]);
                }
                assert(mask[i] == init[i]);
                lemma_first_hit(mask, i);
            },
            None => {
                assert forall|j: int| 0 <= j < mask.len() - 1 implies !mask[j] by {
                    assert(!init[j]);
                }
                if mask.last() {
                    lemma_first_hit(mask, mask.len() - 1);
                } else {
                    lemma_first_miss(mask);
                }
            },
        }
    }
}

} // verus!
