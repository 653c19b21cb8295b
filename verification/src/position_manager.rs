use vstd::prelude::*;

verus! {

/// Chooses among entities by their distance.
pub struct PositionManager {}

/// Key `a` orders before key `b`: a missing key before any number, numbers
/// by size.
pub open spec fn key_less(a: Option<u32>, b: Option<u32>) -> bool {
    match (a, b) {
        (None, Some(_)) => true,
        (Some(x), Some(y)) => x < y,
        _ => false,
    }
}

/// `index` holds a least key, and no key before it is as small.
pub open spec fn is_first_minimum(keys: Seq<Option<u32>>, index: int) -> bool {
    &&& 0 <= index < keys.len()
    &&& forall|j: int| 0 <= j < keys.len() ==> !key_less(#[trigger] keys[j], keys[index])
    &&& forall|j: int| 0 <= j < index ==> key_less(keys[index], #[trigger] keys[j])
}

fn less(a: Option<u32>, b: Option<u32>) -> (r: bool)
    ensures
        r == key_less(a, b),
{
    match (a, b) {
        (None, Some(_)) => true,
        (Some(x), Some(y)) => x < y,
        _ => false,
    }
}

impl PositionManager {
    /// The position of the first least key, as `Iterator::min_by_key` picks
    /// it; `None` when there are no keys.
    pub fn first_minimum(keys: &Vec<Option<u32>>) -> (index: Option<usize>)
        ensures
            match index {
                Some(i) => is_first_minimum(keys@, i as int),
                None => keys@.len() == 0,
            },
    {
        if keys.len() == 0 {
            return None;
        }
        let mut best: usize = 0;
        let mut j: usize = 1;
        while j < keys.len()
            invariant
                1 <= j <= keys@.len(),
                best < j,
                forall|k: int| 0 <= k < j ==> !key_less(#[trigger] keys@[k], keys@[best as int]),
                forall|k: int| 0 <= k < best ==> key_less(keys@[best as int], #[trigger] keys@[k]),
            decreases keys@.len() - j,
        {
            if less(keys[j], keys[best]) {
                let ghost old_best = best;
                best = j;
                assert forall|k: int| 0 <= k < best implies key_less(keys@[best as int], #[trigger] keys@[k]) by {
                    assert(!key_less(keys@[k], keys@[old_best as int]));
                }
            }
            j = j + 1;
        }
        Some(best)
    }
}

/// The first least key is unique: two positions that both are it are the same.
pub proof fn lemma_first_minimum_unique(keys: Seq<Option<u32>>, i: int, j: int)
    requires
        is_first_minimum(keys, i),
        is_first_minimum(keys, j),
    ensures
        i == j,
{
    if i < j {
        assert(key_less(keys[j], keys[i]));
    } else if j < i {
        assert(key_less(keys[i], keys[j]));
    }
}

} // verus!
