//! Selection of the nearest reference point from a sequence of distances.

use vstd::prelude::*;
use crate::distance::{is_nan, is_nan_bits, precedes, rank};
use crate::error::LabelError;

verus! {

/// Whether one of the distances is a NaN.
pub open spec fn has_nan(distances: Seq<u64>) -> bool {
    exists|j: int| 0 <= j < distances.len() && is_nan(#[trigger] distances[j])
}

/// Whether `i` is the position of the first smallest distance: nothing is
/// smaller than the distance at `i`, and everything before `i` is larger.
pub open spec fn is_first_minimum(distances: Seq<u64>, i: int) -> bool {
    &&& 0 <= i < distances.len()
    &&& forall|j: int|
        0 <= j < distances.len() ==> rank(distances[i]) <= rank(#[trigger] distances[j])
    &&& forall|j: int| 0 <= j < i ==> rank(distances[i]) < rank(#[trigger] distances[j])
}

/// The position of the nearest reference point: the first position whose
/// distance nothing undercuts. Defined by a scan from the left that moves
/// on only to a strictly smaller distance.
pub open spec fn first_minimum(distances: Seq<u64>) -> int
    decreases distances.len(),
{
    if distances.len() <= 1 {
        0
    } else {
        let best = first_minimum(distances.drop_last());
        if rank(distances.last()) < rank(distances[best]) {
            distances.len() - 1
        } else {
            best
        }
    }
}

/// The scan from the left finds the first minimum.
pub proof fn lemma_first_minimum(distances: Seq<u64>)
    requires
        distances.len() > 0,
    ensures
        is_first_minimum(distances, first_minimum(distances)),
    decreases distances.len(),
{
    if distances.len() > 1 {
        let front = distances.drop_last();
        lemma_first_minimum(front);
        let best = first_minimum(front);
        assert(forall|j: int| 0 <= j < front.len() ==> front[j] == distances[j]);
        let found = first_minimum(distances);
        assert forall|j: int| 0 <= j < distances.len() implies rank(distances[found]) <= rank(
            #[trigger] distances[j],
        ) by {
            if j < front.len() {
                assert(rank(front[best]) <= rank(front[j]));
            }
        }
        assert forall|j: int| 0 <= j < found implies rank(distances[found]) < rank(
            #[trigger] distances[j],
        ) by {
            if found == best {
                assert(rank(front[best]) < rank(front[j]));
            } else {
                assert(rank(front[best]) <= rank(front[j]));
            }
        }
    }
}

/// At most one position is the first minimum.
pub proof fn lemma_first_minimum_unique(distances: Seq<u64>, i: int, k: int)
    requires
        is_first_minimum(distances, i),
        is_first_minimum(distances, k),
    ensures
        i == k,
{
    if i < k {
        assert(rank(distances[k]) < rank(distances[i]));
        assert(rank(distances[i]) <= rank(distances[k]));
    } else if k < i {
        assert(rank(distances[i]) < rank(distances[k]));
        assert(rank(distances[k]) <= rank(distances[i]));
    }
}

/// Of two positions with the same distance, the later one is never the
/// one that is found.
pub proof fn lemma_tie_goes_to_first(distances: Seq<u64>, i: int, k: int)
    requires
        0 <= i < k < distances.len(),
        rank(distances[i]) == rank(distances[k]),
    ensures
        first_minimum(distances) != k,
        rank(distances[i]) == rank(distances[first_minimum(distances)]) ==> first_minimum(
            distances,
        ) <= i,
{
    lemma_first_minimum(distances);
    let found = first_minimum(distances);
    if found == k {
        assert(rank(distances[found]) < rank(distances[i]));
    }
    if found > i {
        assert(rank(distances[found]) < rank(distances[i]));
    }
}

/// What `nearest_index` returns for a sequence of distances.
pub open spec fn nearest(distances: Seq<u64>) -> Result<int, LabelError> {
    if distances.len() == 0 {
        Err(LabelError::NoReferenceData)
    } else if has_nan(distances) {
        Err(LabelError::NanCoordinate)
    } else {
        Ok(first_minimum(distances))
    }
}

/// Finds the position of the smallest distance; of several equal ones, the
/// first. Fails on an empty sequence and on one that holds a NaN.
pub fn nearest_index(distances: &Vec<u64>) -> (found: Result<usize, LabelError>)
    ensures
        match nearest(distances@) {
            Ok(i) => found == Ok::<usize, LabelError>(i as usize) && is_first_minimum(
                distances@,
                i,
            ),
            Err(e) => found == Err::<usize, LabelError>(e),
        },
{
    let n: usize = distances.len();
    if n == 0 {
        return Err(LabelError::NoReferenceData);
    }
    let mut best: usize = 0;
    let mut i: usize = 0;
    while i < n
        invariant
            n == distances.len(),
            n > 0,
            0 <= i <= n,
            forall|j: int| 0 <= j < i ==> !is_nan(#[trigger] distances@[j]),
            i == 0 ==> best == 0,
            i > 0 ==> best as int == first_minimum(distances@.take(i as int)),
            i > 0 ==> best < i,
        decreases n - i,
    {
        let d: u64 = distances[i];
        if is_nan_bits(d) {
            return Err(LabelError::NanCoordinate);
        }
        proof {
            let now = distances@.take(i + 1);
            assert(now.drop_last() =~= distances@.take(i as int));
            assert(now.last() == d);
            if i > 0 {
                assert(now[best as int] == distances@[best as int]);
            }
        }
        if i > 0 && precedes(d, distances[best]) {
            best = i;
        }
        i = i + 1;
    }
    proof {
        assert(distances@.take(n as int) =~= distances@);
        lemma_first_minimum(distances@);
    }
    Ok(best)
}

} // verus!
