//! The sampling layout of the potential landscape.

use vstd::prelude::*;

verus! {

/// The point that `base` becomes when its coordinate `dim` is set to `coord`;
/// a `dim` outside the point leaves it as it is.
pub open spec fn moved_along<T>(base: Seq<T>, dim: usize, coord: T) -> Seq<T> {
    if dim < base.len() {
        base.update(dim as int, coord)
    } else {
        base
    }
}

/// A moved point keeps the length of `base`; where `dim` lies inside the
/// point, coordinate `dim` is `coord` and every other coordinate is that of
/// `base`; otherwise the point is `base` itself.
pub proof fn law_moved_along<T>(base: Seq<T>, dim: usize, coord: T)
    ensures
        moved_along(base, dim, coord).len() == base.len(),
        dim < base.len() ==> moved_along(base, dim, coord)[dim as int] == coord,
        forall|j: int|
            0 <= j < base.len() && j != dim ==> #[trigger] moved_along(base, dim, coord)[j]
                == base[j],
        dim >= base.len() ==> moved_along(base, dim, coord) == base,
{
}

/// The points of a one-dimensional projection through `base`: one point per
/// coordinate, in order, each equal to `base` but for dimension `dim`, which
/// takes that coordinate.
pub fn positions_along<T: Copy>(base: &Vec<T>, dim: usize, coords: &Vec<T>) -> (points: Vec<Vec<T>>)
    ensures
        points@.len() == coords@.len(),
        forall|i: int|
            0 <= i < coords@.len() ==> #[trigger] points@[i]@ == moved_along(base@, dim, coords@[i]),
        forall|i: int| 0 <= i < coords@.len() ==> (#[trigger] points@[i])@.len() == base@.len(),
        forall|i: int|
            0 <= i < coords@.len() && dim < base@.len() ==> (#[trigger] points@[i])@[dim as int]
                == coords@[i],
        forall|i: int, j: int|
            0 <= i < coords@.len() && 0 <= j < base@.len() && j != dim ==> #[trigger] points@[i]@[j]
                == base@[j],
{
    let mut points: Vec<Vec<T>> = Vec::new();
    let mut i: usize = 0;
    while i < coords.len()
        invariant
            i <= coords@.len(),
            points@.len() == i,
            forall|k: int|
                0 <= k < i ==> #[trigger] points@[k]@ == moved_along(base@, dim, coords@[k]),
        decreases coords@.len() - i,
    {
        let mut point: Vec<T> = Vec::new();
        let mut k: usize = 0;
        while k < base.len()
            invariant
                k <= base@.len(),
                point@ == base@.take(k as int),
            decreases base@.len() - k,
        {
            point.push(base[k]);
            k = k + 1;
            proof {
                assert(point@ =~= base@.take(k as int));
            }
        }
        proof {
            assert(base@.take(k as int) =~= base@);
        }
        if dim < point.len() {
            point.set(dim, coords[i]);
        }
        points.push(point);
        i = i + 1;
    }
    proof {
        assert forall|i: int| 0 <= i < coords@.len() implies {
            &&& (#[trigger] points@[i])@.len() == base@.len()
            &&& dim < base@.len() ==> points@[i]@[dim as int] == coords@[i]
            &&& forall|j: int| 0 <= j < base@.len() && j != dim ==> points@[i]@[j] == base@[j]
        } by {
            law_moved_along(base@, dim, coords@[i]);
        }
    }
    points
}

} // verus!
