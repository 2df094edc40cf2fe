//! The order meshes are processed in: by mesh id, keeping the given order
//! among equal ids.

use vstd::prelude::*;
use crate::commands::Id;

verus! {

/// `(ids[a], a)` comes before `(ids[b], b)`: by id, then by position.
pub open spec fn before(ids: Seq<Id>, a: int, b: int) -> bool {
    ids[a] < ids[b] || (ids[a] == ids[b] && a < b)
}

/// `p` lists each position of `ids` exactly once.
pub open spec fn is_permutation(p: Seq<usize>, n: int) -> bool {
    &&& p.len() == n
    &&& forall|k: int| 0 <= k < p.len() ==> #[trigger] p[k] < n
    &&& forall|k: int, l: int| 0 <= k < l < p.len() ==> p[k] != p[l]
}

/// `p` visits positions in stable sorted order of their ids.
pub open spec fn stably_sorted(ids: Seq<Id>, p: Seq<usize>) -> bool {
    forall|k: int, l: int| 0 <= k < l < p.len() ==> before(ids, #[trigger] p[k] as int, #[trigger] p[l] as int)
}

/// The positions of `ids` in the order a stable sort by id puts them: every
/// position once, ids never decreasing, and equal ids in their given order.
pub fn sort_order(ids: &[Id]) -> (p: Vec<usize>)
    ensures
        is_permutation(p@, ids@.len() as int),
        stably_sorted(ids@, p@),
{
    let mut out: Vec<usize> = Vec::new();
    let mut i: usize = 0;
    while i < ids.len()
        invariant
            i <= ids@.len(),
            out@.len() == i,
            forall|k: int| 0 <= k < out@.len() ==> #[trigger] out@[k] < i,
            forall|k: int, l: int| 0 <= k < l < out@.len() ==> out@[k] != out@[l],
            stably_sorted(ids@, out@),
        decreases ids@.len() - i,
    {
        let mut pos: usize = 0;
        while pos < out.len() && ids[out[pos]] <= ids[i]
            invariant
                i < ids@.len(),
                pos <= out@.len(),
                forall|k: int| 0 <= k < out@.len() ==> #[trigger] out@[k] < i,
                forall|k: int| 0 <= k < pos ==> ids@[#[trigger] out@[k] as int] <= ids@[i as int],
            decreases out@.len() - pos,
        {
            pos = pos + 1;
        }
        let ghost old_out = out@;
        out.insert(pos, i);
        assert forall|k: int, l: int| 0 <= k < l < out@.len() implies before(ids@, #[trigger] out@[k] as int, #[trigger] out@[l] as int) by {
            if l < pos {
                assert(out@[k] == old_out[k] && out@[l] == old_out[l]);
            } else if l == pos {
                assert(out@[k] == old_out[k]);
            } else if k == pos {
                assert(out@[l] == old_out[l - 1]);
                assert(pos < old_out.len());
                assert(ids@[old_out[pos as int] as int] > ids@[i as int]);
                if l - 1 > pos {
                    assert(before(ids@, old_out[pos as int] as int, old_out[l - 1] as int));
                }
            } else if k < pos {
                assert(out@[k] == old_out[k] && out@[l] == old_out[l - 1]);
            } else {
                assert(out@[k] == old_out[k - 1] && out@[l] == old_out[l - 1]);
            }
        }
        assert forall|k: int, l: int| 0 <= k < l < out@.len() implies out@[k] != out@[l] by {
            if k == pos {
                assert(out@[l] == old_out[l - 1]);
            } else if l == pos {
                assert(out@[k] == old_out[k]);
            } else if k < pos && l < pos {
                assert(out@[k] == old_out[k] && out@[l] == old_out[l]);
            } else if k < pos {
                assert(out@[k] == old_out[k] && out@[l] == old_out[l - 1]);
            } else {
                assert(out@[k] == old_out[k - 1] && out@[l] == old_out[l - 1]);
            }
        }
        assert forall|k: int| 0 <= k < out@.len() implies #[trigger] out@[k] < i + 1 by {
            if k < pos {
                assert(out@[k] == old_out[k]);
            } else if k > pos {
                assert(out@[k] == old_out[k - 1]);
            }
        }
        i = i + 1;
    }
    out
}

/// For each shader name of `shaders`, in processing order, the position of
/// the first geometry drawn with that shader: a geometry at its own
/// position is the first of its shader, whose shader information is read
/// and whose pipeline is made there; any later one reuses them.
pub fn first_occurrences(shaders: &[String]) -> (r: Vec<usize>)
    ensures
        r@.len() == shaders@.len(),
        forall|k: int|
            0 <= k < shaders@.len() ==> {
                let j = #[trigger] r@[k] as int;
                &&& 0 <= j <= k
                &&& shaders@[j]@ == shaders@[k]@
                &&& forall|i: int| 0 <= i < j ==> shaders@[i]@ != shaders@[k]@
            },
{
    let mut r: Vec<usize> = Vec::new();
    let mut k: usize = 0;
    while k < shaders.len()
        invariant
            k <= shaders@.len(),
            r@.len() == k,
            forall|m: int|
                0 <= m < k ==> {
                    let j = #[trigger] r@[m] as int;
                    &&& 0 <= j <= m
                    &&& shaders@[j]@ == shaders@[m]@
                    &&& forall|i: int| 0 <= i < j ==> shaders@[i]@ != shaders@[m]@
                },
        decreases shaders@.len() - k,
    {
        let mut j: usize = 0;
        while !(shaders[j] == shaders[k])
            invariant
                k < shaders@.len(),
                j <= k,
                forall|i: int| 0 <= i < j ==> shaders@[i]@ != shaders@[k as int]@,
            decreases k - j,
        {
            j = j + 1;
        }
        r.push(j);
        k = k + 1;
    }
    r
}

} // verus!
