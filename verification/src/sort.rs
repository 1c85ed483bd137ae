//! Depth sorting of projected splats for front-to-back compositing.

use vstd::prelude::*;

use crate::splat::ProjectedSplat;

verus! {

/// Splats ordered front to back by view-space depth.
pub open spec fn sorted_by_depth(s: Seq<ProjectedSplat>) -> bool {
    forall|i: int, j: int|
        0 <= i <= j < s.len() ==> (#[trigger] s[i]).depth <= (#[trigger] s[j]).depth
}

/// Sorts the projected splats by ascending depth.  The result holds exactly
/// the splats it was given.
pub fn sort_by_depth(projected_splats: &mut Vec<ProjectedSplat>) -> (nothing: ())
    ensures
        sorted_by_depth(final(projected_splats)@),
        final(projected_splats)@.to_multiset() == old(projected_splats)@.to_multiset(),
        final(projected_splats)@.len() == old(projected_splats)@.len(),
        forall|i: int|
            0 <= i < final(projected_splats)@.len() ==> old(projected_splats)@.contains(
                #[trigger] final(projected_splats)@[i],
            ),
{
    broadcast use vstd::seq_lib::group_to_multiset_ensures;

    let n = projected_splats.len();
    let mut i: usize = 1;
    while i < n
        invariant
            1 <= i,
            n == 0 || i <= n,
            n == projected_splats.len(),
            projected_splats@.to_multiset() == old(projected_splats)@.to_multiset(),
            forall|p: int, q: int|
                0 <= p <= q < i ==> (#[trigger] projected_splats@[p]).depth <= (
                #[trigger] projected_splats@[q]).depth,
        decreases n - i,
    {
        let mut j: usize = i;
        while j > 0 && projected_splats[j - 1].depth > projected_splats[j].depth
            invariant
                j <= i < n,
                n == projected_splats.len(),
                projected_splats@.to_multiset() == old(projected_splats)@.to_multiset(),
                forall|p: int, q: int|
                    0 <= p <= q <= i && q != j ==> (#[trigger] projected_splats@[p]).depth <= (
                    #[trigger] projected_splats@[q]).depth,
            decreases j,
        {
            let a = projected_splats[j - 1];
            let b = projected_splats[j];
            let ghost pre = projected_splats@;
            projected_splats.set(j - 1, b);
            projected_splats.set(j, a);
            proof {
                broadcast use vstd::multiset::group_multiset_axioms;
                broadcast use vstd::seq_lib::group_to_multiset_ensures;

                assert(projected_splats@ =~= pre.update(j - 1, b).update(j as int, a));
                vstd::seq_lib::to_multiset_update(pre, j - 1, b);
                vstd::seq_lib::to_multiset_update(pre.update(j - 1, b), j as int, a);
                assert(pre.contains(a)) by {
                    assert(pre[j - 1] == a);
                }
                assert(pre.update(j - 1, b)[j as int] == b);
                assert(pre.to_multiset().count(a) > 0);
                assert forall|x: ProjectedSplat|
                    projected_splats@.to_multiset().count(x) == pre.to_multiset().count(
                    x,
                ) by {
                    broadcast use vstd::multiset::group_multiset_axioms;
                }
                assert(projected_splats@.to_multiset() =~= pre.to_multiset());
            }
            j = j - 1;
        }
        i = i + 1;
    }
    proof {
        assert forall|k: int|
            0 <= k < projected_splats@.len() implies old(projected_splats)@.contains(
            #[trigger] projected_splats@[k],
        ) by {
            assert(projected_splats@.to_multiset().contains(projected_splats@[k]));
        }
    }
}

} // verus!
