//! The render queue: meshes queued with their model transforms, handed back
//! front to back (nearest first) for drawing.
//!
//! Distances are given as the bit patterns of binary32 values and ordered by
//! the IEEE 754 order of `crate::depth`.
use vstd::prelude::*;
use crate::depth::{binary32_is_nan, binary32_less, binary32_lt, binary32_rank};

verus! {

/// A queued draw: a mesh and the transform that places it in the world.
#[derive(Clone, Copy)]
pub struct RenderObject<M, X> {
    pub mesh: M,
    pub model: X,
}

/// `order` lists each index below `n` exactly once.
pub open spec fn is_index_permutation(order: Seq<usize>, n: nat) -> bool {
    &&& order.len() == n
    &&& forall|a: int| 0 <= a < n ==> #[trigger] order[a] < n
    &&& forall|a: int, b: int| 0 <= a < b < n ==> order[a] != order[b]
}

/// `order` visits the indices of `distances` nearest first, and keeps the
/// queue order among equal distances: the stable sort by distance.
pub open spec fn is_front_to_back(order: Seq<usize>, distances: Seq<u32>) -> bool {
    &&& is_index_permutation(order, distances.len())
    &&& forall|a: int, b: int|
        0 <= a < b < order.len() ==> !binary32_lt(
            distances[order[b] as int],
            distances[order[a] as int],
        )
    &&& forall|a: int, b: int|
        0 <= a < b < order.len() && !binary32_lt(
            distances[order[a] as int],
            distances[order[b] as int],
        ) ==> order[a] < order[b]
}

/// No distance is NaN.
pub open spec fn all_ordered(distances: Seq<u32>) -> bool {
    forall|i: int| 0 <= i < distances.len() ==> !binary32_is_nan(#[trigger] distances[i])
}

spec fn rank_at(distances: Seq<u32>, order: Seq<usize>, a: int) -> int {
    binary32_rank(distances[order[a] as int])
}

/// The indices of `distances` in front-to-back order: a stable insertion
/// sort by the IEEE 754 order of the distances.
pub fn front_to_back_order(distances: &Vec<u32>) -> (order: Vec<usize>)
    requires
        all_ordered(distances@),
    ensures
        is_front_to_back(order@, distances@),
{
    let ghost d = distances@;
    let n = distances.len();
    let mut order: Vec<usize> = Vec::with_capacity(n);
    let mut i: usize = 0;
    while i < n
        invariant
            n == d.len(),
            d == distances@,
            all_ordered(d),
            i <= n,
            order@.len() == i,
            forall|a: int| 0 <= a < i ==> #[trigger] order@[a] < i,
            forall|a: int, b: int| 0 <= a < b < i ==> order@[a] != order@[b],
            forall|a: int, b: int|
                0 <= a < b < i ==> rank_at(d, order@, a) <= rank_at(d, order@, b),
            forall|a: int, b: int|
                0 <= a < b < i && rank_at(d, order@, a) == rank_at(d, order@, b) ==> order@[a]
                    < order@[b],
        decreases n - i,
    {
        let key = distances[i];
        let mut j: usize = i;
        while j > 0 && binary32_less(key, distances[order[j - 1]])
            invariant
                n == d.len(),
                d == distances@,
                all_ordered(d),
                i < n,
                key == d[i as int],
                order@.len() == i,
                j <= i,
                forall|a: int| 0 <= a < i ==> #[trigger] order@[a] < i,
                forall|m: int|
                    j <= m < i ==> binary32_rank(key) < #[trigger] rank_at(d, order@, m),
            decreases j,
        {
            j = j - 1;
        }
        proof {
            if j > 0 {
                assert(!binary32_lt(key, d[order@[j - 1] as int]));
            }
        }
        let ghost old_order = order@;
        order.insert(j, i);
        proof {
            let o = order@;
            assert(o == old_order.insert(j as int, i));
            assert forall|a: int| 0 <= a < i + 1 implies #[trigger] o[a] < i + 1 by {
                if a > j {
                    assert(o[a] == old_order[a - 1]);
                }
            }
            assert forall|a: int, b: int| 0 <= a < b < i + 1 implies o[a] != o[b] by {
                if b < j {
                } else if b == j {
                    assert(old_order[a] < i);
                } else if a < j {
                    assert(o[b] == old_order[b - 1]);
                } else if a == j {
                    assert(o[b] == old_order[b - 1]);
                    assert(old_order[b - 1] < i);
                } else {
                    assert(o[a] == old_order[a - 1]);
                    assert(o[b] == old_order[b - 1]);
                }
            }
            assert forall|a: int, b: int| 0 <= a < b < i + 1 implies rank_at(d, o, a) <= rank_at(
                d,
                o,
                b,
            ) && (rank_at(d, o, a) == rank_at(d, o, b) ==> o[a] < o[b]) by {
                if b < j {
                    assert(rank_at(d, o, a) == rank_at(d, old_order, a));
                    assert(rank_at(d, o, b) == rank_at(d, old_order, b));
                } else if b == j {
                    assert(rank_at(d, o, a) == rank_at(d, old_order, a));
                    assert(old_order[a] < i);
                    if a < j - 1 {
                        assert(rank_at(d, old_order, a) <= rank_at(d, old_order, j - 1));
                    }
                } else if a < j {
                    assert(rank_at(d, o, a) == rank_at(d, old_order, a));
                    assert(rank_at(d, o, b) == rank_at(d, old_order, b - 1));
                } else if a == j {
                    assert(rank_at(d, o, b) == rank_at(d, old_order, b - 1));
                } else {
                    assert(rank_at(d, o, a) == rank_at(d, old_order, a - 1));
                    assert(rank_at(d, o, b) == rank_at(d, old_order, b - 1));
                }
            }
        }
        i = i + 1;
    }
    proof {
        let o = order@;
        assert forall|a: int, b: int| 0 <= a < b < o.len() implies !binary32_lt(
            d[o[b] as int],
            d[o[a] as int],
        ) by {
            assert(rank_at(d, o, a) <= rank_at(d, o, b));
        }
        assert forall|a: int, b: int|
            0 <= a < b < o.len() && !binary32_lt(d[o[a] as int], d[o[b] as int]) implies o[a]
            < o[b] by {
            assert(rank_at(d, o, a) <= rank_at(d, o, b));
            assert(!binary32_is_nan(d[o[a] as int]));
            assert(!binary32_is_nan(d[o[b] as int]));
        }
    }
    order
}

/// Every index below `n` occurs in a permutation of the indices below `n`.
pub proof fn lemma_index_permutation_covers(order: Seq<usize>, n: nat, x: usize)
    requires
        is_index_permutation(order, n),
        x < n,
    ensures
        exists|p: int| 0 <= p < n && order[p] == x,
{
    let values = order.map_values(|u: usize| u as int);
    assert(values.no_duplicates()) by {
        assert forall|a: int, b: int|
            0 <= a < values.len() && 0 <= b < values.len() && a != b implies values[a]
            != values[b] by {
            if a < b {
                assert(order[a] != order[b]);
            } else {
                assert(order[b] != order[a]);
            }
        }
    }
    values.unique_seq_to_set();
    let range = vstd::set_lib::set_int_range(0, n as int);
    vstd::set_lib::lemma_int_range(0, n as int);
    let set = values.to_set();
    assert(set.subset_of(range)) by {
        assert forall|v: int| set.contains(v) implies range.contains(v) by {
            let p = choose|p: int| 0 <= p < values.len() && values[p] == v;
            assert(order[p] < n);
        }
    }
    vstd::set_lib::lemma_len_subset(set, range);
    vstd::set_lib::lemma_subset_equality(set, range);
    assert(range.contains(x as int));
    assert(set.contains(x as int));
    let p = choose|p: int| 0 <= p < values.len() && values[p] == x as int;
    assert(order[p] == x);
}

/// A front-to-back order starts at a nearest draw and ends at a farthest one:
/// no distance is below the first one's, none above the last one's.
pub proof fn lemma_front_to_back_nearest_first(order: Seq<usize>, distances: Seq<u32>)
    requires
        all_ordered(distances),
        is_front_to_back(order, distances),
        0 < distances.len() <= usize::MAX,
    ensures
        forall|i: int|
            0 <= i < distances.len() ==> !binary32_lt(
                #[trigger] distances[i],
                distances[order[0] as int],
            ) && !binary32_lt(distances[order[order.len() - 1] as int], distances[i]),
{
    assert forall|i: int| 0 <= i < distances.len() implies !binary32_lt(
        #[trigger] distances[i],
        distances[order[0] as int],
    ) && !binary32_lt(distances[order[order.len() - 1] as int], distances[i]) by {
        lemma_index_permutation_covers(order, distances.len(), i as usize);
        let p = choose|p: int| 0 <= p < distances.len() && order[p] == i as usize;
        assert(order[p] as int == i);
        assert(!binary32_is_nan(distances[i]));
        assert(!binary32_is_nan(distances[order[0] as int]));
        assert(!binary32_is_nan(distances[order[order.len() - 1] as int]));
        if p > 0 {
            assert(!binary32_lt(distances[order[p] as int], distances[order[0] as int]));
        }
        if p < order.len() - 1 {
            assert(!binary32_lt(
                distances[order[order.len() - 1] as int],
                distances[order[p] as int],
            ));
        }
    }
}

/// Draws at equal distance keep the order in which they were queued: if
/// queue entry `order[a]` was queued before `order[b]` and neither distance
/// is below the other, then it comes first in the draw order too.
pub proof fn lemma_front_to_back_keeps_queue_order(
    order: Seq<usize>,
    distances: Seq<u32>,
    a: int,
    b: int,
)
    requires
        is_front_to_back(order, distances),
        0 <= a < order.len(),
        0 <= b < order.len(),
        order[a] < order[b],
        !binary32_lt(distances[order[a] as int], distances[order[b] as int]),
        !binary32_lt(distances[order[b] as int], distances[order[a] as int]),
    ensures
        a < b,
{
}

proof fn lemma_front_to_back_prefix_unique(
    first: Seq<usize>,
    second: Seq<usize>,
    distances: Seq<u32>,
    a: int,
)
    requires
        all_ordered(distances),
        is_front_to_back(first, distances),
        is_front_to_back(second, distances),
        0 <= a <= distances.len(),
    ensures
        forall|b: int| 0 <= b < a ==> first[b] == second[b],
    decreases a,
{
    if a > 0 {
        lemma_front_to_back_prefix_unique(first, second, distances, a - 1);
        let n = distances.len();
        let c = a - 1;
        let x = first[c];
        let y = second[c];
        if x != y {
            lemma_index_permutation_covers(first, n, y);
            lemma_index_permutation_covers(second, n, x);
            let q = choose|q: int| 0 <= q < n && first[q] == y;
            let p = choose|p: int| 0 <= p < n && second[p] == x;
            if q < c {
                assert(second[q] == y);
            }
            if p < c {
                assert(first[p] == x);
            }
            assert(c < q && c < p);
            assert(!binary32_is_nan(distances[x as int]));
            assert(!binary32_is_nan(distances[y as int]));
            assert(!binary32_lt(distances[first[q] as int], distances[first[c] as int]));
            assert(!binary32_lt(distances[second[p] as int], distances[second[c] as int]));
            assert(false);
        }
    }
}

/// The front-to-back order of a list of distances that are not NaN is
/// unique: `render` hands back exactly one draw list.
pub proof fn lemma_front_to_back_unique(
    first: Seq<usize>,
    second: Seq<usize>,
    distances: Seq<u32>,
)
    requires
        all_ordered(distances),
        is_front_to_back(first, distances),
        is_front_to_back(second, distances),
    ensures
        first == second,
{
    lemma_front_to_back_prefix_unique(first, second, distances, distances.len() as int);
    assert(first =~= second);
}

/// The queue of meshes waiting to be drawn this frame.
pub struct Renderer<M, X> {
    render_objects: Vec<RenderObject<M, X>>,
}

impl<M, X> Renderer<M, X> {
    /// The queued draws, in the order they were queued.
    pub closed spec fn queue(&self) -> Seq<RenderObject<M, X>> {
        self.render_objects@
    }

    /// An empty queue.
    pub fn new() -> (renderer: Self)
        ensures
            renderer.queue() == Seq::<RenderObject<M, X>>::empty(),
    {
        Renderer { render_objects: Vec::new() }
    }

    /// Queues `mesh`, placed in the world by `model`, behind the draws queued
    /// before it.
    pub fn queue_mesh(&mut self, mesh: M, model: X)
        ensures
            final(self).queue() == old(self).queue().push(RenderObject { mesh, model }),
    {
        self.render_objects.push(RenderObject { mesh, model });
    }

    /// The queued draws, in the order they were queued: the caller measures
    /// each one's distance to the camera from them.
    pub fn queued(&self) -> (objects: &Vec<RenderObject<M, X>>)
        ensures
            objects@ == self.queue(),
    {
        &self.render_objects
    }
}

impl<M: Copy, X: Copy> Renderer<M, X> {
    /// Ends the frame's queue: returns every queued draw exactly once, nearest
    /// first, draws at equal distance in the order they were queued, and
    /// leaves the queue empty. `distances[i]` is the bit pattern of the
    /// distance from the camera of the `i`-th queued draw.
    pub fn render(&mut self, distances: &Vec<u32>) -> (draw_list: Vec<RenderObject<M, X>>)
        requires
            distances@.len() == old(self).queue().len(),
            all_ordered(distances@),
        ensures
            final(self).queue() == Seq::<RenderObject<M, X>>::empty(),
            exists|order: Seq<usize>|
                is_front_to_back(order, distances@) && draw_list@ == order.map_values(
                    |k: usize| old(self).queue()[k as int],
                ),
    {
        let order = front_to_back_order(distances);
        let n = order.len();
        let mut draw_list: Vec<RenderObject<M, X>> = Vec::with_capacity(n);
        let mut k: usize = 0;
        while k < n
            invariant
                n == order@.len(),
                is_front_to_back(order@, distances@),
                distances@.len() == self.render_objects@.len(),
                self.render_objects@ == old(self).queue(),
                k <= n,
                draw_list@ == order@.take(k as int).map_values(
                    |k: usize| old(self).queue()[k as int],
                ),
            decreases n - k,
        {
            let index = order[k];
            draw_list.push(self.render_objects[index]);
            proof {
                assert(order@.take(k + 1) =~= order@.take(k as int).push(index));
                assert(draw_list@ =~= order@.take(k + 1).map_values(
                    |k: usize| old(self).queue()[k as int],
                ));
            }
            k = k + 1;
        }
        proof {
            assert(order@.take(n as int) =~= order@);
        }
        self.render_objects = Vec::new();
        draw_list
    }
}

} // verus!
