//! What holds of every layout: the requests stay inside the rectangle, keep
//! clear of each other, are told apart by their identities, and leave over
//! only what the division drops at each split.

use vstd::prelude::*;
use crate::geometry::{lemma_part_fits, lemma_parts_fit, Axis, Rect};
use crate::layout::{arrange, arrange_first, Address, Placement};
use crate::tree::{DisplayNode, Tree};

verus! {

/// The summed extents along `axis` of the first `k` of the `n` parts of `rect`.
pub open spec fn parts_extent(rect: Rect, axis: Axis, n: int, k: nat) -> int
    decreases k,
{
    if k == 0 {
        0
    } else {
        parts_extent(rect, axis, n, (k - 1) as nat) + rect.part(axis, n, k - 1).extent(axis)
    }
}

/// Every placement of `ps` is a valid rectangle inside `rect`, and its
/// identity is of `monitor` and lies at or below `path`.
pub open spec fn confined(ps: Seq<Placement>, rect: Rect, monitor: u32, path: Seq<nat>) -> bool {
    forall|i: int|
        0 <= i < ps.len() ==> {
            &&& (#[trigger] ps[i]).rectangle.valid()
            &&& ps[i].rectangle.within(rect)
            &&& ps[i].identity.monitor == monitor
            &&& path.is_prefix_of(ps[i].identity.path)
        }
}

/// No two placements of `ps` overlap, and no two share an identity.
pub open spec fn separate(ps: Seq<Placement>) -> bool {
    forall|i: int, j: int|
        0 <= i < j < ps.len() ==> {
            &&& (#[trigger] ps[i]).rectangle.disjoint((#[trigger] ps[j]).rectangle)
            &&& ps[i].identity != ps[j].identity
        }
}

/// The parts of a split follow each other from the origin of the rectangle,
/// each `extent / n` long and as wide across as the rectangle; together they
/// are no longer than the rectangle and miss fewer than `n` pixels of it.
pub proof fn lemma_split_tiles(rect: Rect, axis: Axis, n: int)
    requires
        rect.valid(),
        n >= 1,
    ensures
        forall|i: int|
            0 <= i < n ==> {
                &&& (#[trigger] rect.part(axis, n, i)).extent(axis) == rect.extent(axis) / n
                &&& rect.part(axis, n, i).origin(axis) == rect.origin(axis) + parts_extent(
                    rect,
                    axis,
                    n,
                    i as nat,
                )
                &&& match axis {
                    Axis::Horizontal => rect.part(axis, n, i).y == rect.y && rect.part(
                        axis,
                        n,
                        i,
                    ).height == rect.height,
                    Axis::Vertical => rect.part(axis, n, i).x == rect.x && rect.part(
                        axis,
                        n,
                        i,
                    ).width == rect.width,
                }
            },
        parts_extent(rect, axis, n, n as nat) <= rect.extent(axis),
        rect.extent(axis) - parts_extent(rect, axis, n, n as nat) < n,
{
    assert forall|i: int| 0 <= i < n implies {
        &&& (#[trigger] rect.part(axis, n, i)).extent(axis) == rect.extent(axis) / n
        &&& rect.part(axis, n, i).origin(axis) == rect.origin(axis) + parts_extent(
            rect,
            axis,
            n,
            i as nat,
        )
        &&& match axis {
            Axis::Horizontal => rect.part(axis, n, i).y == rect.y && rect.part(axis, n, i).height
                == rect.height,
            Axis::Vertical => rect.part(axis, n, i).x == rect.x && rect.part(axis, n, i).width
                == rect.width,
        }
    } by {
        lemma_part_fits(rect, axis, n, i);
        lemma_parts_extent(rect, axis, n, i as nat);
    }
    lemma_parts_extent(rect, axis, n, n as nat);
    lemma_parts_fit(rect.extent(axis), n, 0);
}

/// The first `k` parts are together `k` times as long as one.
proof fn lemma_parts_extent(rect: Rect, axis: Axis, n: int, k: nat)
    requires
        rect.valid(),
        k <= n,
    ensures
        parts_extent(rect, axis, n, k) == k * (rect.extent(axis) / n),
    decreases k,
{
    let q = rect.extent(axis) / n;
    if k > 0 {
        lemma_parts_extent(rect, axis, n, (k - 1) as nat);
        lemma_part_fits(rect, axis, n, k - 1);
        assert((k - 1) * q + q == k * q) by (nonlinear_arith);
    } else {
        assert(0 * q == 0);
    }
}

/// The layout of a valid tree over a valid rectangle has one placement per
/// content leaf; each lies inside the rectangle and is named by the given
/// monitor and a path below the given one; no two overlap, and no two carry
/// the same identity.
pub proof fn lemma_arrange_tiles(tree: Tree, rect: Rect, monitor: u32, path: Seq<nat>)
    requires
        tree.valid(),
        rect.valid(),
    ensures
        arrange(tree, rect, monitor, path).len() == tree.leaves(),
        confined(arrange(tree, rect, monitor, path), rect, monitor, path),
        separate(arrange(tree, rect, monitor, path)),
    decreases tree,
{
    match tree {
        Tree::Content { .. } => {},
        Tree::Split { axis, children } => {
            lemma_arrange_first_tiles(children, axis, rect, monitor, path, children.len());
        },
    }
}

/// The same of the first `k` children of a split, which moreover end before
/// the `k`-th part begins and are named by paths that go on with an index
/// below `k`.
proof fn lemma_arrange_first_tiles(
    children: Seq<Tree>,
    axis: Axis,
    rect: Rect,
    monitor: u32,
    path: Seq<nat>,
    k: nat,
)
    requires
        k <= children.len(),
        forall|i: int| 0 <= i < children.len() ==> (#[trigger] children[i]).valid(),
        rect.valid(),
    ensures
        arrange_first(children, axis, rect, monitor, path, k).len() == Tree::leaves_of(
            children,
            k,
        ),
        confined(arrange_first(children, axis, rect, monitor, path, k), rect, monitor, path),
        separate(arrange_first(children, axis, rect, monitor, path, k)),
        forall|i: int|
            0 <= i < arrange_first(children, axis, rect, monitor, path, k).len() ==> {
                let p = #[trigger] arrange_first(children, axis, rect, monitor, path, k)[i];
                &&& p.rectangle.origin(axis) + p.rectangle.extent(axis) <= rect.origin(axis) + k
                    * (rect.extent(axis) / children.len() as int)
                &&& p.identity.path.len() > path.len()
                &&& p.identity.path[path.len() as int] < k
            },
    decreases children, k,
{
    if k > 0 {
        let n = children.len() as int;
        let q = rect.extent(axis) / n;
        let part = rect.part(axis, n, k - 1);
        let below = path.push((k - 1) as nat);
        let earlier = arrange_first(children, axis, rect, monitor, path, (k - 1) as nat);
        let last = arrange(children[k - 1], part, monitor, below);
        let all = arrange_first(children, axis, rect, monitor, path, k);
        assert(all == earlier + last);
        lemma_arrange_first_tiles(children, axis, rect, monitor, path, (k - 1) as nat);
        lemma_part_fits(rect, axis, n, k - 1);
        lemma_arrange_tiles(children[k - 1], part, monitor, below);
        assert((k - 1) * q + q == k * q) by (nonlinear_arith);
        assert forall|i: int| 0 <= i < last.len() implies {
            let p = #[trigger] last[i];
            &&& p.rectangle.valid()
            &&& p.rectangle.within(rect)
            &&& p.identity.monitor == monitor
            &&& path.is_prefix_of(p.identity.path)
            &&& rect.origin(axis) + (k - 1) * q <= p.rectangle.origin(axis)
            &&& p.rectangle.origin(axis) + p.rectangle.extent(axis) <= rect.origin(axis) + k * q
            &&& p.identity.path.len() > path.len()
            &&& p.identity.path[path.len() as int] == k - 1
        } by {
            let p = last[i];
            assert(below.is_prefix_of(p.identity.path));
            assert(p.identity.path.subrange(0, below.len() as int) == below);
            assert(below[path.len() as int] == k - 1);
            assert(p.identity.path[path.len() as int] == p.identity.path.subrange(
                0,
                below.len() as int,
            )[path.len() as int]);
            assert(path =~= p.identity.path.subrange(0, path.len() as int)) by {
                assert(path =~= below.subrange(0, path.len() as int));
            }
        }
        assert forall|i: int| 0 <= i < all.len() implies {
            let p = #[trigger] all[i];
            &&& p.rectangle.valid()
            &&& p.rectangle.within(rect)
            &&& p.identity.monitor == monitor
            &&& path.is_prefix_of(p.identity.path)
            &&& p.rectangle.origin(axis) + p.rectangle.extent(axis) <= rect.origin(axis) + k * q
            &&& p.identity.path.len() > path.len()
            &&& p.identity.path[path.len() as int] < k
        } by {
            if i < earlier.len() {
                assert(all[i] == earlier[i]);
                assert((k - 1) * q <= k * q) by (nonlinear_arith)
                    requires
                        q >= 0,
                ;
            } else {
                assert(all[i] == last[i - earlier.len()]);
            }
        }
        assert forall|i: int, j: int| 0 <= i < j < all.len() implies {
            &&& (#[trigger] all[i]).rectangle.disjoint((#[trigger] all[j]).rectangle)
            &&& all[i].identity != all[j].identity
        } by {
            if j < earlier.len() {
                assert(all[i] == earlier[i]);
                assert(all[j] == earlier[j]);
            } else if i < earlier.len() {
                assert(all[i] == earlier[i]);
                assert(all[j] == last[j - earlier.len()]);
                assert(earlier[i].identity.path[path.len() as int] < k - 1);
                assert(last[j - earlier.len()].identity.path[path.len() as int] == k - 1);
            } else {
                assert(all[i] == last[i - earlier.len()]);
                assert(all[j] == last[j - earlier.len()]);
            }
        }
    } else {
        assert(0 * (rect.extent(axis) / children.len() as int) == 0);
    }
}

/// The children of `children` are all leaves.
pub open spec fn all_leaves(children: Seq<Tree>) -> bool {
    forall|i: int| 0 <= i < children.len() ==> (#[trigger] children[i]) is Content
}

/// A split of leaves yields its parts: the `i`-th request shows the `i`-th
/// leaf in the `i`-th part of the rectangle, and is named by the path of the
/// split followed by `i`.
pub proof fn lemma_flat_split(
    axis: Axis,
    children: Seq<Tree>,
    rect: Rect,
    monitor: u32,
    path: Seq<nat>,
)
    requires
        all_leaves(children),
    ensures
        arrange(Tree::Split { axis, children }, rect, monitor, path).len() == children.len(),
        forall|i: int|
            0 <= i < children.len() ==> (#[trigger] arrange(
                Tree::Split { axis, children },
                rect,
                monitor,
                path,
            )[i]) == (Placement {
                content: children[i]->reference,
                rectangle: rect.part(axis, children.len() as int, i),
                identity: Address { monitor, path: path.push(i as nat) },
            }),
{
    lemma_flat_first(axis, children, rect, monitor, path, children.len());
}

/// The same of the first `k` leaves.
proof fn lemma_flat_first(
    axis: Axis,
    children: Seq<Tree>,
    rect: Rect,
    monitor: u32,
    path: Seq<nat>,
    k: nat,
)
    requires
        all_leaves(children),
        k <= children.len(),
    ensures
        arrange_first(children, axis, rect, monitor, path, k).len() == k,
        forall|i: int|
            0 <= i < k ==> (#[trigger] arrange_first(children, axis, rect, monitor, path, k)[i])
                == (Placement {
                content: children[i]->reference,
                rectangle: rect.part(axis, children.len() as int, i),
                identity: Address { monitor, path: path.push(i as nat) },
            }),
    decreases k,
{
    if k > 0 {
        lemma_flat_first(axis, children, rect, monitor, path, (k - 1) as nat);
        let earlier = arrange_first(children, axis, rect, monitor, path, (k - 1) as nat);
        let part = rect.part(axis, children.len() as int, k - 1);
        let last = arrange(children[k - 1], part, monitor, path.push((k - 1) as nat));
        let all = arrange_first(children, axis, rect, monitor, path, k);
        assert(children[k - 1] is Content);
        assert(last.len() == 1);
        assert(all == earlier + last);
        assert forall|i: int| 0 <= i < k implies (#[trigger] all[i]) == (Placement {
            content: children[i]->reference,
            rectangle: rect.part(axis, children.len() as int, i),
            identity: Address { monitor, path: path.push(i as nat) },
        }) by {
            if i < k - 1 {
                assert(all[i] == earlier[i]);
            } else {
                assert(all[i] == last[0]);
            }
        }
    }
}

/// A split without children makes a tree invalid, wherever in the tree it
/// stands: directly, or as one of the children of a split.
pub proof fn lemma_childless_split_invalid(axis: Axis, outer: Axis, siblings: Seq<Tree>, at: int)
    requires
        0 <= at < siblings.len(),
        siblings[at] == (Tree::Split { axis, children: Seq::empty() }),
    ensures
        !(Tree::Split { axis, children: Seq::empty() }).valid(),
        !(Tree::Split { axis: outer, children: siblings }).valid(),
{
    assert(!siblings[at].valid());
}

/// Layout depends on nothing but the value of the tree, the rectangle, the
/// monitor and the path: display nodes with the same value are valid together
/// and yield the same placements.
pub proof fn lemma_layout_deterministic(
    first: DisplayNode,
    second: DisplayNode,
    rect: Rect,
    monitor: u32,
    path: Seq<nat>,
)
    requires
        first@ == second@,
    ensures
        first@.valid() == second@.valid(),
        arrange(first@, rect, monitor, path) == arrange(second@, rect, monitor, path),
{
}

} // verus!
