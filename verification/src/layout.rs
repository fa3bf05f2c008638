//! The layout engine: from a display tree and a rectangle to one placement
//! request per content leaf.

use vstd::prelude::*;
use crate::error::LayoutError;
use crate::geometry::{Axis, Rect};
use crate::tree::{DisplayNode, Tree};

verus! {

/// The mathematical value of an `Identity`: the monitor and the child indices
/// that lead from the root of its tree to the leaf.
pub struct Address {
    pub monitor: u32,
    pub path: Seq<nat>,
}

/// Names one content leaf across the whole run: the monitor whose tree holds
/// it, and the position of the leaf in that tree as the child index taken at
/// each split on the way down.
#[derive(Clone, Debug, PartialEq, Eq, Hash)]
pub struct Identity {
    pub monitor: u32,
    pub path: Vec<usize>,
}

impl View for Identity {
    type V = Address;

    open spec fn view(&self) -> Address {
        Address { monitor: self.monitor, path: indices(self.path@) }
    }
}

impl Identity {
    /// A second identity of the same value.
    pub fn duplicate(&self) -> (same: Identity)
        ensures
            same@ == self@,
            same.monitor == self.monitor,
            same.path@ == self.path@,
    {
        Identity { monitor: self.monitor, path: copy_path(&self.path) }
    }
}

/// A sequence of machine indices as natural numbers.
pub open spec fn indices(path: Seq<usize>) -> Seq<nat> {
    path.map_values(|i: usize| i as nat)
}

/// The mathematical value of a `PlacementRequest`.
pub struct Placement {
    pub content: Seq<char>,
    pub rectangle: Rect,
    pub identity: Address,
}

/// Asks for a window showing `content` to occupy `rectangle`. `identity`
/// tells the request, and the window made for it, from every other.
#[derive(Clone, Debug, PartialEq, Eq)]
pub struct PlacementRequest {
    pub content: String,
    pub rectangle: Rect,
    pub identity: Identity,
}

impl View for PlacementRequest {
    type V = Placement;

    open spec fn view(&self) -> Placement {
        Placement {
            content: self.content@,
            rectangle: self.rectangle,
            identity: self.identity@,
        }
    }
}

/// The mathematical values of a sequence of requests.
pub open spec fn placements_of(requests: Seq<PlacementRequest>) -> Seq<Placement> {
    requests.map_values(|r: PlacementRequest| r@)
}

/// What laying out `tree` over `rect` yields, for the tree of `monitor` reached
/// from its root by `path`: a leaf takes the whole rectangle; a split hands
/// each child its equal part and yields the children's placements in child
/// order.
pub open spec fn arrange(tree: Tree, rect: Rect, monitor: u32, path: Seq<nat>) -> Seq<Placement>
    decreases tree,
{
    match tree {
        Tree::Content { reference } => seq![
            Placement { content: reference, rectangle: rect, identity: Address { monitor, path } },
        ],
        Tree::Split { axis, children } => arrange_first(
            children,
            axis,
            rect,
            monitor,
            path,
            children.len(),
        ),
    }
}

/// The placements of the first `k` of the `children` of a split along `axis`
/// over `rect`.
pub open spec fn arrange_first(
    children: Seq<Tree>,
    axis: Axis,
    rect: Rect,
    monitor: u32,
    path: Seq<nat>,
    k: nat,
) -> Seq<Placement>
    decreases children, k,
{
    if k == 0 || k > children.len() {
        Seq::empty()
    } else {
        arrange_first(children, axis, rect, monitor, path, (k - 1) as nat) + arrange(
            children[k - 1],
            rect.part(axis, children.len() as int, k - 1),
            monitor,
            path.push((k - 1) as nat),
        )
    }
}

/// A copy of `path`.
fn copy_path(path: &Vec<usize>) -> (same: Vec<usize>)
    ensures
        same@ == path@,
{
    let mut same: Vec<usize> = Vec::new();
    let mut i: usize = 0;
    while i < path.len()
        invariant
            i <= path.len(),
            same@ == path@.take(i as int),
        decreases path.len() - i,
    {
        same.push(path[i]);
        assert(same@ =~= path@.take(i + 1));
        i += 1;
    }
    assert(path@.take(path.len() as int) =~= path@);
    same
}

/// `path` followed by `index`.
fn descend(path: &Vec<usize>, index: usize) -> (longer: Vec<usize>)
    ensures
        longer@ == path@.push(index),
        indices(longer@) == indices(path@).push(index as nat),
{
    let mut longer = copy_path(path);
    longer.push(index);
    assert(indices(longer@) =~= indices(path@).push(index as nat));
    longer
}

/// Appends the placements of `node` over `rect` to `out`.
fn extend_layout(
    node: &DisplayNode,
    rect: Rect,
    monitor: u32,
    path: &Vec<usize>,
    out: &mut Vec<PlacementRequest>,
)
    requires
        node@.valid(),
        rect.valid(),
    ensures
        placements_of(final(out)@) == placements_of(old(out)@) + arrange(
            node@,
            rect,
            monitor,
            indices(path@),
        ),
    decreases node,
{
    let ghost before = placements_of(out@);
    match node {
        DisplayNode::Content { reference } => {
            let request = PlacementRequest {
                content: reference.clone(),
                rectangle: rect,
                identity: Identity { monitor, path: copy_path(path) },
            };
            out.push(request);
            assert(placements_of(out@) =~= before + seq![request@]);
        },
        DisplayNode::Split { axis, children } => {
            let n = children.len();
            let mut i: usize = 0;
            assert(placements_of(out@) =~= before + Seq::<Placement>::empty());
            while i < n
                invariant
                    i <= n,
                    n == children.len(),
                    rect.valid(),
                    node@.valid(),
                    node matches DisplayNode::Split { axis: a, children: c } && a == axis && c
                        == children,
                    placements_of(out@) == before + arrange_first(
                        node@->children,
                        *axis,
                        rect,
                        monitor,
                        indices(path@),
                        i as nat,
                    ),
                decreases n - i,
            {
                let part = rect.split(*axis, n, i);
                let child_path = descend(path, i);
                assert(node@->children[i as int] == children[i as int]@);
                extend_layout(&children[i], part, monitor, &child_path, out);
                assert(placements_of(out@) =~= before + arrange_first(
                    node@->children,
                    *axis,
                    rect,
                    monitor,
                    indices(path@),
                    (i + 1) as nat,
                ));
                i += 1;
            }
        },
    }
}

/// Lays out the tree `root` of `monitor` over `rect`: one request per content
/// leaf, in the order of the leaves, each with the rectangle its leaf is
/// given and the path to the leaf as its identity. Fails, with no request
/// made, exactly when some split of the tree has no children.
pub fn layout(root: &DisplayNode, rect: Rect, monitor: u32) -> (result: Result<
    Vec<PlacementRequest>,
    LayoutError,
>)
    requires
        rect.valid(),
    ensures
        result is Ok <==> root@.valid(),
        result matches Ok(requests) ==> placements_of(requests@) == arrange(
            root@,
            rect,
            monitor,
            Seq::empty(),
        ),
        result matches Err(e) ==> e == LayoutError::InvalidTree,
{
    if !root.is_valid() {
        return Err(LayoutError::InvalidTree);
    }
    let mut requests: Vec<PlacementRequest> = Vec::new();
    let path: Vec<usize> = Vec::new();
    assert(indices(path@) =~= Seq::<nat>::empty());
    assert(placements_of(requests@) =~= Seq::<Placement>::empty());
    extend_layout(root, rect, monitor, &path, &mut requests);
    assert(Seq::<Placement>::empty() + arrange(root@, rect, monitor, Seq::empty()) =~= arrange(
        root@,
        rect,
        monitor,
        Seq::empty(),
    ));
    Ok(requests)
}

} // verus!
