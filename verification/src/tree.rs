//! The display tree: what a monitor shows, and how its area is divided.

use vstd::prelude::*;
use crate::geometry::Axis;

verus! {

/// The mathematical tree that a `DisplayNode` stands for.
pub enum Tree {
    Content { reference: Seq<char> },
    Split { axis: Axis, children: Seq<Tree> },
}

impl Tree {
    /// No split of the tree is without children.
    pub open spec fn valid(self) -> bool
        decreases self,
    {
        match self {
            Tree::Content { .. } => true,
            Tree::Split { children, .. } => {
                &&& children.len() >= 1
                &&& forall|i: int| 0 <= i < children.len() ==> (#[trigger] children[i]).valid()
            },
        }
    }

    /// The number of content leaves.
    pub open spec fn leaves(self) -> nat
        decreases self,
    {
        match self {
            Tree::Content { .. } => 1,
            Tree::Split { children, .. } => Self::leaves_of(children, children.len()),
        }
    }

    /// The number of content leaves under the first `k` of `children`.
    pub open spec fn leaves_of(children: Seq<Tree>, k: nat) -> nat
        decreases children, k,
    {
        if k == 0 || k > children.len() {
            0
        } else {
            Self::leaves_of(children, (k - 1) as nat) + children[k - 1].leaves()
        }
    }
}

/// What one region of a monitor shows: a piece of content, or a row or column
/// of further regions.
#[derive(Debug)]
pub enum DisplayNode {
    /// Shows `reference` over the whole region.
    Content { reference: String },
    /// Divides the region into equal parts along `axis`, one per child, in order.
    Split { axis: Axis, children: Vec<DisplayNode> },
}

impl View for DisplayNode {
    type V = Tree;

    open spec fn view(&self) -> Tree
        decreases self,
    {
        match self {
            DisplayNode::Content { reference } => Tree::Content { reference: reference@ },
            DisplayNode::Split { axis, children } => Tree::Split {
                axis: *axis,
                children: Seq::new(
                    children.len() as nat,
                    |i: int|
                        if 0 <= i < children.len() {
                            children[i]@
                        } else {
                            Tree::Content { reference: Seq::empty() }
                        },
                ),
            },
        }
    }
}

impl DisplayNode {
    /// A leaf showing `reference`.
    pub fn content(reference: String) -> (node: DisplayNode)
        ensures
            node@ == (Tree::Content { reference: reference@ }),
    {
        DisplayNode::Content { reference }
    }

    /// Decides whether the tree is free of childless splits.
    pub fn is_valid(&self) -> (b: bool)
        ensures
            b == self@.valid(),
        decreases self,
    {
        match self {
            DisplayNode::Content { .. } => true,
            DisplayNode::Split { children, .. } => {
                if children.len() == 0 {
                    return false;
                }
                let mut i: usize = 0;
                while i < children.len()
                    invariant
                        i <= children.len(),
                        self matches DisplayNode::Split { children: c, .. } && c == children,
                        forall|j: int| 0 <= j < i ==> (#[trigger] self@->children[j]).valid(),
                    decreases children.len() - i,
                {
                    if !children[i].is_valid() {
                        assert(self@->children[i as int] == children[i as int]@);
                        return false;
                    }
                    i += 1;
                }
                true
            },
        }
    }
}

} // verus!
