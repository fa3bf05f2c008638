//! Rectangles in logical pixels and their equal subdivision along one axis.

use vstd::prelude::*;

verus! {

/// The direction along which a split lines up its children.
#[derive(Clone, Copy, Debug, PartialEq, Eq, Structural)]
pub enum Axis {
    /// Children sit side by side, left to right; the width is divided.
    Horizontal,
    /// Children are stacked top to bottom; the height is divided.
    Vertical,
}

/// An axis-aligned rectangle: origin `(x, y)` and extent `width` by `height`.
#[derive(Clone, Copy, Debug, PartialEq, Eq, Structural)]
pub struct Rect {
    pub x: i32,
    pub y: i32,
    pub width: i32,
    pub height: i32,
}

impl Axis {
    /// The axis of a split that is written down as "vertical or not".
    pub fn of_vertical(vertical: bool) -> (axis: Axis)
        ensures
            axis == (if vertical {
                Axis::Vertical
            } else {
                Axis::Horizontal
            }),
    {
        if vertical {
            Axis::Vertical
        } else {
            Axis::Horizontal
        }
    }

    /// Whether children are stacked top to bottom.
    pub fn is_vertical(&self) -> (vertical: bool)
        ensures
            vertical == (*self == Axis::Vertical),
    {
        match self {
            Axis::Vertical => true,
            Axis::Horizontal => false,
        }
    }
}

impl Rect {
    /// A rectangle that layout can subdivide: no negative extent, and the far
    /// edges are representable coordinates.
    pub open spec fn valid(self) -> bool {
        &&& self.width >= 0
        &&& self.height >= 0
        &&& self.x + self.width <= i32::MAX
        &&& self.y + self.height <= i32::MAX
    }

    /// The extent of the rectangle along `axis`.
    pub open spec fn extent(self, axis: Axis) -> int {
        match axis {
            Axis::Horizontal => self.width as int,
            Axis::Vertical => self.height as int,
        }
    }

    /// The origin coordinate of the rectangle along `axis`.
    pub open spec fn origin(self, axis: Axis) -> int {
        match axis {
            Axis::Horizontal => self.x as int,
            Axis::Vertical => self.y as int,
        }
    }

    /// Every point of `self` is a point of `outer`.
    pub open spec fn within(self, outer: Rect) -> bool {
        &&& outer.x <= self.x
        &&& outer.y <= self.y
        &&& self.x + self.width <= outer.x + outer.width
        &&& self.y + self.height <= outer.y + outer.height
    }

    /// The two rectangles share no point of positive area.
    pub open spec fn disjoint(self, other: Rect) -> bool {
        ||| self.x + self.width <= other.x
        ||| other.x + other.width <= self.x
        ||| self.y + self.height <= other.y
        ||| other.y + other.height <= self.y
    }

    /// The `i`-th of `n` equal parts of `self` along `axis`. Each part is
    /// `extent / n` long, rounded down; the parts start at the origin and
    /// follow each other without gaps, so what the division leaves over lies
    /// unassigned at the far edge.
    pub open spec fn part(self, axis: Axis, n: int, i: int) -> Rect {
        match axis {
            Axis::Horizontal => Rect {
                x: (self.x + i * (self.width as int / n)) as i32,
                y: self.y,
                width: (self.width as int / n) as i32,
                height: self.height,
            },
            Axis::Vertical => Rect {
                x: self.x,
                y: (self.y + i * (self.height as int / n)) as i32,
                width: self.width,
                height: (self.height as int / n) as i32,
            },
        }
    }

    pub fn new(x: i32, y: i32, width: i32, height: i32) -> (r: Rect)
        ensures
            r == (Rect { x, y, width, height }),
    {
        Rect { x, y, width, height }
    }

    /// Decides `valid`.
    pub fn is_valid(&self) -> (b: bool)
        ensures
            b == self.valid(),
    {
        self.width >= 0 && self.height >= 0 && self.x as i64 + self.width as i64 <= i32::MAX as i64
            && self.y as i64 + self.height as i64 <= i32::MAX as i64
    }

    /// Decides `within`.
    pub fn is_within(&self, outer: &Rect) -> (b: bool)
        ensures
            b == self.within(*outer),
    {
        outer.x <= self.x && outer.y <= self.y && self.x as i64 + self.width as i64 <= outer.x as i64
            + outer.width as i64 && self.y as i64 + self.height as i64 <= outer.y as i64
            + outer.height as i64
    }

    /// Cuts the `i`-th of `n` equal parts out of `self` along `axis`.
    pub fn split(&self, axis: Axis, n: usize, i: usize) -> (r: Rect)
        requires
            self.valid(),
            i < n,
        ensures
            r == self.part(axis, n as int, i as int),
            r.valid(),
            r.within(*self),
    {
        proof {
            lemma_part_fits(*self, axis, n as int, i as int);
        }
        match axis {
            Axis::Horizontal => {
                let step: u64 = self.width as u64 / n as u64;
                assert(i as int * (self.width as int / n as int) <= self.width) by {
                    lemma_parts_fit(self.width as int, n as int, i as int);
                }
                let offset: u64 = i as u64 * step;
                Rect {
                    x: (self.x as i64 + offset as i64) as i32,
                    y: self.y,
                    width: step as i32,
                    height: self.height,
                }
            },
            Axis::Vertical => {
                let step: u64 = self.height as u64 / n as u64;
                assert(i as int * (self.height as int / n as int) <= self.height) by {
                    lemma_parts_fit(self.height as int, n as int, i as int);
                }
                let offset: u64 = i as u64 * step;
                Rect {
                    x: self.x,
                    y: (self.y as i64 + offset as i64) as i32,
                    width: self.width,
                    height: step as i32,
                }
            },
        }
    }
}

/// With `q = extent / n`, the first `i + 1` parts end inside the extent, and
/// all `n` parts together miss fewer than `n` pixels of it.
pub proof fn lemma_parts_fit(extent: int, n: int, i: int)
    requires
        extent >= 0,
        0 <= i < n,
    ensures
        0 <= extent / n <= extent,
        0 <= i * (extent / n),
        i * (extent / n) + extent / n <= extent,
        n * (extent / n) <= extent,
        extent - n * (extent / n) < n,
{
    let q = extent / n;
    assert(extent == n * q + extent % n && 0 <= extent % n < n) by (nonlinear_arith)
        requires
            n > 0,
            q == extent / n,
    ;
    assert(0 <= q) by (nonlinear_arith)
        requires
            n > 0,
            extent >= 0,
            q == extent / n,
    ;
    assert(0 <= i * q && (i + 1) * q <= n * q && (i + 1) * q == i * q + q) by (nonlinear_arith)
        requires
            0 <= i < n,
            0 <= q,
    ;
    assert(q <= n * q) by (nonlinear_arith)
        requires
            n >= 1,
            0 <= q,
    ;
}

/// A part of a valid rectangle is itself valid and lies within it.
pub proof fn lemma_part_fits(rect: Rect, axis: Axis, n: int, i: int)
    requires
        rect.valid(),
        0 <= i < n,
    ensures
        rect.part(axis, n, i).valid(),
        rect.part(axis, n, i).within(rect),
        rect.part(axis, n, i).extent(axis) == rect.extent(axis) / n,
        rect.part(axis, n, i).origin(axis) == rect.origin(axis) + i * (rect.extent(axis) / n),
{
    lemma_parts_fit(rect.extent(axis), n, i);
}

} // verus!
