//! Geometry primitives: axis-aligned integer rectangles and borders.
use vstd::prelude::*;

verus! {

/// Whether an integer is representable as an `i32`.
pub open spec fn fits_i32(v: int) -> bool {
    i32::MIN <= v <= i32::MAX
}

/// Integer division rounding toward zero (the semantics of `/` on Rust's
/// signed integers), for a positive divisor.
pub open spec fn div_trunc(a: int, b: int) -> int
    recommends
        b > 0,
{
    if a >= 0 {
        a / b
    } else {
        -((-a) / b)
    }
}

pub open spec fn max_int(a: int, b: int) -> int {
    if a >= b { a } else { b }
}

pub open spec fn min_int(a: int, b: int) -> int {
    if a <= b { a } else { b }
}

pub(crate) fn max_i32(a: i32, b: i32) -> (r: i32)
    ensures
        r == max_int(a as int, b as int),
{
    if a >= b { a } else { b }
}

pub(crate) fn min_i32(a: i32, b: i32) -> (r: i32)
    ensures
        r == min_int(a as int, b as int),
{
    if a <= b { a } else { b }
}

/// An axis-aligned integer rectangle.
///
/// This is the primary geometry type used throughout the compositor.
/// All coordinates are in layout space (global compositor coordinates).
#[derive(Debug, Clone, Copy, PartialEq, Eq, Structural, Hash, Default)]
pub struct Rect {
    /// Left edge x-coordinate
    pub x: i32,
    /// Top edge y-coordinate
    pub y: i32,
    /// Width in pixels
    pub width: i32,
    /// Height in pixels
    pub height: i32,
}

impl Rect {
    /// The right edge as a mathematical integer.
    pub open spec fn right_spec(self) -> int {
        self.x + self.width
    }

    /// The bottom edge as a mathematical integer.
    pub open spec fn bottom_spec(self) -> int {
        self.y + self.height
    }

    /// The right and bottom edges are representable as `i32`.
    pub open spec fn edges_fit(self) -> bool {
        fits_i32(self.right_spec()) && fits_i32(self.bottom_spec())
    }

    pub open spec fn is_empty_spec(self) -> bool {
        self.width <= 0 || self.height <= 0
    }

    /// `other` lies fully inside `self`.
    pub open spec fn contains_spec(self, other: Rect) -> bool {
        &&& self.x <= other.x
        &&& self.y <= other.y
        &&& self.right_spec() >= other.right_spec()
        &&& self.bottom_spec() >= other.bottom_spec()
    }

    /// The point `(px, py)` lies inside the half-open rectangle.
    pub open spec fn contains_point_spec(self, px: int, py: int) -> bool {
        self.x <= px < self.right_spec() && self.y <= py < self.bottom_spec()
    }

    /// The two rectangles overlap.
    pub open spec fn intersects_spec(self, other: Rect) -> bool {
        &&& self.x < other.right_spec()
        &&& self.right_spec() > other.x
        &&& self.y < other.bottom_spec()
        &&& self.bottom_spec() > other.y
    }

    /// The intersection, with empty results clamped to a zero size.
    pub open spec fn intersection_spec(self, other: Rect) -> Rect {
        let x1 = max_int(self.x as int, other.x as int);
        let y1 = max_int(self.y as int, other.y as int);
        let x2 = min_int(self.right_spec(), other.right_spec());
        let y2 = min_int(self.bottom_spec(), other.bottom_spec());
        Rect {
            x: x1 as i32,
            y: y1 as i32,
            width: max_int(0, x2 - x1) as i32,
            height: max_int(0, y2 - y1) as i32,
        }
    }

    /// The intersection can be computed without leaving the `i32` range.
    pub open spec fn intersection_fits(self, other: Rect) -> bool {
        &&& self.edges_fit()
        &&& other.edges_fit()
        &&& fits_i32(
            min_int(self.right_spec(), other.right_spec()) - max_int(self.x as int, other.x as int),
        )
        &&& fits_i32(
            min_int(self.bottom_spec(), other.bottom_spec()) - max_int(
                self.y as int,
                other.y as int,
            ),
        )
    }

    /// The bounding box of both rectangles.
    pub open spec fn union_spec(self, other: Rect) -> Rect {
        let x = min_int(self.x as int, other.x as int);
        let y = min_int(self.y as int, other.y as int);
        let r = max_int(self.right_spec(), other.right_spec());
        let b = max_int(self.bottom_spec(), other.bottom_spec());
        Rect { x: x as i32, y: y as i32, width: (r - x) as i32, height: (b - y) as i32 }
    }

    pub open spec fn union_fits(self, other: Rect) -> bool {
        &&& self.edges_fit()
        &&& other.edges_fit()
        &&& fits_i32(
            max_int(self.right_spec(), other.right_spec()) - min_int(self.x as int, other.x as int),
        )
        &&& fits_i32(
            max_int(self.bottom_spec(), other.bottom_spec()) - min_int(
                self.y as int,
                other.y as int,
            ),
        )
    }

    /// Create a new rectangle.
    pub fn new(x: i32, y: i32, width: i32, height: i32) -> (r: Rect)
        ensures
            r == (Rect { x, y, width, height }),
    {
        Rect { x, y, width, height }
    }

    /// Returns `true` if either dimension is at most 0.
    pub fn is_empty(&self) -> (b: bool)
        ensures
            b == self.is_empty_spec(),
    {
        self.width <= 0 || self.height <= 0
    }

    /// The right edge (x + width).
    pub fn right(&self) -> (r: i32)
        requires
            fits_i32(self.right_spec()),
        ensures
            r == self.right_spec(),
    {
        self.x + self.width
    }

    /// The bottom edge (y + height).
    pub fn bottom(&self) -> (b: i32)
        requires
            fits_i32(self.bottom_spec()),
        ensures
            b == self.bottom_spec(),
    {
        self.y + self.height
    }

    /// Center point of the rectangle (halves rounded toward zero).
    pub fn center(&self) -> (c: (i32, i32))
        requires
            fits_i32(self.x + div_trunc(self.width as int, 2)),
            fits_i32(self.y + div_trunc(self.height as int, 2)),
        ensures
            c.0 == self.x + div_trunc(self.width as int, 2),
            c.1 == self.y + div_trunc(self.height as int, 2),
    {
        (self.x + self.width / 2, self.y + self.height / 2)
    }

    /// Returns `true` if `other` is fully inside `self`.
    pub fn contains(&self, other: &Rect) -> (b: bool)
        requires
            self.edges_fit(),
            other.edges_fit(),
        ensures
            b == self.contains_spec(*other),
    {
        self.x <= other.x && self.y <= other.y && self.right() >= other.right() && self.bottom()
            >= other.bottom()
    }

    /// Returns `true` if a point is inside the rectangle.
    pub fn contains_point(&self, px: i32, py: i32) -> (b: bool)
        requires
            self.edges_fit(),
        ensures
            b == self.contains_point_spec(px as int, py as int),
    {
        px >= self.x && px < self.right() && py >= self.y && py < self.bottom()
    }

    /// Returns `true` if the rectangles overlap.
    pub fn intersects(&self, other: &Rect) -> (b: bool)
        requires
            self.edges_fit(),
            other.edges_fit(),
        ensures
            b == self.intersects_spec(*other),
    {
        self.x < other.right() && self.right() > other.x && self.y < other.bottom()
            && self.bottom() > other.y
    }

    /// Compute the intersection of two rectangles.
    pub fn intersection(&self, other: &Rect) -> (r: Rect)
        requires
            self.intersection_fits(*other),
        ensures
            r == self.intersection_spec(*other),
    {
        let x1 = max_i32(self.x, other.x);
        let y1 = max_i32(self.y, other.y);
        let x2 = min_i32(self.right(), other.right());
        let y2 = min_i32(self.bottom(), other.bottom());
        Rect::new(x1, y1, max_i32(0, x2 - x1), max_i32(0, y2 - y1))
    }

    /// Compute the bounding box of two rectangles.
    pub fn union(&self, other: &Rect) -> (r: Rect)
        requires
            self.union_fits(*other),
        ensures
            r == self.union_spec(*other),
    {
        let x = min_i32(self.x, other.x);
        let y = min_i32(self.y, other.y);
        let r = max_i32(self.right(), other.right());
        let b = max_i32(self.bottom(), other.bottom());
        Rect::new(x, y, r - x, b - y)
    }

    /// Center a rectangle of size `(w, h)` within `self`, writing the
    /// position into `(ox, oy)`.
    pub fn center_within(&self, w: i32, h: i32, ox: &mut i32, oy: &mut i32)
        requires
            fits_i32(self.width - w),
            fits_i32(self.height - h),
            fits_i32(self.x + div_trunc(self.width - w, 2)),
            fits_i32(self.y + div_trunc(self.height - h, 2)),
        ensures
            *final(ox) == self.x + div_trunc(self.width - w, 2),
            *final(oy) == self.y + div_trunc(self.height - h, 2),
    {
        *ox = self.x + (self.width - w) / 2;
        *oy = self.y + (self.height - h) / 2;
    }
}

/// A border with independent thickness on each side.
///
/// Used for SSD margins, window borders, and gap calculations.
#[derive(Debug, Clone, Copy, PartialEq, Eq, Structural, Default)]
pub struct Border {
    /// Left side thickness in pixels
    pub left: i32,
    /// Right side thickness in pixels
    pub right: i32,
    /// Top side thickness in pixels
    pub top: i32,
    /// Bottom side thickness in pixels
    pub bottom: i32,
}

impl Border {
    pub open spec fn horizontal_spec(self) -> int {
        self.left + self.right
    }

    pub open spec fn vertical_spec(self) -> int {
        self.top + self.bottom
    }

    /// The rectangle shrunk by this border, sizes clamped at zero.
    pub open spec fn inset_spec(self, r: Rect) -> Rect {
        Rect {
            x: (r.x + self.left) as i32,
            y: (r.y + self.top) as i32,
            width: max_int(0, r.width - self.horizontal_spec()) as i32,
            height: max_int(0, r.height - self.vertical_spec()) as i32,
        }
    }

    pub open spec fn inset_fits(self, r: Rect) -> bool {
        &&& fits_i32(self.horizontal_spec())
        &&& fits_i32(self.vertical_spec())
        &&& fits_i32(r.x + self.left)
        &&& fits_i32(r.y + self.top)
        &&& fits_i32(r.width - self.horizontal_spec())
        &&& fits_i32(r.height - self.vertical_spec())
    }

    /// The rectangle grown by this border.
    pub open spec fn outset_spec(self, r: Rect) -> Rect {
        Rect {
            x: (r.x - self.left) as i32,
            y: (r.y - self.top) as i32,
            width: (r.width + self.horizontal_spec()) as i32,
            height: (r.height + self.vertical_spec()) as i32,
        }
    }

    pub open spec fn outset_fits(self, r: Rect) -> bool {
        &&& fits_i32(self.horizontal_spec())
        &&& fits_i32(self.vertical_spec())
        &&& fits_i32(r.x - self.left)
        &&& fits_i32(r.y - self.top)
        &&& fits_i32(r.width + self.horizontal_spec())
        &&& fits_i32(r.height + self.vertical_spec())
    }

    /// Uniform border of `n` pixels on all sides.
    pub fn uniform(n: i32) -> (b: Border)
        ensures
            b == (Border { left: n, right: n, top: n, bottom: n }),
    {
        Border { left: n, right: n, top: n, bottom: n }
    }

    /// Horizontal total (left + right).
    pub fn horizontal(&self) -> (h: i32)
        requires
            fits_i32(self.horizontal_spec()),
        ensures
            h == self.horizontal_spec(),
    {
        self.left + self.right
    }

    /// Vertical total (top + bottom).
    pub fn vertical(&self) -> (v: i32)
        requires
            fits_i32(self.vertical_spec()),
        ensures
            v == self.vertical_spec(),
    {
        self.top + self.bottom
    }

    /// Shrink a rectangle by this border (inset).
    pub fn inset_rect(&self, r: &Rect) -> (out: Rect)
        requires
            self.inset_fits(*r),
        ensures
            out == self.inset_spec(*r),
    {
        Rect::new(
            r.x + self.left,
            r.y + self.top,
            max_i32(0, r.width - self.horizontal()),
            max_i32(0, r.height - self.vertical()),
        )
    }

    /// Expand a rectangle by this border (outset).
    pub fn outset_rect(&self, r: &Rect) -> (out: Rect)
        requires
            self.outset_fits(*r),
        ensures
            out == self.outset_spec(*r),
    {
        Rect::new(
            r.x - self.left,
            r.y - self.top,
            r.width + self.horizontal(),
            r.height + self.vertical(),
        )
    }
}

/// Intersection does not depend on the order of its operands.
pub proof fn lemma_intersection_commutes(a: Rect, b: Rect)
    ensures
        a.intersection_spec(b) == b.intersection_spec(a),
{
}

/// For rectangles of positive size, two rectangles overlap exactly when
/// their intersection is not empty.
pub proof fn lemma_intersects_iff_nonempty_intersection(a: Rect, b: Rect)
    requires
        !a.is_empty_spec(),
        !b.is_empty_spec(),
        a.intersection_fits(b),
    ensures
        a.intersects_spec(b) <==> !a.intersection_spec(b).is_empty_spec(),
{
}

/// A rectangle contains every rectangle that it contains fully, and its
/// intersection with such a rectangle is that rectangle (when non-empty).
pub proof fn lemma_intersection_of_contained(a: Rect, b: Rect)
    requires
        a.contains_spec(b),
        b.width >= 0,
        b.height >= 0,
        a.intersection_fits(b),
    ensures
        a.intersection_spec(b) == b,
{
}

/// The union (bounding box) contains both of its operands.
pub proof fn lemma_union_contains_both(a: Rect, b: Rect)
    requires
        a.union_fits(b),
    ensures
        a.union_spec(b).contains_spec(a),
        a.union_spec(b).contains_spec(b),
{
}

/// A point inside both rectangles is inside their intersection.
pub proof fn lemma_point_in_intersection(a: Rect, b: Rect, px: int, py: int)
    requires
        a.contains_point_spec(px, py),
        b.contains_point_spec(px, py),
        a.intersection_fits(b),
    ensures
        a.intersection_spec(b).contains_point_spec(px, py),
{
}

/// Growing a rectangle by a border undoes shrinking it by the same border,
/// provided the rectangle was large enough that no size was clamped.
pub proof fn lemma_outset_undoes_inset(bd: Border, r: Rect)
    requires
        bd.inset_fits(r),
        r.width >= bd.horizontal_spec(),
        r.height >= bd.vertical_spec(),
    ensures
        bd.outset_fits(bd.inset_spec(r)),
        bd.outset_spec(bd.inset_spec(r)) == r,
{
}

} // verus!
