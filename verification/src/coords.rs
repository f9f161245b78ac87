//! Points, sizes and axis-aligned rectangles.
//!
//! The types are generic over the scalar; the operations are given for `i32`,
//! which serves both for whole pixels and for sub-pixel units.

use vstd::prelude::*;
use vstd::arithmetic::div_mod::{
    lemma_fundamental_div_mod, lemma_fundamental_div_mod_converse, lemma_mod_bound,
};
use crate::units::{div_toward_zero, trunc_div, UNIT};

verus! {

/// A position in the plane.
#[derive(Clone, Copy, Debug, PartialEq, Eq)]
pub struct Point<T: Copy> {
    pub x: T,
    pub y: T,
}

/// A width and a height.
#[derive(Clone, Copy, Debug, PartialEq, Eq)]
pub struct Dimensions<T: Copy> {
    pub w: T,
    pub h: T,
}

/// A rectangle given by its top left corner and its size. The right and the
/// bottom edge are not part of it.
#[derive(Clone, Copy, Debug, PartialEq, Eq)]
pub struct Rect<T: Copy> {
    pub top_left: Point<T>,
    pub dims: Dimensions<T>,
}

/// A rectangle of whole pixels, or of whole sub-pixel units.
pub type RectI = Rect<i32>;

/// A box given by its centre and its full size.
#[derive(Clone, Copy, Debug, PartialEq, Eq)]
pub struct PhysicalBox {
    pub center: Point<i32>,
    pub dims: Dimensions<i32>,
}

/// Walks the points of a rectangle row by row, from the top left corner.
#[derive(Clone, Copy, Debug, PartialEq, Eq)]
pub struct IterPointRect {
    pub current: Point<i32>,
    pub rect: RectI,
}

impl<T: Copy> From<(T, T)> for Dimensions<T> {
    fn from(pair: (T, T)) -> (d: Dimensions<T>) {
        Dimensions { w: pair.0, h: pair.1 }
    }
}

impl<T: Copy> vstd::std_specs::convert::FromSpecImpl<(T, T)> for Dimensions<T> {
    open spec fn obeys_from_spec() -> bool {
        true
    }

    open spec fn from_spec(pair: (T, T)) -> Dimensions<T> {
        Dimensions { w: pair.0, h: pair.1 }
    }
}

/// `num::cast` from `u32` to `i32`: the same number where an `i32` holds it,
/// and nothing where it does not.
#[verifier::external_body]
fn cast_u32_to_i32(n: u32) -> (r: Option<i32>)
    ensures
        r == (if n <= i32::MAX {
            Some(n as i32)
        } else {
            None::<i32>
        }),
{
    num::cast::<u32, i32>(n)
}

/// Quotient of `a` by a positive `b`, rounded to the nearest whole number,
/// halves away from zero.
pub open spec fn round_div(a: int, b: int) -> int
    recommends
        b > 0,
{
    trunc_div(2 * a + (if a >= 0 { b } else { -b }), 2 * b)
}

impl Dimensions<u32> {
    /// Whether both sides can be held as signed numbers.
    pub open spec fn fits_signed(self) -> bool {
        self.w <= i32::MAX && self.h <= i32::MAX
    }

    /// The same size with signed sides.
    pub fn into_dim(self) -> (d: Dimensions<i32>)
        requires
            self.fits_signed(),
        ensures
            d.w == self.w,
            d.h == self.h,
    {
        let w = cast_u32_to_i32(self.w);
        let h = cast_u32_to_i32(self.h);
        Dimensions { w: w.unwrap(), h: h.unwrap() }
    }

    /// The rectangle of this size with its corner at the origin.
    pub fn into_rect(self) -> (r: RectI)
        requires
            self.fits_signed(),
        ensures
            r.top_left == (Point { x: 0i32, y: 0i32 }),
            r.dims.w == self.w,
            r.dims.h == self.h,
    {
        Rect { top_left: Point { x: 0, y: 0 }, dims: self.into_dim() }
    }
}

impl Dimensions<i32> {
    /// The rectangle of this size with its corner at the origin.
    pub fn into_rect(self) -> (r: RectI)
        ensures
            r == (Rect { top_left: Point { x: 0i32, y: 0i32 }, dims: self }),
    {
        Rect { top_left: Point { x: 0, y: 0 }, dims: self }
    }
}

impl Rect<i32> {
    /// The first row of the rectangle.
    pub open spec fn top(self) -> int {
        self.top_left.y as int
    }

    /// The first column of the rectangle.
    pub open spec fn left(self) -> int {
        self.top_left.x as int
    }

    /// The first row below the rectangle.
    pub open spec fn bottom_excluded(self) -> int {
        self.top_left.y + self.dims.h
    }

    /// The first column to the right of the rectangle.
    pub open spec fn right_excluded(self) -> int {
        self.top_left.x + self.dims.w
    }

    /// Whether the point lies in the rectangle: on or after the left and top
    /// edges, before the right and bottom ones.
    pub open spec fn spec_contains(self, coords: Point<i32>) -> bool {
        &&& self.left() <= coords.x < self.right_excluded()
        &&& self.top() <= coords.y < self.bottom_excluded()
    }

    /// Whether the point lies in the rectangle.
    #[verifier::when_used_as_spec(spec_contains)]
    pub fn contains(self, coords: Point<i32>) -> (inside: bool)
        ensures
            inside == self.spec_contains(coords),
    {
        let right: i64 = self.top_left.x as i64 + self.dims.w as i64;
        let bottom: i64 = self.top_left.y as i64 + self.dims.h as i64;
        self.top_left.x <= coords.x && (coords.x as i64) < right && self.top_left.y <= coords.y && (
        coords.y as i64) < bottom
    }

    /// The pixel rectangle of a box given in sub-pixel units by its centre
    /// and full size: the corner and the size are each rounded to the nearest
    /// pixel, halves away from zero.
    pub open spec fn spec_from_float(pos: Point<i32>, dims: Dimensions<i32>) -> RectI {
        Rect {
            top_left: Point {
                x: round_div(2 * pos.x - dims.w, 2 * UNIT) as i32,
                y: round_div(2 * pos.y - dims.h, 2 * UNIT) as i32,
            },
            dims: Dimensions {
                w: round_div(dims.w as int, UNIT as int) as i32,
                h: round_div(dims.h as int, UNIT as int) as i32,
            },
        }
    }

    /// The pixel rectangle of a box given in sub-pixel units.
    #[verifier::when_used_as_spec(spec_from_float)]
    pub fn from_float(pos: Point<i32>, dims: Dimensions<i32>) -> (r: RectI)
        ensures
            r == Self::spec_from_float(pos, dims),
    {
        let unit: i64 = UNIT as i64;
        Rect {
            top_left: Point {
                x: round_to_pixel(2 * (pos.x as i64) - dims.w as i64, 2 * unit),
                y: round_to_pixel(2 * (pos.y as i64) - dims.h as i64, 2 * unit),
            },
            dims: Dimensions {
                w: round_to_pixel(dims.w as i64, unit),
                h: round_to_pixel(dims.h as i64, unit),
            },
        }
    }

    /// Whether the far edges of the rectangle are coordinates themselves.
    pub open spec fn edges_fit(self) -> bool {
        self.right_excluded() <= i32::MAX && self.bottom_excluded() <= i32::MAX
    }

    /// A walk over the points of the rectangle.
    pub fn iter(self) -> (it: IterPointRect)
        requires
            self.edges_fit(),
        ensures
            it.wf(),
            it.rect == self,
            it.current == self.top_left,
    {
        IterPointRect::with_rect(self)
    }
}

/// Rounds `a / b` to the nearest whole number, for a divisor of one or two units.
fn round_to_pixel(a: i64, b: i64) -> (q: i32)
    requires
        -0x2_0000_0000 <= a <= 0x2_0000_0000,
        1000 <= b <= 2000,
    ensures
        q == round_div(a as int, b as int),
{
    let bias: i128 = if a >= 0 {
        b as i128
    } else {
        -(b as i128)
    };
    let n: i128 = 2 * (a as i128) + bias;
    let d: i128 = 2 * (b as i128);
    assert(n >= 0 ==> 0 <= n / d <= 0x1000_0000) by (nonlinear_arith)
        requires
            n <= 0x8_0000_0000,
            d >= 2000,
    ;
    assert(n < 0 ==> 0 <= (0 - n) / (d as int) <= 0x1000_0000) by (nonlinear_arith)
        requires
            0 - n <= 0x8_0000_0000,
            d >= 2000,
    ;
    let q: i128 = div_toward_zero(n, d);
    q as i32
}

impl IterPointRect {
    /// The walk can step without leaving the coordinates.
    pub open spec fn wf(self) -> bool {
        self.rect.edges_fit()
    }

    /// The point that follows `current`: the next of its row, or the first of
    /// the next row where the row ends.
    pub open spec fn successor(self) -> Point<i32> {
        let right = Point { x: (self.current.x + 1) as i32, y: self.current.y };
        if self.rect.spec_contains(right) {
            right
        } else {
            Point { x: self.rect.top_left.x, y: (self.current.y + 1) as i32 }
        }
    }

    /// A walk over the rectangle, about to hand out its top left corner.
    pub fn with_rect(rect: RectI) -> (it: IterPointRect)
        requires
            rect.edges_fit(),
        ensures
            it.wf(),
            it.rect == rect,
            it.current == rect.top_left,
    {
        IterPointRect { current: rect.top_left, rect }
    }

    /// Hands out the current point and steps to its successor, as long as
    /// the current point lies in the rectangle; after that it hands out
    /// nothing and stays where it is.
    pub fn next(&mut self) -> (item: Option<Point<i32>>)
        requires
            old(self).wf(),
        ensures
            final(self).wf(),
            final(self).rect == old(self).rect,
            old(self).rect.spec_contains(old(self).current) ==> item == Some(old(self).current)
                && final(self).current == old(self).successor(),
            !old(self).rect.spec_contains(old(self).current) ==> item.is_none() && *final(self)
                == *old(self),
    {
        let coords = self.current;
        if !self.rect.contains(coords) {
            return None;
        }
        let right = Point { x: coords.x + 1, y: coords.y };
        if self.rect.contains(right) {
            self.current = right;
        } else {
            self.current = Point { x: self.rect.top_left.x, y: coords.y + 1 };
        }
        Some(coords)
    }
}

impl PhysicalBox {
    /// Whether the point lies in the box: on or after the left and top edges,
    /// before the right and bottom ones. Stated on doubled coordinates, so
    /// that half a side is exact.
    pub open spec fn spec_contains(self, coords: Point<i32>) -> bool {
        &&& 2 * self.center.x - self.dims.w <= 2 * coords.x < 2 * self.center.x + self.dims.w
        &&& 2 * self.center.y - self.dims.h <= 2 * coords.y < 2 * self.center.y + self.dims.h
    }

    /// Whether the point lies in the box.
    #[verifier::when_used_as_spec(spec_contains)]
    pub fn contains(self, coords: Point<i32>) -> (inside: bool)
        ensures
            inside == self.spec_contains(coords),
    {
        let cx: i64 = 2 * (self.center.x as i64);
        let cy: i64 = 2 * (self.center.y as i64);
        let px: i64 = 2 * (coords.x as i64);
        let py: i64 = 2 * (coords.y as i64);
        let w: i64 = self.dims.w as i64;
        let h: i64 = self.dims.h as i64;
        cx - w <= px && px < cx + w && cy - h <= py && py < cy + h
    }
}

/// The point that a walk over the rectangle hands out at step `k`, counted
/// from zero: the rows from the top, each from the left.
pub open spec fn nth_point(rect: RectI, k: int) -> Point<i32>
    recommends
        rect.dims.w > 0,
{
    Point {
        x: (rect.top_left.x + k % (rect.dims.w as int)) as i32,
        y: (rect.top_left.y + k / (rect.dims.w as int)) as i32,
    }
}

/// A walk goes through the rectangle row by row and ends after its last
/// point: every step lies in the rectangle, each is followed by the next, and
/// what follows the last lies outside.
pub proof fn lemma_walk_row_by_row(rect: RectI, k: int)
    requires
        rect.edges_fit(),
        rect.dims.w > 0,
        0 <= k < rect.dims.w * rect.dims.h,
    ensures
        nth_point(rect, 0) == rect.top_left,
        rect.spec_contains(nth_point(rect, k)),
        k + 1 < rect.dims.w * rect.dims.h ==> (IterPointRect {
            current: nth_point(rect, k),
            rect,
        }).successor() == nth_point(rect, k + 1),
        k + 1 == rect.dims.w * rect.dims.h ==> !rect.spec_contains(
            (IterPointRect { current: nth_point(rect, k), rect }).successor(),
        ),
{
    let w = rect.dims.w as int;
    let h = rect.dims.h as int;
    let q = k / w;
    let r = k % w;
    lemma_fundamental_div_mod(k, w);
    lemma_mod_bound(k, w);
    lemma_fundamental_div_mod_converse(0, w, 0, 0);
    assert(0 <= q < h) by (nonlinear_arith)
        requires
            k == w * q + r,
            0 <= r < w,
            0 <= k < w * h,
    ;
    if r + 1 < w {
        assert(k + 1 == q * w + (r + 1)) by (nonlinear_arith)
            requires
                k == w * q + r,
        ;
        lemma_fundamental_div_mod_converse(k + 1, w, q, r + 1);
        assert(k + 1 != w * h) by (nonlinear_arith)
            requires
                k + 1 == q * w + (r + 1),
                0 < r + 1 < w,
        ;
    } else {
        assert(k + 1 == (q + 1) * w + 0) by (nonlinear_arith)
            requires
                k == w * q + r,
                r + 1 == w,
        ;
        lemma_fundamental_div_mod_converse(k + 1, w, q + 1, 0);
        if k + 1 == w * h {
            assert(q + 1 == h) by (nonlinear_arith)
                requires
                    (q + 1) * w == w * h,
                    w > 0,
            ;
        }
    }
}

} // verus!
