//! Points and rectangles.

use vstd::prelude::*;

use crate::scalar;
use crate::scalar::{whole_number, Scalar};

verus! {

/// A point.
#[derive(Debug, Clone, Copy, PartialEq)]
pub struct Vec2<S> {
    pub x: S,
    pub y: S,
}

/// A rectangle by its upper left corner and its size.
#[derive(Debug, Clone, Copy, PartialEq)]
pub struct Rect<S> {
    pub x: S,
    pub y: S,
    pub w: S,
    pub h: S,
}

impl<S: Scalar> Rect<S> {
    pub open spec fn right_edge(self) -> S {
        self.x.add(self.w)
    }

    pub open spec fn bottom_edge(self) -> S {
        self.y.add(self.h)
    }

    /// The point is inside, edges included.
    pub open spec fn holds(self, p: Vec2<S>) -> bool {
        self.x.le(p.x) && p.x.le(self.right_edge()) && self.y.le(p.y) && p.y.le(self.bottom_edge())
    }

    /// The rectangle shrunk by `d` on each side, to no less than nothing.
    pub open spec fn shrunk(self, d: S) -> Rect<S> {
        Rect {
            x: self.x.add(d),
            y: self.y.add(d),
            w: self.w.sub(scalar::num::<S>(2).mul(d)).max(scalar::num(0)),
            h: self.h.sub(scalar::num::<S>(2).mul(d)).max(scalar::num(0)),
        }
    }

    pub fn new(x: S, y: S, w: S, h: S) -> (r: Self)
        ensures
            r == (Rect { x, y, w, h }),
    {
        Rect { x, y, w, h }
    }

    /// The right edge.
    pub fn right(&self) -> (r: S)
        ensures
            r == self.right_edge(),
    {
        self.x.plus(self.w)
    }

    /// The lower edge.
    pub fn bottom(&self) -> (r: S)
        ensures
            r == self.bottom_edge(),
    {
        self.y.plus(self.h)
    }

    /// Whether the point is inside, edges included.
    pub fn contains(&self, p: Vec2<S>) -> (r: bool)
        ensures
            r == self.holds(p),
    {
        self.x.at_most(p.x) && p.x.at_most(self.right()) && self.y.at_most(p.y) && p.y.at_most(
            self.bottom(),
        )
    }

    /// Shrunk by `d` on each side (grown where `d` is negative), never below zero size.
    pub fn inset(&self, d: S) -> (r: Self)
        ensures
            r == self.shrunk(d),
    {
        let two = whole_number::<S>(2).times(d);
        Rect {
            x: self.x.plus(d),
            y: self.y.plus(d),
            w: self.w.minus(two).greatest(whole_number(0)),
            h: self.h.minus(two).greatest(whole_number(0)),
        }
    }
}

/// Each side of a rectangle shrunk by `d` lies `d` further in, as long as there is room, and
/// growing it by as much gives it back.
pub proof fn law_shrunk_on_each_side(r: Rect<i64>, d: i64)
    requires
        -0x1000_0000_0000 <= r.x <= 0x1000_0000_0000,
        -0x1000_0000_0000 <= r.y <= 0x1000_0000_0000,
        0 <= d <= 0x1000_0000_0000,
        2 * d <= r.w <= 0x1000_0000_0000,
        2 * d <= r.h <= 0x1000_0000_0000,
    ensures
        ({
            let q = r.shrunk(d);
            &&& q.x - r.x == d
            &&& q.y - r.y == d
            &&& r.x + r.w - (q.x + q.w) == d
            &&& r.y + r.h - (q.y + q.h) == d
            &&& q.shrunk((-d) as i64) == r
        }),
{
    assert(scalar::num::<i64>(2) == 2);
    assert(scalar::num::<i64>(0) == 0);
}

/// A point is inside where it is on no outer side of any edge.
pub proof fn law_inside_is_between(r: Rect<i64>, p: Vec2<i64>)
    requires
        -0x1000_0000_0000 <= r.x <= 0x1000_0000_0000,
        -0x1000_0000_0000 <= r.y <= 0x1000_0000_0000,
        0 <= r.w <= 0x1000_0000_0000,
        0 <= r.h <= 0x1000_0000_0000,
    ensures
        r.holds(p) <==> r.x <= p.x <= r.x + r.w && r.y <= p.y <= r.y + r.h,
{
}

} // verus!
