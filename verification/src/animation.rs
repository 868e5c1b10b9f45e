//! Eased transitions between numbers and between points.

use vstd::prelude::*;

use crate::geometry::Vec2;
use crate::scalar;
use crate::scalar::{clamp, whole_number, Scalar};

verus! {

/// How a transition runs.
#[derive(Debug, Clone, Copy, PartialEq, Eq, Structural)]
pub enum Ease {
    Linear,
    QuadInOut,
    CubicOut,
    /// Shoots past its end a little and comes back.
    BackOut,
    /// A damped spring: quick to start, swings a little, comes to rest.
    Spring,
}

pub open spec fn square<S: Scalar>(x: S) -> S {
    x.mul(x)
}

pub open spec fn cube<S: Scalar>(x: S) -> S {
    x.mul(x).mul(x)
}

/// The eased progress at the plain progress `t`, which is taken within 0 and 1.
pub open spec fn eased<S: Scalar>(progress: S, kind: Ease) -> S {
    let one = scalar::num::<S>(1);
    let t = scalar::clamped(progress, scalar::num(0), one);
    match kind {
        Ease::Linear => t,
        Ease::QuadInOut => if t.lt(S::lit(1, 2)) {
            scalar::num::<S>(2).mul(t).mul(t)
        } else {
            one.sub(square(scalar::num::<S>(-2).mul(t).add(scalar::num(2))).div(scalar::num(2)))
        },
        Ease::CubicOut => one.sub(cube(one.sub(t))),
        Ease::BackOut => {
            let c1 = S::lit(170158, 100000);
            let c3 = c1.add(one);
            one.add(c3.mul(cube(t.sub(one)))).add(c1.mul(square(t.sub(one))))
        },
        Ease::Spring => scalar::clamped(one.sub(t.damped()), scalar::num(0), S::lit(108, 100)),
    }
}

/// The eased progress at the plain progress `t`.
pub fn ease<S: Scalar>(t: S, kind: Ease) -> (r: S)
    ensures
        r == eased(t, kind),
{
    let one = whole_number::<S>(1);
    let t = clamp(t, whole_number(0), one);
    match kind {
        Ease::Linear => t,
        Ease::QuadInOut => {
            if t.below(S::ratio(1, 2)) {
                whole_number::<S>(2).times(t).times(t)
            } else {
                let u = whole_number::<S>(-2).times(t).plus(whole_number(2));
                one.minus(u.times(u).over(whole_number(2)))
            }
        },
        Ease::CubicOut => {
            let u = one.minus(t);
            one.minus(u.times(u).times(u))
        },
        Ease::BackOut => {
            let c1 = S::ratio(170158, 100000);
            let c3 = c1.plus(one);
            let u = t.minus(one);
            one.plus(c3.times(u.times(u).times(u))).plus(c1.times(u.times(u)))
        },
        Ease::Spring => clamp(one.minus(t.damping()), whole_number(0), S::ratio(108, 100)),
    }
}

/// The transition of one number.
#[derive(Debug, Clone, Copy, PartialEq)]
pub struct Tween<S> {
    pub start: S,
    pub end: S,
    /// Length in seconds.
    pub duration: S,
    pub elapsed: S,
    pub ease: Ease,
}

impl<S: Scalar> Tween<S> {
    /// Progress from 0 to 1; a transition without length is at its end.
    pub open spec fn at(self) -> S {
        if self.duration.le(scalar::num(0)) {
            scalar::num(1)
        } else {
            scalar::clamped(self.elapsed.div(self.duration), scalar::num(0), scalar::num(1))
        }
    }

    pub open spec fn now(self) -> S {
        self.start.add(self.end.sub(self.start).mul(eased(self.at(), self.ease)))
    }

    pub fn new(start: S, end: S, duration: S) -> (t: Self)
        ensures
            t == (Tween { start, end, duration, elapsed: scalar::num(0), ease: Ease::CubicOut }),
    {
        Tween { start, end, duration, elapsed: whole_number(0), ease: Ease::CubicOut }
    }

    pub fn with_ease(self, ease: Ease) -> (t: Self)
        ensures
            t == (Tween { ease, ..self }),
    {
        Tween { start: self.start, end: self.end, duration: self.duration, elapsed: self.elapsed, ease }
    }

    /// Progress from 0 to 1.
    pub fn progress(&self) -> (r: S)
        ensures
            r == self.at(),
    {
        if self.duration.at_most(whole_number(0)) {
            whole_number(1)
        } else {
            clamp(self.elapsed.over(self.duration), whole_number(0), whole_number(1))
        }
    }

    /// The number as it is now.
    pub fn value(&self) -> (r: S)
        ensures
            r == self.now(),
    {
        self.start.plus(self.end.minus(self.start).times(ease(self.progress(), self.ease)))
    }

    pub fn done(&self) -> (r: bool)
        ensures
            r == self.duration.le(self.elapsed),
    {
        self.duration.at_most(self.elapsed)
    }

    /// Goes on by `dt` seconds and gives the number as it is then.
    pub fn update(&mut self, dt: S) -> (r: S)
        ensures
            *final(self) == (Tween { elapsed: old(self).elapsed.add(dt), ..*old(self) }),
            r == final(self).now(),
    {
        self.elapsed = self.elapsed.plus(dt);
        self.value()
    }
}

/// The transition of a point.
#[derive(Debug, Clone, Copy, PartialEq)]
pub struct Vec2Tween<S> {
    pub start: Vec2<S>,
    pub end: Vec2<S>,
    pub tween: Tween<S>,
}

impl<S: Scalar> Vec2Tween<S> {
    pub open spec fn now(self) -> Vec2<S> {
        let t = eased(self.tween.at(), self.tween.ease);
        Vec2 {
            x: self.start.x.add(self.end.x.sub(self.start.x).mul(t)),
            y: self.start.y.add(self.end.y.sub(self.start.y).mul(t)),
        }
    }

    pub fn new(start: Vec2<S>, end: Vec2<S>, duration: S) -> (t: Self)
        ensures
            t.start == start,
            t.end == end,
            t.tween == (Tween {
                start: scalar::num(0),
                end: scalar::num(1),
                duration,
                elapsed: scalar::num(0),
                ease: Ease::CubicOut,
            }),
    {
        Vec2Tween { start, end, tween: Tween::new(whole_number(0), whole_number(1), duration) }
    }

    /// The point as it is now.
    pub fn value(&self) -> (r: Vec2<S>)
        ensures
            r == self.now(),
    {
        let t = ease(self.tween.progress(), self.tween.ease);
        Vec2 {
            x: self.start.x.plus(self.end.x.minus(self.start.x).times(t)),
            y: self.start.y.plus(self.end.y.minus(self.start.y).times(t)),
        }
    }

    /// Goes on by `dt` seconds and gives the point as it is then.
    pub fn update(&mut self, dt: S) -> (r: Vec2<S>)
        ensures
            final(self).start == old(self).start,
            final(self).end == old(self).end,
            final(self).tween == (Tween { elapsed: old(self).tween.elapsed.add(dt), ..old(self).tween }),
            r == final(self).now(),
    {
        let _ = self.tween.update(dt);
        self.value()
    }

    pub fn done(&self) -> (r: bool)
        ensures
            r == self.tween.duration.le(self.tween.elapsed),
    {
        self.tween.done()
    }
}

proof fn lemma_product(a: i64, b: i64)
    requires
        a == 0 || a == 1 || b == 0 || b == 1 || (a == -1 && b == -1) || (a == -2 && b == 1) || (a == 2 && b
            == 2) || (a == 2 && b == -1),
    ensures
        a == 0 || b == 0 ==> a.mul(b) == 0,
        a == 1 ==> a.mul(b) == b,
        b == 1 ==> a.mul(b) == a,
        a == -1 && b == -1 ==> a.mul(b) == 1,
        a == 2 && b == 2 ==> a.mul(b) == 4,
        a == 2 && b == -1 ==> a.mul(b) == -2,
{
    assert(a * b == b * a) by (nonlinear_arith);
    if a == -1 && b == -1 {
        assert(a * b == 1) by (nonlinear_arith)
            requires
                a == -1,
                b == -1,
        ;
    }
}

/// On whole numbers every way of easing ends at the end, and every one that does not need
/// halves starts at the start.
pub proof fn law_ease_endpoints(kind: Ease)
    ensures
        kind !is QuadInOut ==> eased::<i64>(0, kind) == 0,
        eased::<i64>(1, kind) == 1,
{
    let minus = -1int as i64;
    assert(scalar::num::<i64>(0) == 0 && scalar::num::<i64>(1) == 1 && scalar::num::<i64>(2) == 2
        && scalar::num::<i64>(-2) == -2);
    assert(i64::lit(170158, 100000) == 1 && i64::lit(108, 100) == 1 && i64::lit(1, 2) == 0);
    lemma_product(0, 0);
    lemma_product(1, 1);
    lemma_product(minus, minus);
    lemma_product(1, minus);
    lemma_product(2, minus);
    lemma_product(2, 1);
    lemma_product(2, 0);
    lemma_product(1, 0);
    lemma_product(-2int as i64, 1);
    assert(cube::<i64>(1) == 1 && cube::<i64>(0) == 0 && cube::<i64>(minus) == -1);
    assert(square::<i64>(0) == 0 && square::<i64>(minus) == 1);
}

/// A finished transition between whole numbers has arrived.
pub proof fn law_finished_tween_arrives(t: Tween<i64>)
    requires
        -0x100_0000_0000 <= t.start <= 0x100_0000_0000,
        -0x100_0000_0000 <= t.end <= 0x100_0000_0000,
        t.duration <= t.elapsed,
    ensures
        t.now() == t.end,
{
    if t.duration > 0 {
        let (e, d) = (t.elapsed as int, t.duration as int);
        assert(1 <= e / d <= e) by (nonlinear_arith)
            requires
                e >= d > 0,
        ;
    }
    law_ease_endpoints(t.ease);
    lemma_product(t.end.sub(t.start), 1);
}

} // verus!
