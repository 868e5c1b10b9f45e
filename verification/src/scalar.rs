//! The numbers that coordinates and sizes are made of.
//!
//! The geometry of this crate is written over [`Scalar`], so that it runs on whatever
//! number a host draws with and is stated exactly in that number's own operations.
//! `i64` is a scalar of whole pixels whose arithmetic stops at its bounds.

use vstd::prelude::*;

verus! {

/// A number with the operations that geometry needs. For every executable operation the
/// trait names the value it gives; nothing more is promised of it, so what is stated over
/// a `Scalar` holds of rounded arithmetic as well.
pub trait Scalar: Copy {
    spec fn add(self, o: Self) -> Self;

    spec fn sub(self, o: Self) -> Self;

    spec fn mul(self, o: Self) -> Self;

    spec fn div(self, o: Self) -> Self;

    spec fn min(self, o: Self) -> Self;

    spec fn max(self, o: Self) -> Self;

    spec fn abs(self) -> Self;

    /// The nearest whole number, halves away from zero.
    spec fn rounded(self) -> Self;

    /// The greatest whole number that is not above.
    spec fn floored(self) -> Self;

    /// The smallest whole number that is not below.
    spec fn ceiled(self) -> Self;

    spec fn lt(self, o: Self) -> bool;

    spec fn le(self, o: Self) -> bool;

    spec fn same_as(self, o: Self) -> bool;

    /// The square root.
    spec fn root(self) -> Self;

    /// The swing of a damped spring at this time: `exp(-5 t) cos(7 t)`.
    spec fn damped(self) -> Self;

    /// A number that no finite number is above.
    spec fn top() -> Self;

    /// The number `n / d`.
    spec fn lit(n: i64, d: i64) -> Self;

    /// The number cut to a whole one, within the bounds of `i64`.
    spec fn whole(self) -> i64;

    fn plus(self, o: Self) -> (r: Self)
        ensures
            r == self.add(o),
    ;

    fn minus(self, o: Self) -> (r: Self)
        ensures
            r == self.sub(o),
    ;

    fn times(self, o: Self) -> (r: Self)
        ensures
            r == self.mul(o),
    ;

    fn over(self, o: Self) -> (r: Self)
        ensures
            r == self.div(o),
    ;

    fn least(self, o: Self) -> (r: Self)
        ensures
            r == self.min(o),
    ;

    fn greatest(self, o: Self) -> (r: Self)
        ensures
            r == self.max(o),
    ;

    fn size(self) -> (r: Self)
        ensures
            r == self.abs(),
    ;

    fn nearest(self) -> (r: Self)
        ensures
            r == self.rounded(),
    ;

    fn down(self) -> (r: Self)
        ensures
            r == self.floored(),
    ;

    fn up(self) -> (r: Self)
        ensures
            r == self.ceiled(),
    ;

    fn below(self, o: Self) -> (r: bool)
        ensures
            r == self.lt(o),
    ;

    fn at_most(self, o: Self) -> (r: bool)
        ensures
            r == self.le(o),
    ;

    fn equals(self, o: Self) -> (r: bool)
        ensures
            r == self.same_as(o),
    ;

    fn square_root(self) -> (r: Self)
        ensures
            r == self.root(),
    ;

    fn damping(self) -> (r: Self)
        ensures
            r == self.damped(),
    ;

    fn endless() -> (r: Self)
        ensures
            r == Self::top(),
    ;

    fn ratio(n: i64, d: i64) -> (r: Self)
        requires
            d > 0,
        ensures
            r == Self::lit(n, d),
    ;

    fn cut(self) -> (r: i64)
        ensures
            r == self.whole(),
    ;
}

/// The whole number `n`.
pub open spec fn num<S: Scalar>(n: int) -> S {
    S::lit(n as i64, 1)
}

/// The whole number `n`.
pub fn whole_number<S: Scalar>(n: i64) -> (r: S)
    ensures
        r == num::<S>(n as int),
{
    S::ratio(n, 1)
}

/// The number of `n` things.
pub fn count<S: Scalar>(n: usize) -> (r: S)
    requires
        n <= i64::MAX,
    ensures
        r == num::<S>(n as int),
{
    S::ratio(n as i64, 1)
}

/// `x` cut to a whole number of things: none where it is negative, and no more than a
/// `usize` counts.
pub open spec fn things<S: Scalar>(x: S) -> nat {
    if x.whole() <= 0 {
        0
    } else if x.whole() > usize::MAX {
        usize::MAX as nat
    } else {
        x.whole() as nat
    }
}

/// `x` cut to a whole number of things.
pub fn cut_count<S: Scalar>(x: S) -> (r: usize)
    ensures
        r == things(x),
{
    let n: i64 = x.cut();
    if n <= 0 {
        0
    } else if n as u64 > usize::MAX as u64 {
        usize::MAX
    } else {
        n as usize
    }
}

/// `x` moved into `lo..=hi`.
pub open spec fn clamped<S: Scalar>(x: S, lo: S, hi: S) -> S {
    if x.lt(lo) {
        lo
    } else if hi.lt(x) {
        hi
    } else {
        x
    }
}

/// `x` moved into `lo..=hi`.
pub fn clamp<S: Scalar>(x: S, lo: S, hi: S) -> (r: S)
    ensures
        r == clamped(x, lo, hi),
{
    if x.below(lo) {
        lo
    } else if hi.below(x) {
        hi
    } else {
        x
    }
}

/// `x` stopped at the bounds of `i64`.
pub open spec fn stopped(x: int) -> i64 {
    if x < i64::MIN {
        i64::MIN
    } else if x > i64::MAX {
        i64::MAX
    } else {
        x as i64
    }
}

fn stop(x: i128) -> (r: i64)
    ensures
        r == stopped(x as int),
{
    if x < i64::MIN as i128 {
        i64::MIN
    } else if x > i64::MAX as i128 {
        i64::MAX
    } else {
        x as i64
    }
}

/// `r` is the square root of `x`, rounded down.
pub open spec fn is_root(x: i64, r: i64) -> bool {
    0 <= r && r * r <= x && x < (r + 1) * (r + 1)
}

/// The square root of `x`, rounded down; zero where `x` is not positive.
pub open spec fn whole_root(x: i64) -> i64 {
    if x <= 0 {
        0
    } else {
        choose|r: i64| is_root(x, r)
    }
}

proof fn lemma_root_unique(x: i64, a: i64, b: i64)
    requires
        is_root(x, a),
        is_root(x, b),
    ensures
        a == b,
{
    assert(a == b) by (nonlinear_arith)
        requires
            0 <= a,
            0 <= b,
            a * a <= x < (a + 1) * (a + 1),
            b * b <= x < (b + 1) * (b + 1),
    ;
}

fn find_root(x: i64) -> (r: i64)
    ensures
        r == whole_root(x),
{
    if x <= 0 {
        return 0;
    }
    // The root lies in lo..hi; no root of an i64 reaches 2^32.
    let mut lo: i64 = 0;
    let mut hi: i64 = 0x1_0000_0000;
    while hi - lo > 1
        invariant
            0 <= lo < hi <= 0x1_0000_0000,
            lo * lo <= x < hi * hi,
            x > 0,
        decreases hi - lo,
    {
        let mid: i64 = lo + (hi - lo) / 2;
        proof {
            assert(0 <= mid * mid <= 0x1_0000_0000 * 0x1_0000_0000) by (nonlinear_arith)
                requires
                    0 <= mid <= 0x1_0000_0000,
            ;
        }
        if mid as i128 * mid as i128 <= x as i128 {
            lo = mid;
        } else {
            hi = mid;
        }
    }
    proof {
        assert(hi == lo + 1);
        assert(is_root(x, lo));
        lemma_root_unique(x, lo, whole_root(x));
    }
    lo
}

/// Whole pixels: sums, differences and products stop at the bounds of `i64`, quotients
/// are rounded down, and a quotient by zero is zero. A spring has come to rest, to the
/// nearest pixel, at every time but the first.
impl Scalar for i64 {
    open spec fn add(self, o: Self) -> Self {
        stopped(self + o)
    }

    open spec fn sub(self, o: Self) -> Self {
        stopped(self - o)
    }

    open spec fn mul(self, o: Self) -> Self {
        stopped(self * o)
    }

    open spec fn div(self, o: Self) -> Self {
        if o == 0 {
            0
        } else {
            stopped(self as int / o as int)
        }
    }

    open spec fn min(self, o: Self) -> Self {
        if o < self {
            o
        } else {
            self
        }
    }

    open spec fn max(self, o: Self) -> Self {
        if o > self {
            o
        } else {
            self
        }
    }

    open spec fn abs(self) -> Self {
        if self < 0 {
            stopped(-self)
        } else {
            self
        }
    }

    open spec fn rounded(self) -> Self {
        self
    }

    open spec fn floored(self) -> Self {
        self
    }

    open spec fn ceiled(self) -> Self {
        self
    }

    open spec fn lt(self, o: Self) -> bool {
        self < o
    }

    open spec fn le(self, o: Self) -> bool {
        self <= o
    }

    open spec fn same_as(self, o: Self) -> bool {
        self == o
    }

    open spec fn root(self) -> Self {
        whole_root(self)
    }

    open spec fn damped(self) -> Self {
        if self == 0 {
            1
        } else {
            0
        }
    }

    open spec fn top() -> Self {
        i64::MAX
    }

    open spec fn lit(n: i64, d: i64) -> Self {
        stopped(n as int / d as int)
    }

    open spec fn whole(self) -> i64 {
        self
    }

    fn plus(self, o: Self) -> (r: Self) {
        stop(self as i128 + o as i128)
    }

    fn minus(self, o: Self) -> (r: Self) {
        stop(self as i128 - o as i128)
    }

    fn times(self, o: Self) -> (r: Self) {
        proof {
            assert(-0x8000_0000_0000_0000 * 0x8000_0000_0000_0000 <= self * o <= 0x8000_0000_0000_0000
                * 0x8000_0000_0000_0000) by (nonlinear_arith)
                requires
                    -0x8000_0000_0000_0000 <= self <= 0x7fff_ffff_ffff_ffff,
                    -0x8000_0000_0000_0000 <= o <= 0x7fff_ffff_ffff_ffff,
            ;
        }
        stop(self as i128 * o as i128)
    }

    fn over(self, o: Self) -> (r: Self) {
        if o == 0 {
            0
        } else {
            proof {
                assert(-0x1_0000_0000_0000_0000 < self as int / o as int <= 0x1_0000_0000_0000_0000) by (nonlinear_arith)
                    requires
                        -0x8000_0000_0000_0000 <= self <= 0x7fff_ffff_ffff_ffff,
                        o != 0,
                ;
            }
            stop((self as i128).checked_div_euclid(o as i128).unwrap())
        }
    }

    fn least(self, o: Self) -> (r: Self) {
        if o < self {
            o
        } else {
            self
        }
    }

    fn greatest(self, o: Self) -> (r: Self) {
        if o > self {
            o
        } else {
            self
        }
    }

    fn size(self) -> (r: Self) {
        if self < 0 {
            stop(-(self as i128))
        } else {
            self
        }
    }

    fn nearest(self) -> (r: Self) {
        self
    }

    fn down(self) -> (r: Self) {
        self
    }

    fn up(self) -> (r: Self) {
        self
    }

    fn below(self, o: Self) -> (r: bool) {
        self < o
    }

    fn at_most(self, o: Self) -> (r: bool) {
        self <= o
    }

    fn equals(self, o: Self) -> (r: bool) {
        self == o
    }

    fn square_root(self) -> (r: Self) {
        find_root(self)
    }

    fn damping(self) -> (r: Self) {
        if self == 0 {
            1
        } else {
            0
        }
    }

    fn endless() -> (r: Self) {
        i64::MAX
    }

    fn ratio(n: i64, d: i64) -> (r: Self) {
        proof {
            assert(-0x8000_0000_0000_0000 <= n as int / d as int <= 0x7fff_ffff_ffff_ffff) by (nonlinear_arith)
                requires
                    -0x8000_0000_0000_0000 <= n <= 0x7fff_ffff_ffff_ffff,
                    d > 0,
            ;
        }
        n.checked_div_euclid(d).unwrap()
    }

    fn cut(self) -> (r: i64) {
        self
    }
}

} // verus!
