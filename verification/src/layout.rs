//! Placing icons in a grid.

use vstd::prelude::*;

use crate::geometry::{Rect, Vec2};
use crate::scalar;
use crate::scalar::{count as number_of, cut_count, whole_number, Scalar};

verus! {

/// The measures of a grid.
#[derive(Debug, Clone, Copy, PartialEq)]
pub struct GridLayout<S> {
    pub icon_size: S,
    pub gap: S,
    pub padding: S,
}

impl<S: Scalar> GridLayout<S> {
    /// Columns that fit into the width `inner_w`, and at least one.
    pub open spec fn columns(self, inner_w: S) -> nat {
        if inner_w.le(self.icon_size) {
            1
        } else {
            scalar::things(inner_w.add(self.gap).div(self.icon_size.add(self.gap)).floored())
        }
    }

    /// The centre of the `i`-th of the icons laid out in `area`.
    pub open spec fn place(self, i: int, area: Rect<S>) -> Vec2<S> {
        let inner = area.shrunk(self.padding);
        let c = self.columns(inner.w);
        let cols = if c == 0 {
            1
        } else {
            c as int
        };
        let step = self.icon_size.add(self.gap);
        let half = self.icon_size.div(scalar::num(2));
        Vec2 {
            x: inner.x.add(scalar::num::<S>(i % cols).mul(step)).add(half),
            y: inner.y.add(scalar::num::<S>(i / cols).mul(step)).add(half),
        }
    }

    /// Rows that `n` icons take in `cols` columns.
    pub open spec fn rows(n: int, cols: int) -> int {
        let c = if cols <= 0 {
            1
        } else {
            cols
        };
        (n + c - 1) / c
    }

    /// Height of `rows` rows of icons.
    pub open spec fn rows_height(self, rows: int) -> S {
        if rows == 0 {
            scalar::num(0)
        } else {
            scalar::num::<S>(rows).mul(self.icon_size).add(scalar::num::<S>(rows - 1).mul(self.gap))
        }
    }

    /// The number of columns that fit into the width `inner_w`.
    pub fn cols_for_width(&self, inner_w: S) -> (r: usize)
        ensures
            r == self.columns(inner_w),
    {
        if inner_w.at_most(self.icon_size) {
            return 1;
        }
        cut_count(inner_w.plus(self.gap).over(self.icon_size.plus(self.gap)).down())
    }

    /// Rows that `count` icons take in `cols` columns.
    pub fn rows_for_count(&self, count: usize, cols: usize) -> (r: usize)
        ensures
            r == Self::rows(count as int, cols as int),
            r <= count,
    {
        let c: usize = if cols == 0 {
            1
        } else {
            cols
        };
        let q: usize = count / c;
        let m: usize = count % c;
        proof {
            vstd::arithmetic::div_mod::lemma_fundamental_div_mod(count as int, c as int);
            let rows = if m == 0 {
                q as int
            } else {
                q + 1
            };
            assert((count + c - 1) / c as int == rows && rows <= count) by (nonlinear_arith)
                requires
                    count == c * q + m,
                    0 <= m < c,
                    q >= 0,
                    rows == (if m == 0 {
                        q as int
                    } else {
                        q + 1
                    }),
            ;
        }
        if m == 0 {
            q
        } else {
            q + 1
        }
    }

    /// The centres of `count` icons laid out in `area`, row by row from the upper left.
    pub fn arrange(&self, count: usize, area: &Rect<S>) -> (out: Vec<Vec2<S>>)
        requires
            count <= i64::MAX,
        ensures
            out.len() == count,
            forall|i: int| 0 <= i < count ==> out[i] == self.place(i, *area),
    {
        let inner = area.inset(self.padding);
        let c = self.cols_for_width(inner.w);
        let cols: usize = if c == 0 {
            1
        } else {
            c
        };
        let step = self.icon_size.plus(self.gap);
        let half = self.icon_size.over(whole_number(2));
        let mut out: Vec<Vec2<S>> = Vec::new();
        let mut i: usize = 0;
        while i < count
            invariant
                i <= count <= i64::MAX,
                cols > 0,
                inner == area.shrunk(self.padding),
                cols == (if self.columns(inner.w) == 0 {
                    1
                } else {
                    self.columns(inner.w) as int
                }),
                step == self.icon_size.add(self.gap),
                half == self.icon_size.div(scalar::num(2)),
                out.len() == i,
                forall|j: int| 0 <= j < i ==> out[j] == self.place(j, *area),
            decreases count - i,
        {
            proof {
                assert(i / cols <= i && i % cols <= i) by (nonlinear_arith)
                    requires
                        cols > 0,
                        i >= 0,
                ;
            }
            let x = inner.x.plus(number_of::<S>(i % cols).times(step)).plus(half);
            let y = inner.y.plus(number_of::<S>(i / cols).times(step)).plus(half);
            out.push(Vec2 { x, y });
            i += 1;
        }
        out
    }

    /// Height that `count` icons take in `cols` columns.
    pub fn content_height(&self, count: usize, cols: usize) -> (h: S)
        requires
            count <= i64::MAX,
        ensures
            h == self.rows_height(Self::rows(count as int, cols as int)),
    {
        let rows = self.rows_for_count(count, cols);
        if rows == 0 {
            whole_number(0)
        } else {
            number_of::<S>(rows).times(self.icon_size).plus(number_of::<S>(rows - 1).times(self.gap))
        }
    }
}

/// The usual grid: icons of 48, 10 apart, 12 from the edge.
pub fn default_grid<S: Scalar>() -> (g: GridLayout<S>)
    ensures
        g.icon_size == scalar::num::<S>(48),
        g.gap == scalar::num::<S>(10),
        g.padding == scalar::num::<S>(12),
{
    GridLayout { icon_size: whole_number(48), gap: whole_number(10), padding: whole_number(12) }
}

/// A grid has at least one column, however narrow.
pub proof fn law_some_column(g: GridLayout<i64>, inner_w: i64)
    requires
        0 <= g.icon_size <= 0x100_0000_0000,
        0 <= g.gap <= 0x100_0000_0000,
        g.icon_size + g.gap > 0,
        inner_w <= 0x100_0000_0000,
    ensures
        g.columns(inner_w) >= 1,
{
    if g.icon_size < inner_w {
        let a = (inner_w + g.gap) as int;
        let b = (g.icon_size + g.gap) as int;
        assert(1 <= a / b <= a) by (nonlinear_arith)
            requires
                a >= b > 0,
        ;
    }
}

/// No two icons of a grid share a place: of two icons, the later one is further right in
/// the same row or in a lower row.
pub proof fn law_places_differ(g: GridLayout<i64>, i: int, j: int, area: Rect<i64>)
    requires
        0 <= i < j < 0x1_0000,
        0 < g.icon_size <= 0x1_0000,
        0 <= g.gap <= 0x1_0000,
        -0x1_0000 <= area.x <= 0x1_0000,
        -0x1_0000 <= area.y <= 0x1_0000,
        0 <= g.padding <= 0x1_0000,
    ensures
        g.place(i, area).y < g.place(j, area).y || (g.place(i, area).y == g.place(j, area).y
            && g.place(i, area).x < g.place(j, area).x),
{
    let inner = area.shrunk(g.padding);
    let c = g.columns(inner.w);
    let cols = if c == 0 {
        1
    } else {
        c as int
    };
    let step = (g.icon_size + g.gap) as int;
    vstd::arithmetic::div_mod::lemma_fundamental_div_mod(i, cols);
    vstd::arithmetic::div_mod::lemma_fundamental_div_mod(j, cols);
    let (ri, ci, rj, cj) = (i / cols, i % cols, j / cols, j % cols);
    assert(0 <= ri <= i && 0 <= rj <= j && 0 <= ci <= i && 0 <= cj <= j && (ri < rj || (ri == rj && ci < cj)))
        by (nonlinear_arith)
        requires
            cols >= 1,
            0 <= i < j,
            ri == i / cols,
            rj == j / cols,
            ci == i % cols,
            cj == j % cols,
            i == cols * ri + ci,
            j == cols * rj + cj,
    ;
    lemma_steps(ri, rj, step);
    lemma_steps(ci, cj, step);
}

proof fn lemma_steps(a: int, b: int, step: int)
    requires
        0 <= a < 0x1_0000,
        0 <= b < 0x1_0000,
        0 < step <= 0x2_0000,
    ensures
        0 <= a * step <= 0x2_0000_0000,
        0 <= b * step <= 0x2_0000_0000,
        a < b ==> a * step < b * step,
{
    assert(0 <= a * step <= 0x1_0000 * 0x2_0000 && 0 <= b * step <= 0x1_0000 * 0x2_0000 && (a < b ==> a
        * step < b * step)) by (nonlinear_arith)
        requires
            0 <= a < 0x1_0000,
            0 <= b < 0x1_0000,
            0 < step <= 0x2_0000,
    ;
}

/// A row holds as many icons as fit side by side, and no more: they take no more than the
/// width there is, and with one more they would.
pub proof fn law_row_is_full(g: GridLayout<i64>, inner_w: i64)
    requires
        0 < g.icon_size <= 0x1000_0000,
        0 <= g.gap <= 0x1000_0000,
        g.icon_size <= inner_w <= 0x1000_0000,
    ensures
        ({
            let n = g.columns(inner_w) as int;
            &&& n * g.icon_size + (n - 1) * g.gap <= inner_w
            &&& inner_w < (n + 1) * g.icon_size + n * g.gap
        }),
{
    let n = g.columns(inner_w) as int;
    let a = (inner_w + g.gap) as int;
    let b = (g.icon_size + g.gap) as int;
    if g.icon_size < inner_w {
        assert(0 <= a / b <= a) by (nonlinear_arith)
            requires
                a >= 0,
                b > 0,
        ;
        assert(n == a / b);
    } else {
        assert(n == 1);
        assert(a / b == 1) by (nonlinear_arith)
            requires
                a == b,
                b > 0,
        ;
    }
    vstd::arithmetic::div_mod::lemma_fundamental_div_mod(a, b);
    let s = g.icon_size as int;
    let p = g.gap as int;
    assert(n * s + (n - 1) * p == b * n - p && (n + 1) * s + n * p == b * n + b - p) by (nonlinear_arith)
        requires
            b == s + p,
    ;
}

/// The first icon stands in the upper left corner within the padding; each further one stands
/// a size and a gap to the right of the one before it, or at the left again and as far below.
pub proof fn law_places_follow_each_other(g: GridLayout<i64>, i: int, area: Rect<i64>)
    requires
        0 <= i < 0xFFFF,
        0 < g.icon_size <= 0x1_0000,
        0 <= g.gap <= 0x1_0000,
        -0x1_0000 <= area.x <= 0x1_0000,
        -0x1_0000 <= area.y <= 0x1_0000,
        0 <= g.padding <= 0x1_0000,
    ensures
        ({
            let p = g.place(i, area);
            let q = g.place(i + 1, area);
            let first = g.place(0, area);
            let step = g.icon_size + g.gap;
            &&& first.x == area.x + g.padding + g.icon_size / 2
            &&& first.y == area.y + g.padding + g.icon_size / 2
            &&& (q.x == p.x + step && q.y == p.y) || (q.x == first.x && q.y == p.y + step)
        }),
{
    let inner = area.shrunk(g.padding);
    let c = g.columns(inner.w);
    let cols = if c == 0 {
        1
    } else {
        c as int
    };
    let step = (g.icon_size + g.gap) as int;
    assert(scalar::num::<i64>(2) == 2);
    let (r, k) = (i / cols, i % cols);
    let (r2, k2) = ((i + 1) / cols, (i + 1) % cols);
    vstd::arithmetic::div_mod::lemma_fundamental_div_mod(i, cols);
    vstd::arithmetic::div_mod::lemma_fundamental_div_mod(i + 1, cols);
    assert(0 <= r <= i && 0 <= k <= i && 0 <= r2 <= i + 1 && 0 <= k2 <= i + 1 && ((r2 == r && k2 == k + 1) || (r2 == r + 1
        && k2 == 0))) by (nonlinear_arith)
        requires
            cols >= 1,
            0 <= i,
            r == i / cols,
            k == i % cols,
            r2 == (i + 1) / cols,
            k2 == (i + 1) % cols,
            i == cols * r + k,
            i + 1 == cols * r2 + k2,
            0 <= k < cols,
            0 <= k2 < cols,
    ;
    assert(0int / cols == 0 && 0int % cols == 0) by (nonlinear_arith)
        requires
            cols >= 1,
    ;
    lemma_steps(r, r2, step);
    lemma_steps(k, k2, step);
    assert((r + 1) * step == r * step + step && (k + 1) * step == k * step + step && 0 * step == 0) by (nonlinear_arith);
}

/// Each further row adds the size of an icon and a gap to the height; one row is as high as
/// an icon.
pub proof fn law_rows_add_up(g: GridLayout<i64>, rows: int)
    requires
        1 <= rows <= 0x1_0000,
        0 <= g.icon_size <= 0x1000_0000,
        0 <= g.gap <= 0x1000_0000,
    ensures
        g.rows_height(0) == 0,
        g.rows_height(1) == g.icon_size,
        g.rows_height(rows + 1) == g.rows_height(rows) + g.icon_size + g.gap,
{
    assert(scalar::num::<i64>(0) == 0);
    lemma_row_measure(g, 1);
    lemma_row_measure(g, rows);
    lemma_row_measure(g, rows + 1);
    let (s, p) = (g.icon_size as int, g.gap as int);
    assert((rows + 1) * s == rows * s + s && rows * p == (rows - 1) * p + p && 1 * s == s && 0 * p == 0)
        by (nonlinear_arith);
}

proof fn lemma_row_measure(g: GridLayout<i64>, rows: int)
    requires
        1 <= rows <= 0x1_0001,
        0 <= g.icon_size <= 0x1000_0000,
        0 <= g.gap <= 0x1000_0000,
    ensures
        g.rows_height(rows) == rows * g.icon_size + (rows - 1) * g.gap,
{
    assert(scalar::num::<i64>(rows) == rows);
    assert(scalar::num::<i64>(rows - 1) == rows - 1);
    let (s, p) = (g.icon_size as int, g.gap as int);
    assert(0 <= rows * s <= 0x1_0001 * 0x1000_0000 && 0 <= (rows - 1) * p <= 0x1_0001 * 0x1000_0000) by (nonlinear_arith)
        requires
            1 <= rows <= 0x1_0001,
            0 <= s <= 0x1000_0000,
            0 <= p <= 0x1000_0000,
    ;
}

} // verus!
