//! Sidebars: fences docked to an edge of the screen, whose icons grow under the pointer.

use vstd::prelude::*;

use crate::geometry::Rect;
use crate::model::{Fence, SidebarPosition};
use crate::overlay::RectF;
use crate::scalar;
use crate::scalar::{clamp, count, whole_number, Scalar};
use crate::scene::SceneIcon;
use crate::text;
use crate::text::estimate_width;

verus! {

/// Thickness of a dock: room for the largest icon and a little space on both sides.
pub open spec fn thickness<S: Scalar>(icon_size: S, scale: S) -> S {
    icon_size.mul(S::lit(15, 10)).add(scalar::num::<S>(6).mul(scale).mul(scalar::num(2)))
}

/// The distance of icons at which two neighbours do not overlap even when both are largest.
pub open spec fn wide_gap<S: Scalar>(icon_size: S, gap: S) -> S {
    gap.add(icon_size.mul(S::lit(5, 10)))
}

/// Length of `n` icons in a row.
pub open spec fn row_length<S: Scalar>(n: int, icon_size: S, gap: S) -> S {
    if n > 0 {
        scalar::num::<S>(n).mul(icon_size.add(gap)).sub(gap)
    } else {
        scalar::num(0)
    }
}

pub fn sidebar_dock_thickness<S: Scalar>(icon_size: S, scale: S) -> (r: S)
    ensures
        r == thickness(icon_size, scale),
{
    let margin = whole_number::<S>(6).times(scale);
    icon_size.times(S::ratio(15, 10)).plus(margin.times(whole_number(2)))
}

pub fn sidebar_eff_gap<S: Scalar>(icon_size: S, gap: S) -> (r: S)
    ensures
        r == wide_gap(icon_size, gap),
{
    gap.plus(icon_size.times(S::ratio(5, 10)))
}

pub fn icon_row_length<S: Scalar>(n: usize, icon_size: S, gap: S) -> (r: S)
    requires
        n <= i64::MAX,
    ensures
        r == row_length(n as int, icon_size, gap),
{
    if n > 0 {
        count::<S>(n).times(icon_size.plus(gap)).minus(gap)
    } else {
        whole_number(0)
    }
}

/// `r` made to fit into the work area along the dock, and moved into it. A dock at the top
/// is fitted across as well.
pub open spec fn in_work_area<S: Scalar>(r: Rect<S>, wa: Rect<S>, pos: SidebarPosition) -> Rect<S> {
    match pos {
        SidebarPosition::Left | SidebarPosition::Right => {
            let h = if wa.h.lt(r.h) {
                wa.h
            } else {
                r.h
            };
            Rect { h, y: scalar::clamped(r.y, wa.y, wa.bottom_edge().sub(h)), ..r }
        },
        SidebarPosition::Top => {
            let w = if wa.w.lt(r.w) {
                wa.w
            } else {
                r.w
            };
            let h = if wa.h.lt(r.h) {
                wa.h
            } else {
                r.h
            };
            Rect {
                x: scalar::clamped(r.x, wa.x, wa.right_edge().sub(w)),
                y: scalar::clamped(r.y, wa.y, wa.bottom_edge().sub(h)),
                w,
                h,
            }
        },
    }
}

/// Moves a dock into the work area, so that it never reaches under the taskbar.
pub fn clamp_sidebar_work_rect<S: Scalar>(r: Rect<S>, wa: Rect<S>, pos: SidebarPosition) -> (q: Rect<S>)
    ensures
        q == in_work_area(r, wa, pos),
{
    let mut out = r;
    match pos {
        SidebarPosition::Left | SidebarPosition::Right => {
            if wa.h.below(out.h) {
                out.h = wa.h;
            }
            out.y = clamp(out.y, wa.y, wa.bottom().minus(out.h));
        },
        SidebarPosition::Top => {
            if wa.w.below(out.w) {
                out.w = wa.w;
            }
            out.x = clamp(out.x, wa.x, wa.right().minus(out.w));
            if wa.h.below(out.h) {
                out.h = wa.h;
            }
            out.y = clamp(out.y, wa.y, wa.bottom().minus(out.h));
        },
    }
    out
}

/// Where a sidebar with `n` icons of size `icon_size`, `gap` apart, is docked.
pub open spec fn dock<S: Scalar>(
    scale: S,
    n: int,
    icon_size: S,
    gap: S,
    pos: SidebarPosition,
    wa: Rect<S>,
) -> Rect<S> {
    let two = scalar::num::<S>(2);
    let pad = scalar::num::<S>(12).mul(scale);
    let content = row_length(n, icon_size, wide_gap(icon_size, gap)).add(pad.mul(two));
    let least = scalar::num::<S>(100).mul(scale);
    let thick = thickness(icon_size, scale);
    match pos {
        SidebarPosition::Top => {
            let w = scalar::clamped(content, least, wa.w);
            Rect { x: wa.x.add(wa.w.sub(w).div(two).max(scalar::num(0))), y: wa.y, w, h: thick }
        },
        _ => {
            let h = scalar::clamped(content, least, wa.h);
            Rect {
                x: if pos is Left {
                    wa.x
                } else {
                    wa.right_edge().sub(thick).max(wa.x)
                },
                y: wa.y.add(wa.h.sub(h).div(two).max(scalar::num(0))),
                w: thick,
                h,
            }
        },
    }
}

/// Where the fence is docked.
pub open spec fn dock_of<S: Scalar>(scale: S, f: Fence<S>, wa: Rect<S>) -> Rect<S> {
    dock(
        scale,
        f.icon_ids.len() as int,
        f.appearance.icon_size.mul(scale),
        f.appearance.gap.mul(scale),
        f.appearance.sidebar_pos,
        wa,
    )
}

/// Where a sidebar is docked: along the middle of its edge of the work area, as long as its
/// icons need but no longer than the area.
pub fn sidebar_dock_rect<S: Scalar>(scale: S, fence: &Fence<S>, wa: &Rect<S>) -> (r: Rect<S>)
    requires
        fence.icon_ids.len() <= i64::MAX,
    ensures
        r == dock_of(scale, *fence, *wa),
{
    let two = whole_number::<S>(2);
    let icon_size = fence.appearance.icon_size.times(scale);
    let gap = fence.appearance.gap.times(scale);
    let pad = whole_number::<S>(12).times(scale);
    let eff_gap = sidebar_eff_gap(icon_size, gap);
    let content = icon_row_length(fence.icon_ids.len(), icon_size, eff_gap).plus(pad.times(two));
    let least = whole_number::<S>(100).times(scale);
    let thick = sidebar_dock_thickness(icon_size, scale);
    match fence.appearance.sidebar_pos {
        SidebarPosition::Top => {
            let w = clamp(content, least, wa.w);
            Rect { x: wa.x.plus(wa.w.minus(w).over(two).greatest(whole_number(0))), y: wa.y, w, h: thick }
        },
        _ => {
            let h = clamp(content, least, wa.h);
            let x = if fence.appearance.sidebar_pos == SidebarPosition::Left {
                wa.x
            } else {
                wa.right().minus(thick).greatest(wa.x)
            };
            Rect { x, y: wa.y.plus(wa.h.minus(h).over(two).greatest(whole_number(0))), w: thick, h }
        },
    }
}

/// How far the pointer is from the centre of an icon.
pub open spec fn distance<S: Scalar>(x: S, y: S, size: S, mx: S, my: S) -> S {
    let two = scalar::num::<S>(2);
    let dx = mx.sub(x.add(size.div(two)));
    let dy = my.sub(y.add(size.div(two)));
    dx.mul(dx).add(dy.mul(dy)).root()
}

/// The distance within which icons grow: four icons with their gaps.
pub open spec fn reach<S: Scalar>(icon_size: S, gap: S) -> S {
    scalar::num::<S>(4).mul(icon_size.add(gap).max(scalar::num(1)))
}

/// How much an icon grows at the distance `d`: to half as much again under the pointer,
/// and less with the square of the distance.
pub open spec fn growth<S: Scalar>(d: S, radius: S) -> S {
    let one = scalar::num::<S>(1);
    if radius.le(d) {
        one
    } else {
        let t = one.sub(d.div(radius)).max(scalar::num(0));
        one.add(S::lit(15, 10).sub(one).mul(t).mul(t))
    }
}

/// The nearest of the first `n` icons, the earlier of two equally near ones, with its
/// distance.
pub open spec fn nearest<S: Scalar>(icons: Seq<SceneIcon<S>>, mx: S, my: S, n: int) -> (Option<usize>, S)
    decreases n,
{
    if n <= 0 {
        (None, S::top())
    } else {
        let (k, d) = nearest(icons, mx, my, n - 1);
        let i = icons[n - 1];
        let e = distance(i.x, i.y, i.size, mx, my);
        if e.lt(d) {
            (Some((n - 1) as usize), e)
        } else {
            (k, d)
        }
    }
}

/// The icon that counts as hovered: the nearest one, if it is within reach.
pub open spec fn hovered<S: Scalar>(icons: Seq<SceneIcon<S>>, cursor: Option<(S, S)>, radius: S) -> Option<usize> {
    match cursor {
        Some((mx, my)) => {
            let (k, d) = nearest(icons, mx, my, icons.len() as int);
            if radius.lt(d) {
                None
            } else {
                k
            }
        },
        None => None,
    }
}

/// How much the `i`-th icon grows.
pub open spec fn magnified<S: Scalar>(icons: Seq<SceneIcon<S>>, cursor: Option<(S, S)>, radius: S, i: int) -> S {
    match cursor {
        Some((mx, my)) => growth(distance(icons[i].x, icons[i].y, icons[i].size, mx, my), radius),
        None => scalar::num(1),
    }
}

/// The hovered icon of a sidebar, and how much each icon grows.
pub fn sidebar_magnify<S: Scalar>(
    icons: &Vec<SceneIcon<S>>,
    cursor: Option<(S, S)>,
    icon_size: S,
    gap: S,
) -> (r: (Option<usize>, Vec<S>))
    ensures
        r.0 == hovered(icons@, cursor, reach(icon_size, gap)),
        r.1.len() == icons.len(),
        forall|i: int|
            0 <= i < icons.len() ==> r.1[i] == magnified(icons@, cursor, reach(icon_size, gap), i),
        r.0 matches Some(k) ==> k < icons.len(),
{
    let mut scales: Vec<S> = Vec::new();
    let one = whole_number::<S>(1);
    let two = whole_number::<S>(2);
    let radius = whole_number::<S>(4).times(icon_size.plus(gap).greatest(one));
    let mut near: Option<usize> = None;
    let mut near_d = S::endless();
    let mut i: usize = 0;
    while i < icons.len()
        invariant
            i <= icons.len(),
            one == scalar::num::<S>(1),
            two == scalar::num::<S>(2),
            radius == reach(icon_size, gap),
            scales.len() == i,
            forall|j: int| 0 <= j < i ==> scales[j] == magnified(icons@, cursor, radius, j),
            cursor matches Some((mx, my)) ==> (near, near_d) == nearest(icons@, mx, my, i as int),
            cursor is None ==> near is None,
            near matches Some(k) ==> k < i,
        decreases icons.len() - i,
    {
        match cursor {
            Some((mx, my)) => {
                let ic = &icons[i];
                let dx = mx.minus(ic.x.plus(ic.size.over(two)));
                let dy = my.minus(ic.y.plus(ic.size.over(two)));
                let dist = dx.times(dx).plus(dy.times(dy)).square_root();
                if dist.below(near_d) {
                    near_d = dist;
                    near = Some(i);
                }
                if radius.at_most(dist) {
                    scales.push(one);
                } else {
                    let t = one.minus(dist.over(radius)).greatest(whole_number(0));
                    scales.push(one.plus(S::ratio(15, 10).minus(one).times(t).times(t)));
                }
            },
            None => {
                scales.push(one);
            },
        }
        i += 1;
    }
    if cursor.is_some() && radius.below(near_d) {
        near = None;
    }
    (near, scales)
}

/// What the placing of a label depends on.
#[derive(Debug, Clone, Copy, PartialEq)]
pub struct SidebarGeom<S> {
    pub vw: S,
    pub vh: S,
    pub font_size: S,
    pub scale: S,
    pub pos: SidebarPosition,
}

/// Where the label of a sidebar's icon is shown.
pub open spec fn tooltip<S: Scalar>(g: SidebarGeom<S>, x: S, y: S, size: S, label: Seq<char>) -> RectF<S> {
    let two = scalar::num::<S>(2);
    let four = scalar::num::<S>(4);
    let pad = scalar::num::<S>(7).mul(g.scale);
    let w = text::width_of(label, g.font_size).mul(S::lit(12, 10)).add(pad.mul(two)).max(g.font_size);
    let h = g.font_size.mul(S::lit(16, 10)).add(pad.mul(two));
    let gap = scalar::num::<S>(10).mul(g.scale);
    let (tx, ty) = match g.pos {
        SidebarPosition::Left => (x.add(size).add(gap), y.add(size.div(two)).sub(h.div(two))),
        SidebarPosition::Right => (x.sub(gap).sub(w), y.add(size.div(two)).sub(h.div(two))),
        SidebarPosition::Top => (x.add(size.div(two)).sub(w.div(two)), y.add(size).add(gap)),
    };
    RectF {
        x: tx.max(four).min(g.vw.sub(w).max(four)),
        y: ty.max(four).min(g.vh.sub(h).max(four)),
        w,
        h,
    }
}

/// Where the label of a sidebar's icon is shown: beside the icon, away from the edge of the
/// screen, and within the screen.
pub fn sidebar_tooltip_rect<S: Scalar>(geom: &SidebarGeom<S>, icon: &SceneIcon<S>, label: &str) -> (r: RectF<S>)
    ensures
        r == tooltip(*geom, icon.x, icon.y, icon.size, label@),
{
    let two = whole_number::<S>(2);
    let four = whole_number::<S>(4);
    let pad = whole_number::<S>(7).times(geom.scale);
    let w = estimate_width(label, geom.font_size).times(S::ratio(12, 10)).plus(pad.times(two)).greatest(
        geom.font_size,
    );
    let h = geom.font_size.times(S::ratio(16, 10)).plus(pad.times(two));
    let gap = whole_number::<S>(10).times(geom.scale);
    let (x, y) = match geom.pos {
        SidebarPosition::Left => (
            icon.x.plus(icon.size).plus(gap),
            icon.y.plus(icon.size.over(two)).minus(h.over(two)),
        ),
        SidebarPosition::Right => (
            icon.x.minus(gap).minus(w),
            icon.y.plus(icon.size.over(two)).minus(h.over(two)),
        ),
        SidebarPosition::Top => (
            icon.x.plus(icon.size.over(two)).minus(w.over(two)),
            icon.y.plus(icon.size).plus(gap),
        ),
    };
    RectF {
        x: x.greatest(four).least(geom.vw.minus(w).greatest(four)),
        y: y.greatest(four).least(geom.vh.minus(h).greatest(four)),
        w,
        h,
    }
}

/// Coordinates that leave room for a few sums and differences.
pub open spec fn moderate(r: Rect<i64>) -> bool {
    crate::magnet::moderate(r)
}

/// A dock moved into the work area lies within it along the edge it is docked to, and a
/// dock that lies within it already is not changed.
pub proof fn law_dock_in_work_area(r: Rect<i64>, wa: Rect<i64>, pos: SidebarPosition)
    requires
        moderate(r),
        moderate(wa),
    ensures
        ({
            let q = in_work_area(r, wa, pos);
            &&& wa.y <= q.y && q.y + q.h <= wa.y + wa.h
            &&& pos is Top ==> wa.x <= q.x && q.x + q.w <= wa.x + wa.w
            &&& in_work_area(q, wa, pos) == q
        }),
        crate::magnet::inside(r, wa) ==> in_work_area(r, wa, pos) == r,
{
}

proof fn lemma_nearest(icons: Seq<SceneIcon<i64>>, mx: i64, my: i64, n: int)
    requires
        0 <= n <= icons.len() <= usize::MAX,
    ensures
        forall|i: int|
            0 <= i < n ==> nearest(icons, mx, my, n).1 <= distance(
                (#[trigger] icons[i]).x,
                icons[i].y,
                icons[i].size,
                mx,
                my,
            ),
        nearest(icons, mx, my, n).0 matches Some(k) ==> k < n && nearest(icons, mx, my, n).1 == distance(
            icons[k as int].x,
            icons[k as int].y,
            icons[k as int].size,
            mx,
            my,
        ),
    decreases n,
{
    if n > 0 {
        lemma_nearest(icons, mx, my, n - 1);
    }
}

/// The hovered icon is within reach, and no other icon is nearer to the pointer.
pub proof fn law_hovered_is_nearest(icons: Seq<SceneIcon<i64>>, mx: i64, my: i64, radius: i64, k: usize)
    requires
        icons.len() <= usize::MAX,
        hovered(icons, Some((mx, my)), radius) == Some(k),
    ensures
        k < icons.len(),
        distance(icons[k as int].x, icons[k as int].y, icons[k as int].size, mx, my) <= radius,
        forall|i: int|
            0 <= i < icons.len() ==> distance(
                icons[k as int].x,
                icons[k as int].y,
                icons[k as int].size,
                mx,
                my,
            ) <= distance((#[trigger] icons[i]).x, icons[i].y, icons[i].size, mx, my),
{
    lemma_nearest(icons, mx, my, icons.len() as int);
}

/// A sidebar is docked at its edge of the work area, along the middle of it: at the left, at
/// the right or at the top. It is thick enough for an icon, long enough for its icons or as
/// long as the area, and within the area along its edge.
pub proof fn law_dock_is_at_its_edge(scale: i64, n: int, icon_size: i64, gap: i64, pos: SidebarPosition, wa: Rect<i64>)
    requires
        1 <= scale <= 16,
        0 <= n <= 0x1_0000,
        0 <= icon_size <= 0x1_0000,
        0 <= gap <= 0x1_0000,
        moderate(wa),
        wa.w >= 1600,
        wa.h >= 1600,
        wa.w >= icon_size + 12 * scale,
        wa.h >= icon_size + 12 * scale,
    ensures
        ({
            let d = dock(scale, n, icon_size, gap, pos, wa);
            let need = if n > 0 {
                n * (icon_size + gap) - gap
            } else {
                0
            };
            &&& pos is Left ==> d.x == wa.x
            &&& pos is Right ==> d.x + d.w == wa.x + wa.w
            &&& pos is Top ==> d.y == wa.y
            &&& pos is Top ==> {
                &&& d.h == icon_size + 12 * scale
                &&& wa.x <= d.x && d.x + d.w <= wa.x + wa.w
                &&& d.w >= need + 24 * scale || d.w == wa.w
                &&& d.w == need + 24 * scale || d.w == wa.w || d.w == 100 * scale
                &&& -1 <= (d.x - wa.x) - (wa.x + wa.w - d.x - d.w) <= 1
            }
            &&& !(pos is Top) ==> {
                &&& d.w == icon_size + 12 * scale
                &&& wa.y <= d.y && d.y + d.h <= wa.y + wa.h
                &&& d.h >= need + 24 * scale || d.h == wa.h
                &&& d.h == need + 24 * scale || d.h == wa.h || d.h == 100 * scale
                &&& -1 <= (d.y - wa.y) - (wa.y + wa.h - d.y - d.h) <= 1
            }
        }),
{
    assert(scalar::num::<i64>(0) == 0 && scalar::num::<i64>(2) == 2);
    let step = icon_size + gap;
    assert(0 <= n * step <= 0x1_0000 * 0x2_0000) by (nonlinear_arith)
        requires
            0 <= n <= 0x1_0000,
            0 <= step <= 0x2_0000,
    ;
    assert(n >= 1 ==> step <= n * step) by (nonlinear_arith)
        requires
            0 <= step,
    ;
    let half = i64::lit(5, 10);
    assert(half == 0 && i64::lit(15, 10) == 1);
    assert(icon_size * half == 0) by (nonlinear_arith)
        requires
            half == 0,
    ;
    let one = i64::lit(15, 10);
    assert(icon_size * one == icon_size) by (nonlinear_arith)
        requires
            one == 1,
    ;
    let six = Scalar::mul(scalar::num::<i64>(6), scale);
    let pad = Scalar::mul(scalar::num::<i64>(12), scale);
    assert(six == 6 * scale && pad == 12 * scale);
    let two = scalar::num::<i64>(2);
    assert(six * two == 12 * scale && pad * two == 24 * scale) by (nonlinear_arith)
        requires
            two == 2,
            six == 6 * scale,
            pad == 12 * scale,
    ;
    assert(Scalar::mul(scalar::num::<i64>(100), scale) == 100 * scale);
    assert(wide_gap(icon_size, gap) == gap);
    assert(n > 0 ==> scalar::num::<i64>(n) == n);
    assert(row_length(n, icon_size, gap) == if n > 0 {
        n * step - gap
    } else {
        0
    });
    assert(thickness(icon_size, scale) == icon_size + 12 * scale);
}

/// The label of a sidebar's icon is within the screen, and beside the icon on the side away
/// from the sidebar's edge, where there is room for that.
pub proof fn law_tooltip_is_beside_icon(g: SidebarGeom<i64>, x: i64, y: i64, size: i64, label: Seq<char>)
    requires
        1 <= g.scale <= 16,
        0 <= g.font_size <= 0x1_0000,
        -0x1_0000_0000 <= x <= 0x1_0000_0000,
        -0x1_0000_0000 <= y <= 0x1_0000_0000,
        0 <= size <= 0x1_0000,
        0 <= g.vw <= 0x1_0000_0000,
        0 <= g.vh <= 0x1_0000_0000,
        tooltip(g, x, y, size, label).w <= 0x1_0000_0000,
    ensures
        ({
            let r = tooltip(g, x, y, size, label);
            &&& r.w + 4 <= g.vw ==> 4 <= r.x && r.x + r.w <= g.vw
            &&& r.h + 4 <= g.vh ==> 4 <= r.y && r.y + r.h <= g.vh
            &&& g.pos is Left && 0 <= x && x + size + 10 * g.scale + r.w <= g.vw ==> r.x == x + size + 10 * g.scale
            &&& g.pos is Right && x - 10 * g.scale - r.w >= 4 && x <= g.vw ==> r.x + r.w + 10 * g.scale == x
            &&& g.pos is Top && 0 <= y && y + size + 10 * g.scale + r.h <= g.vh ==> r.y == y + size + 10 * g.scale
        }),
{
    assert(scalar::num::<i64>(4) == 4 && scalar::num::<i64>(2) == 2);
    let pad = Scalar::mul(scalar::num::<i64>(7), g.scale);
    assert(pad == 7 * g.scale);
    let two = scalar::num::<i64>(2);
    assert(pad * two == 14 * g.scale) by (nonlinear_arith)
        requires
            two == 2,
            pad == 7 * g.scale,
    ;
    let one = i64::lit(16, 10);
    assert(g.font_size * one == g.font_size) by (nonlinear_arith)
        requires
            one == 1,
    ;
    assert(Scalar::mul(scalar::num::<i64>(10), g.scale) == 10 * g.scale);
    let r = tooltip(g, x, y, size, label);
    assert(r.h == g.font_size + 14 * g.scale);
    assert(r.w >= g.font_size);
}

/// Icons grow within four icons with their gaps around the pointer, and no further.
pub proof fn law_growth_ends_at_reach(icon_size: i64, gap: i64, d: i64)
    requires
        0 < icon_size <= 0x1000_0000,
        0 <= gap <= 0x1000_0000,
    ensures
        reach(icon_size, gap) == 4 * (icon_size + gap),
        4 * (icon_size + gap) <= d ==> growth(d, reach(icon_size, gap)) == 1,
{
    assert(scalar::num::<i64>(4) == 4);
    assert(scalar::num::<i64>(1) == 1);
}

/// A sidebar is docked by the sizes of its own icons and gaps in pixels, as many as it has.
pub proof fn law_dock_fits_its_fence(scale: i64, f: Fence<i64>, wa: Rect<i64>)
    requires
        1 <= scale <= 16,
        0 <= f.appearance.icon_size <= 0x1000,
        0 <= f.appearance.gap <= 0x1000,
    ensures
        dock_of(scale, f, wa) == dock(
            scale,
            f.icon_ids.len() as int,
            (f.appearance.icon_size * scale) as i64,
            (f.appearance.gap * scale) as i64,
            f.appearance.sidebar_pos,
            wa,
        ),
{
    let (a, b) = (f.appearance.icon_size, f.appearance.gap);
    assert(0 <= a * scale <= 0x1_0000 && 0 <= b * scale <= 0x1_0000) by (nonlinear_arith)
        requires
            0 <= a <= 0x1000,
            0 <= b <= 0x1000,
            1 <= scale <= 16,
    ;
}

} // verus!
