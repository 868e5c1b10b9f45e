//! Where fences stand on the screen: moving and resizing them, docking sidebars, and
//! bringing back what is off the screen or overlaps.

use vstd::prelude::*;

use crate::fence_view::{LIST_ICON_SIZE, MIN_FENCE_H, MIN_FENCE_W};
use crate::geometry::Rect;
use crate::magnet;
use crate::magnet::{settle_move, settle_resize, FreeSides, FENCE_GAP};
use crate::messages::PixelRect;
use crate::model::{Desk, Fence, FenceLayout, SidebarPosition};
use crate::overlay::ResizeZone;
use crate::scalar;
use crate::scalar::{clamp, whole_number, Scalar};
use crate::sidebar;
use crate::sidebar::{clamp_sidebar_work_rect, sidebar_dock_rect};
use crate::theme::Theme;

verus! {

impl<S> Desk<S> {
    /// Everything but the fences is the same.
    pub open spec fn same_but_fences(self, o: Desk<S>) -> bool {
        &&& self.same_but_icons(o)
        &&& self.free_icons == o.free_icons
    }
}

/// The height of the `i`-th fence: its own, or the one it was last shown with where it has
/// none of its own.
pub open spec fn height_of<S: Scalar>(fences: Seq<Fence<S>>, heights: Seq<S>, i: int) -> S {
    if 0 <= i < fences.len() && scalar::num::<S>(0).lt(fences[i].bounds.h) {
        fences[i].bounds.h
    } else if 0 <= i < heights.len() {
        heights[i]
    } else {
        scalar::num(0)
    }
}

/// The height of the `i`-th fence.
pub fn fence_height<S: Scalar>(fences: &Vec<Fence<S>>, heights: &Vec<S>, i: usize) -> (r: S)
    ensures
        r == height_of(fences@, heights@, i as int),
{
    if i < fences.len() && whole_number::<S>(0).below(fences[i].bounds.h) {
        fences[i].bounds.h
    } else if i < heights.len() {
        heights[i]
    } else {
        whole_number(0)
    }
}

/// The rectangle that the `i`-th fence takes up.
pub open spec fn taken<S: Scalar>(fences: Seq<Fence<S>>, heights: Seq<S>, i: int) -> Rect<S> {
    let b = fences[i].bounds;
    Rect { x: b.x, y: b.y, w: b.w, h: height_of(fences, heights, i) }
}

/// The rectangle that the `i`-th fence takes up.
pub fn fence_collision_rect<S: Scalar>(fences: &Vec<Fence<S>>, heights: &Vec<S>, i: usize) -> (r: Rect<S>)
    requires
        i < fences.len(),
    ensures
        r == taken(fences@, heights@, i as int),
{
    let b = fences[i].bounds;
    Rect { x: b.x, y: b.y, w: b.w, h: fence_height(fences, heights, i) }
}

/// The rectangles of the first `n` fences but the `skip`-th.
pub open spec fn taken_by_others<S: Scalar>(fences: Seq<Fence<S>>, heights: Seq<S>, skip: int, n: int) -> Seq<Rect<S>>
    decreases n,
{
    if n <= 0 {
        Seq::empty()
    } else {
        let v = taken_by_others(fences, heights, skip, n - 1);
        if n - 1 == skip {
            v
        } else {
            v.push(taken(fences, heights, n - 1))
        }
    }
}

/// The rectangles of all fences but the `skip`-th; of all where there is no such fence.
pub fn other_bounds<S: Scalar>(fences: &Vec<Fence<S>>, heights: &Vec<S>, skip: usize) -> (r: Vec<Rect<S>>)
    ensures
        r@ == taken_by_others(fences@, heights@, skip as int, fences.len() as int),
{
    let mut out: Vec<Rect<S>> = Vec::new();
    let mut i: usize = 0;
    while i < fences.len()
        invariant
            i <= fences.len(),
            out@ == taken_by_others(fences@, heights@, skip as int, i as int),
        decreases fences.len() - i,
    {
        if i != skip {
            out.push(fence_collision_rect(fences, heights, i));
        }
        i += 1;
    }
    out
}

/// The whole screen.
pub open spec fn screen<S: Scalar>(vw: S, vh: S) -> Rect<S> {
    Rect { x: scalar::num(0), y: scalar::num(0), w: vw, h: vh }
}

/// The whole screen.
pub fn screen_rect<S: Scalar>(vw: S, vh: S) -> (r: Rect<S>)
    ensures
        r == screen(vw, vh),
{
    Rect { x: whole_number(0), y: whole_number(0), w: vw, h: vh }
}

/// The part of the screen that the taskbar leaves, seen from the origin `(ox, oy)` of the
/// screen; the whole screen where the system does not tell, or tells of nothing.
pub open spec fn work_area<S: Scalar>(told: Option<PixelRect>, ox: S, oy: S, vw: S, vh: S) -> Rect<S> {
    match told {
        Some(p) => if p.right <= p.left || p.bottom <= p.top {
            screen(vw, vh)
        } else {
            Rect {
                x: scalar::num::<S>(p.left as int).sub(ox),
                y: scalar::num::<S>(p.top as int).sub(oy),
                w: scalar::num(p.right - p.left),
                h: scalar::num(p.bottom - p.top),
            }
        },
        None => screen(vw, vh),
    }
}

/// The part of the screen that the taskbar leaves.
pub fn work_area_rect<S: Scalar>(told: Option<PixelRect>, ox: S, oy: S, vw: S, vh: S) -> (r: Rect<S>)
    ensures
        r == work_area(told, ox, oy, vw, vh),
{
    match told {
        Some(p) => if p.right <= p.left || p.bottom <= p.top {
            screen_rect(vw, vh)
        } else {
            Rect {
                x: whole_number::<S>(p.left as i64).minus(ox),
                y: whole_number::<S>(p.top as i64).minus(oy),
                w: whole_number(p.right as i64 - p.left as i64),
                h: whole_number(p.bottom as i64 - p.top as i64),
            }
        },
        None => screen_rect(vw, vh),
    }
}

/// The corner `(x, y)` of a rectangle moved so that the rectangle is on the screen; one that
/// is too large stands at the left or the top.
pub open spec fn brought_back<S: Scalar>(x: S, y: S, w: S, h: S, vw: S, vh: S) -> (S, S) {
    let zero = scalar::num::<S>(0);
    (scalar::clamped(x, zero, vw.sub(w).max(zero)), scalar::clamped(y, zero, vh.sub(h).max(zero)))
}

/// The corner `(x, y)` of a rectangle moved so that the rectangle is on the screen.
pub fn clamp_into_screen<S: Scalar>(x: S, y: S, w: S, h: S, vw: S, vh: S) -> (r: (S, S))
    ensures
        r == brought_back(x, y, w, h, vw, vh),
{
    let zero = whole_number::<S>(0);
    (clamp(x, zero, vw.minus(w).greatest(zero)), clamp(y, zero, vh.minus(h).greatest(zero)))
}

/// A rectangle brought onto the screen is on it, unless it is too large, and one that is on
/// it stays.
pub proof fn law_brought_back(x: i64, y: i64, w: i64, h: i64, vw: i64, vh: i64)
    requires
        0 <= w <= vw,
        0 <= h <= vh,
    ensures
        ({
            let (nx, ny) = brought_back(x, y, w, h, vw, vh);
            &&& 0 <= nx && nx + w <= vw
            &&& 0 <= ny && ny + h <= vh
            &&& 0 <= x && x + w <= vw ==> nx == x
            &&& 0 <= y && y + h <= vh ==> ny == y
        }),
{
}

/// Where a sidebar belongs: at its edge of the work area, and within it.
pub open spec fn docked<S: Scalar>(scale: S, f: Fence<S>, wa: Rect<S>) -> Rect<S> {
    sidebar::in_work_area(sidebar::dock_of(scale, f, wa), wa, f.appearance.sidebar_pos)
}

/// Where a sidebar belongs.
pub fn dock_place<S: Scalar>(scale: S, f: &Fence<S>, wa: &Rect<S>) -> (r: Rect<S>)
    requires
        f.icon_ids.len() <= i64::MAX,
    ensures
        r == docked(scale, *f, *wa),
{
    clamp_sidebar_work_rect(sidebar_dock_rect(scale, f, wa), *wa, f.appearance.sidebar_pos)
}

/// The members of every fence can be counted.
pub open spec fn countable<S>(fences: Seq<Fence<S>>) -> bool {
    &&& fences.len() <= i64::MAX
    &&& forall|i: int| 0 <= i < fences.len() ==> (#[trigger] fences[i]).icon_ids.len() <= i64::MAX
}

pub open spec fn same_rect<S: Scalar>(a: Rect<S>, b: Rect<S>) -> bool {
    a.x.same_as(b.x) && a.y.same_as(b.y) && a.w.same_as(b.w) && a.h.same_as(b.h)
}

fn is_same_rect<S: Scalar>(a: &Rect<S>, b: &Rect<S>) -> (r: bool)
    ensures
        r == same_rect(*a, *b),
{
    a.x.equals(b.x) && a.y.equals(b.y) && a.w.equals(b.w) && a.h.equals(b.h)
}

/// Where the `i`-th fence stands after the screen has changed: a sidebar is docked anew, and
/// any other fence is brought back onto the screen.
pub open spec fn reanchored<S: Scalar>(
    fences: Seq<Fence<S>>,
    heights: Seq<S>,
    i: int,
    scale: S,
    wa: Rect<S>,
    vw: S,
    vh: S,
) -> Rect<S> {
    let f = fences[i];
    if f.appearance.layout == FenceLayout::Sidebar {
        let b = docked(scale, f, wa);
        if same_rect(f.bounds, b) {
            f.bounds
        } else {
            b
        }
    } else {
        let (x, y) = brought_back(f.bounds.x, f.bounds.y, f.bounds.w, height_of(fences, heights, i), vw, vh);
        if x.same_as(f.bounds.x) && y.same_as(f.bounds.y) {
            f.bounds
        } else {
            Rect { x, y, w: f.bounds.w, h: f.bounds.h }
        }
    }
}

/// Whether the `i`-th fence has to give its place up after the screen has changed.
pub open spec fn misplaced<S: Scalar>(
    fences: Seq<Fence<S>>,
    heights: Seq<S>,
    i: int,
    scale: S,
    wa: Rect<S>,
    vw: S,
    vh: S,
) -> bool {
    let f = fences[i];
    if f.appearance.layout == FenceLayout::Sidebar {
        !same_rect(f.bounds, docked(scale, f, wa))
    } else {
        let (x, y) = brought_back(f.bounds.x, f.bounds.y, f.bounds.w, height_of(fences, heights, i), vw, vh);
        !x.same_as(f.bounds.x) || !y.same_as(f.bounds.y)
    }
}

/// Whether any of the first `n` fences has to give its place up.
pub open spec fn any_misplaced<S: Scalar>(
    fences: Seq<Fence<S>>,
    heights: Seq<S>,
    n: int,
    scale: S,
    wa: Rect<S>,
    vw: S,
    vh: S,
) -> bool {
    exists|i: int| 0 <= i < n && #[trigger] misplaced(fences, heights, i, scale, wa, vw, vh)
}

/// Puts every fence in its place after the screen has changed; gives whether any moved.
pub fn reanchor_fences<S: Scalar>(desk: &mut Desk<S>, heights: &Vec<S>, scale: S, wa: Rect<S>, vw: S, vh: S) -> (changed: bool)
    requires
        countable(old(desk).fences@),
    ensures
        final(desk).same_but_fences(*old(desk)),
        final(desk).fences.len() == old(desk).fences.len(),
        forall|i: int|
            0 <= i < old(desk).fences.len() ==> #[trigger] final(desk).fences[i] == (Fence {
                bounds: reanchored(old(desk).fences@, heights@, i, scale, wa, vw, vh),
                ..old(desk).fences[i]
            }),
        changed == any_misplaced(
            old(desk).fences@,
            heights@,
            old(desk).fences.len() as int,
            scale,
            wa,
            vw,
            vh,
        ),
{
    let ghost was = desk.fences@;
    let mut changed = false;
    let mut i: usize = 0;
    while i < desk.fences.len()
        invariant
            i <= desk.fences.len(),
            was == old(desk).fences@,
            countable(was),
            desk.same_but_fences(*old(desk)),
            desk.fences.len() == was.len(),
            forall|j: int|
                0 <= j < i ==> #[trigger] desk.fences[j] == (Fence {
                    bounds: reanchored(was, heights@, j, scale, wa, vw, vh),
                    ..was[j]
                }),
            forall|j: int| i <= j < was.len() ==> #[trigger] desk.fences[j] == was[j],
            changed == any_misplaced(was, heights@, i as int, scale, wa, vw, vh),
        decreases desk.fences.len() - i,
    {
        assert(desk.fences[i as int] == was[i as int]);
        let b = desk.fences[i].bounds;
        let new = if desk.fences[i].appearance.layout == FenceLayout::Sidebar {
            let d = dock_place(scale, &desk.fences[i], &wa);
            if is_same_rect(&b, &d) {
                None
            } else {
                Some(d)
            }
        } else {
            let h = fence_height(&desk.fences, heights, i);
            let (x, y) = clamp_into_screen(b.x, b.y, b.w, h, vw, vh);
            if x.equals(b.x) && y.equals(b.y) {
                None
            } else {
                Some(Rect { x, y, w: b.w, h: b.h })
            }
        };
        proof {
            assert((new is Some) == misplaced(was, heights@, i as int, scale, wa, vw, vh));
            if new is Some {
                assert(any_misplaced(was, heights@, i + 1, scale, wa, vw, vh));
            } else {
                assert(any_misplaced(was, heights@, i + 1, scale, wa, vw, vh) ==> any_misplaced(
                    was,
                    heights@,
                    i as int,
                    scale,
                    wa,
                    vw,
                    vh,
                ));
            }
        }
        if let Some(r) = new {
            desk.fences[i].bounds = r;
            changed = true;
        }
        i += 1;
    }
    changed
}

/// A sidebar as it is when the program starts: unfolded, and docked.
pub open spec fn unfolded<S: Scalar>(f: Fence<S>, scale: S, wa: Rect<S>) -> Fence<S> {
    if f.appearance.layout == FenceLayout::Sidebar {
        let open = Fence { sidebar_collapsed: false, ..f };
        let b = docked(scale, open, wa);
        Fence {
            bounds: if same_rect(f.bounds, b) {
                f.bounds
            } else {
                b
            },
            ..open
        }
    } else {
        f
    }
}

/// Whether a sidebar was folded, or not docked.
pub open spec fn astray<S: Scalar>(f: Fence<S>, scale: S, wa: Rect<S>) -> bool {
    f.appearance.layout == FenceLayout::Sidebar && (f.sidebar_collapsed || !same_rect(
        f.bounds,
        docked(scale, Fence { sidebar_collapsed: false, ..f }, wa),
    ))
}

/// Unfolds and docks the sidebars when the program starts; gives whether any needed it.
pub fn unfold_sidebars<S: Scalar>(desk: &mut Desk<S>, scale: S, wa: Rect<S>) -> (changed: bool)
    requires
        countable(old(desk).fences@),
    ensures
        final(desk).same_but_fences(*old(desk)),
        final(desk).fences.len() == old(desk).fences.len(),
        forall|i: int|
            0 <= i < old(desk).fences.len() ==> #[trigger] final(desk).fences[i] == unfolded(
                old(desk).fences[i],
                scale,
                wa,
            ),
        changed == exists|i: int| 0 <= i < old(desk).fences.len() && astray(#[trigger] old(desk).fences[i], scale, wa),
{
    let ghost was = desk.fences@;
    let mut changed = false;
    let mut i: usize = 0;
    while i < desk.fences.len()
        invariant
            i <= desk.fences.len(),
            was == old(desk).fences@,
            countable(was),
            desk.same_but_fences(*old(desk)),
            desk.fences.len() == was.len(),
            forall|j: int| 0 <= j < i ==> #[trigger] desk.fences[j] == unfolded(was[j], scale, wa),
            forall|j: int| i <= j < was.len() ==> #[trigger] desk.fences[j] == was[j],
            changed == exists|j: int| 0 <= j < i && astray(#[trigger] was[j], scale, wa),
        decreases desk.fences.len() - i,
    {
        assert(desk.fences[i as int] == was[i as int]);
        let ghost before = changed;
        if desk.fences[i].appearance.layout == FenceLayout::Sidebar {
            if desk.fences[i].sidebar_collapsed {
                desk.fences[i].sidebar_collapsed = false;
                changed = true;
            }
            let d = dock_place(scale, &desk.fences[i], &wa);
            let b = desk.fences[i].bounds;
            if !is_same_rect(&b, &d) {
                desk.fences[i].bounds = d;
                changed = true;
            }
        }
        proof {
            assert(changed == (before || astray(was[i as int], scale, wa)));
            if changed && !before {
                assert(astray(was[i as int], scale, wa));
            }
        }
        i += 1;
    }
    changed
}

/// The fences after the first `n` of them have given way to the others, one after the other.
pub open spec fn spread_out<S: Scalar>(fences: Seq<Fence<S>>, heights: Seq<S>, vw: S, vh: S, n: int) -> Seq<Fence<S>>
    decreases n,
{
    if n <= 0 {
        fences
    } else {
        let v = spread_out(fences, heights, vw, vh, n - 1);
        if crowded(v, heights, vw, vh, n - 1) {
            let out = given_way(v, heights, vw, vh, n - 1);
            v.update(
                n - 1,
                Fence {
                    bounds: Rect { x: out.x.rounded(), y: out.y.rounded(), ..v[n - 1].bounds },
                    ..v[n - 1]
                },
            )
        } else {
            v
        }
    }
}

/// Where the `i`-th fence goes to give way to the others.
pub open spec fn given_way<S: Scalar>(fences: Seq<Fence<S>>, heights: Seq<S>, vw: S, vh: S, i: int) -> Rect<S> {
    magnet::settled_move(
        taken(fences, heights, i),
        taken_by_others(fences, heights, i, fences.len() as int),
        screen(vw, vh),
        scalar::num(FENCE_GAP as int),
    )
}

/// Whether the `i`-th fence has to go half a pixel or more to give way.
pub open spec fn crowded<S: Scalar>(fences: Seq<Fence<S>>, heights: Seq<S>, vw: S, vh: S, i: int) -> bool {
    let cur = taken(fences, heights, i);
    let out = given_way(fences, heights, vw, vh, i);
    S::lit(5, 10).lt(out.x.sub(cur.x).abs()) || S::lit(5, 10).lt(out.y.sub(cur.y).abs())
}

/// Whether any of the first `n` fences has to give way when its turn comes.
pub open spec fn any_crowded<S: Scalar>(fences: Seq<Fence<S>>, heights: Seq<S>, vw: S, vh: S, n: int) -> bool {
    exists|i: int| 0 <= i < n && #[trigger] crowded(spread_out(fences, heights, vw, vh, i), heights, vw, vh, i)
}

/// Lets every fence in turn give way to the others; gives whether any had to.
pub fn resolve_overlaps<S: Scalar>(desk: &mut Desk<S>, heights: &Vec<S>, vw: S, vh: S) -> (changed: bool)
    ensures
        final(desk).same_but_fences(*old(desk)),
        final(desk).fences@ == spread_out(old(desk).fences@, heights@, vw, vh, old(desk).fences.len() as int),
        changed == any_crowded(old(desk).fences@, heights@, vw, vh, old(desk).fences.len() as int),
{
    let ghost was = desk.fences@;
    let screen = screen_rect(vw, vh);
    let mut changed = false;
    let mut i: usize = 0;
    let n = desk.fences.len();
    while i < n
        invariant
            i <= n,
            n == desk.fences.len(),
            n == was.len(),
            was == old(desk).fences@,
            screen == self::screen(vw, vh),
            desk.same_but_fences(*old(desk)),
            desk.fences@ == spread_out(was, heights@, vw, vh, i as int),
            changed == any_crowded(was, heights@, vw, vh, i as int),
        decreases n - i,
    {
        let others = other_bounds(&desk.fences, heights, i);
        let cur = fence_collision_rect(&desk.fences, heights, i);
        let out = settle_move(&cur, &others, &screen, whole_number(FENCE_GAP));
        let moved = S::ratio(5, 10).below(out.x.minus(cur.x).size()) || S::ratio(5, 10).below(
            out.y.minus(cur.y).size(),
        );
        let ghost now = desk.fences@;
        proof {
            assert(moved == crowded(now, heights@, vw, vh, i as int));
            if moved {
                assert(crowded(spread_out(was, heights@, vw, vh, i as int), heights@, vw, vh, i as int));
                assert(any_crowded(was, heights@, vw, vh, i + 1));
            } else {
                assert(any_crowded(was, heights@, vw, vh, i + 1) ==> any_crowded(was, heights@, vw, vh, i as int));
            }
        }
        if moved {
            let x = out.x.nearest();
            let y = out.y.nearest();
            desk.fences[i].bounds.x = x;
            desk.fences[i].bounds.y = y;
            changed = true;
            proof {
                assert(desk.fences@ =~= spread_out(was, heights@, vw, vh, i + 1));
            }
        }
        i += 1;
    }
    changed
}

/// Where the `i`-th fence goes when it is dragged to `pos`.
pub open spec fn dragged<S: Scalar>(fences: Seq<Fence<S>>, heights: Seq<S>, i: int, pos: (S, S), wa: Rect<S>) -> Rect<S> {
    let f = fences[i];
    let out = magnet::settled_move(
        Rect { x: pos.0, y: pos.1, w: f.bounds.w, h: f.bounds.h },
        taken_by_others(fences, heights, i, fences.len() as int),
        wa,
        scalar::num(FENCE_GAP as int),
    );
    let out = if f.appearance.layout == FenceLayout::Sidebar {
        sidebar::in_work_area(out, wa, f.appearance.sidebar_pos)
    } else {
        out
    };
    Rect { x: out.x, y: out.y, w: f.bounds.w, h: f.bounds.h }
}

/// The fences with other bounds for the `i`-th, if there is one.
pub open spec fn rebounded<S>(fences: Seq<Fence<S>>, i: int, b: Rect<S>) -> Seq<Fence<S>> {
    if 0 <= i < fences.len() {
        fences.update(i, Fence { bounds: b, ..fences[i] })
    } else {
        fences
    }
}

/// Drags the `i`-th fence to `pos`: clear of the others and within the work area.
pub fn move_fence<S: Scalar>(desk: &mut Desk<S>, heights: &Vec<S>, i: usize, pos: (S, S), wa: Rect<S>)
    ensures
        final(desk).same_but_fences(*old(desk)),
        final(desk).fences@ == rebounded(
            old(desk).fences@,
            i as int,
            dragged(old(desk).fences@, heights@, i as int, pos, wa),
        ),
{
    if i < desk.fences.len() {
        let b = desk.fences[i].bounds;
        let others = other_bounds(&desk.fences, heights, i);
        let cand = Rect { x: pos.0, y: pos.1, w: b.w, h: b.h };
        let mut out = settle_move(&cand, &others, &wa, whole_number(FENCE_GAP));
        if desk.fences[i].appearance.layout == FenceLayout::Sidebar {
            out = clamp_sidebar_work_rect(out, wa, desk.fences[i].appearance.sidebar_pos);
        }
        let ghost f = desk.fences[i as int];
        desk.fences[i].bounds.x = out.x;
        desk.fences[i].bounds.y = out.y;
        proof {
            assert(desk.fences@ =~= rebounded(
                old(desk).fences@,
                i as int,
                dragged(old(desk).fences@, heights@, i as int, pos, wa),
            ));
        }
    }
}

/// The sides that a resize at `zone` moves.
pub open spec fn sides_of(zone: ResizeZone) -> FreeSides {
    match zone {
        ResizeZone::Right => FreeSides::Right,
        ResizeZone::Bottom => FreeSides::Bottom,
        ResizeZone::BottomRight => FreeSides::BottomRight,
        ResizeZone::Left => FreeSides::Left,
        ResizeZone::BottomLeft => FreeSides::BottomLeft,
        ResizeZone::TopRight => FreeSides::TopRight,
    }
}

pub fn free_sides(zone: ResizeZone) -> (r: FreeSides)
    ensures
        r == sides_of(zone),
{
    match zone {
        ResizeZone::Right => FreeSides::Right,
        ResizeZone::Bottom => FreeSides::Bottom,
        ResizeZone::BottomRight => FreeSides::BottomRight,
        ResizeZone::Left => FreeSides::Left,
        ResizeZone::BottomLeft => FreeSides::BottomLeft,
        ResizeZone::TopRight => FreeSides::TopRight,
    }
}

/// The bounds of the `i`-th fence when it is resized to `rect`. A sidebar keeps its
/// thickness.
pub open spec fn resized<S: Scalar>(
    fences: Seq<Fence<S>>,
    heights: Seq<S>,
    i: int,
    zone: ResizeZone,
    rect: (S, S, S, S),
    scale: S,
    wa: Rect<S>,
) -> Rect<S> {
    let f = fences[i];
    let out = magnet::settled_resize(
        Rect { x: rect.0, y: rect.1, w: rect.2, h: rect.3 },
        taken_by_others(fences, heights, i, fences.len() as int),
        wa,
        sides_of(zone),
        scalar::num(MIN_FENCE_W as int),
        scalar::num(MIN_FENCE_H as int),
        scalar::num(FENCE_GAP as int),
    );
    if f.appearance.layout == FenceLayout::Sidebar {
        let d = sidebar::dock_of(scale, f, wa);
        let locked = if f.appearance.sidebar_pos == SidebarPosition::Top {
            Rect { x: out.x, y: d.y, w: out.w, h: d.h }
        } else {
            Rect { x: d.x, y: out.y, w: d.w, h: out.h }
        };
        sidebar::in_work_area(locked, wa, f.appearance.sidebar_pos)
    } else {
        out
    }
}

/// Resizes the `i`-th fence: up to the others, and within the work area.
pub fn resize_fence<S: Scalar>(
    desk: &mut Desk<S>,
    heights: &Vec<S>,
    i: usize,
    zone: ResizeZone,
    rect: (S, S, S, S),
    scale: S,
    wa: Rect<S>,
)
    requires
        countable(old(desk).fences@),
    ensures
        final(desk).same_but_fences(*old(desk)),
        final(desk).fences@ == rebounded(
            old(desk).fences@,
            i as int,
            resized(old(desk).fences@, heights@, i as int, zone, rect, scale, wa),
        ),
{
    if i < desk.fences.len() {
        let others = other_bounds(&desk.fences, heights, i);
        let cand = Rect { x: rect.0, y: rect.1, w: rect.2, h: rect.3 };
        let mut out = settle_resize(
            &cand,
            &others,
            &wa,
            free_sides(zone),
            whole_number(MIN_FENCE_W),
            whole_number(MIN_FENCE_H),
            whole_number(FENCE_GAP),
        );
        if desk.fences[i].appearance.layout == FenceLayout::Sidebar {
            let pos = desk.fences[i].appearance.sidebar_pos;
            let d = sidebar_dock_rect(scale, &desk.fences[i], &wa);
            let locked = if pos == SidebarPosition::Top {
                Rect { x: out.x, y: d.y, w: out.w, h: d.h }
            } else {
                Rect { x: d.x, y: out.y, w: d.w, h: out.h }
            };
            out = clamp_sidebar_work_rect(locked, wa, pos);
        }
        desk.fences[i].bounds = out;
        proof {
            assert(desk.fences@ =~= rebounded(
                old(desk).fences@,
                i as int,
                resized(old(desk).fences@, heights@, i as int, zone, rect, scale, wa),
            ));
        }
    }
}

/// How far one notch of the wheel scrolls a fence.
pub open spec fn notch<S: Scalar>(f: Fence<S>, t: Theme<S>) -> S {
    if f.appearance.layout == FenceLayout::List {
        scalar::num::<S>(LIST_ICON_SIZE as int).mul(t.scale).add(t.list_row_gap)
    } else {
        f.appearance.icon_size.add(f.appearance.gap).mul(t.scale)
    }
}

/// The fences after the wheel was turned by `delta` over the `i`-th.
pub open spec fn scrolled<S: Scalar>(fences: Seq<Fence<S>>, i: int, delta: i32, t: Theme<S>) -> Seq<Fence<S>> {
    if 0 <= i < fences.len() {
        let f = fences[i];
        fences.update(
            i,
            Fence {
                scroll: f.scroll.sub(S::lit(delta as i64, 120).mul(notch(f, t))).max(scalar::num(0)),
                ..f
            },
        )
    } else {
        fences
    }
}

/// Scrolls the `i`-th fence, up for a turn away from the user.
pub fn scroll_fence<S: Scalar>(desk: &mut Desk<S>, i: usize, delta: i32, theme: &Theme<S>)
    ensures
        final(desk).same_but_fences(*old(desk)),
        final(desk).fences@ == scrolled(old(desk).fences@, i as int, delta, *theme),
{
    if i < desk.fences.len() {
        let app = desk.fences[i].appearance;
        let step = if app.layout == FenceLayout::List {
            whole_number::<S>(LIST_ICON_SIZE).times(theme.scale).plus(theme.list_row_gap)
        } else {
            app.icon_size.plus(app.gap).times(theme.scale)
        };
        let s = desk.fences[i].scroll.minus(S::ratio(delta as i64, 120).times(step)).greatest(whole_number(0));
        desk.fences[i].scroll = s;
        proof {
            assert(desk.fences@ =~= scrolled(old(desk).fences@, i as int, delta, *theme));
        }
    }
}

/// Once every fence has been put in its place, none has to give it up.
pub proof fn law_reanchoring_settles(
    a: Seq<Fence<i64>>,
    b: Seq<Fence<i64>>,
    heights: Seq<i64>,
    scale: i64,
    wa: Rect<i64>,
    vw: i64,
    vh: i64,
)
    requires
        b.len() == a.len(),
        forall|i: int|
            0 <= i < a.len() ==> #[trigger] b[i] == (Fence {
                bounds: reanchored(a, heights, i, scale, wa, vw, vh),
                ..a[i]
            }),
    ensures
        !any_misplaced(b, heights, b.len() as int, scale, wa, vw, vh),
{
    assert forall|i: int| 0 <= i < b.len() implies !#[trigger] misplaced(b, heights, i, scale, wa, vw, vh) by {
        assert(b[i].icon_ids == a[i].icon_ids);
    }
}

/// A fence that is dragged keeps its size, and no other fence moves.
pub proof fn law_drag_moves_one<S: Scalar>(fences: Seq<Fence<S>>, heights: Seq<S>, i: int, pos: (S, S), wa: Rect<S>)
    requires
        0 <= i < fences.len(),
    ensures
        ({
            let after = rebounded(fences, i, dragged(fences, heights, i, pos, wa));
            &&& after[i].bounds.w == fences[i].bounds.w
            &&& after[i].bounds.h == fences[i].bounds.h
            &&& forall|j: int| 0 <= j < fences.len() && j != i ==> #[trigger] after[j] == fences[j]
        }),
{
}

/// Every other fence is among those that are taken into account, and nothing else is.
proof fn lemma_others(fences: Seq<Fence<i64>>, heights: Seq<i64>, skip: int, n: int)
    requires
        0 <= n <= fences.len(),
    ensures
        forall|j: int|
            0 <= j < n && j != skip ==> taken_by_others(fences, heights, skip, n).contains(
                #[trigger] taken(fences, heights, j),
            ),
        forall|k: int|
            0 <= k < taken_by_others(fences, heights, skip, n).len() ==> exists|j: int|
                0 <= j < n && j != skip && #[trigger] taken(fences, heights, j) == (#[trigger] taken_by_others(
                    fences,
                    heights,
                    skip,
                    n,
                )[k]),
    decreases n,
{
    if n > 0 {
        lemma_others(fences, heights, skip, n - 1);
        let v = taken_by_others(fences, heights, skip, n - 1);
        let w = taken_by_others(fences, heights, skip, n);
        if n - 1 != skip {
            let t = taken(fences, heights, n - 1);
            assert(w == v.push(t));
            assert(w[v.len() as int] == t);
            assert forall|j: int| 0 <= j < n && j != skip implies w.contains(#[trigger] taken(fences, heights, j)) by {
                if j < n - 1 {
                    let k = choose|k: int| 0 <= k < v.len() && v[k] == taken(fences, heights, j);
                    assert(w[k] == taken(fences, heights, j));
                }
            }
            assert forall|k: int| 0 <= k < w.len() implies exists|j: int|
                0 <= j < n && j != skip && #[trigger] taken(fences, heights, j) == #[trigger] w[k] by {
                if k < v.len() {
                    assert(w[k] == v[k]);
                    let j = choose|j: int|
                        0 <= j < n - 1 && j != skip && #[trigger] taken(fences, heights, j) == v[k];
                    assert(taken(fences, heights, j) == w[k]);
                } else {
                    assert(taken(fences, heights, n - 1) == w[k]);
                }
            }
        }
    }
}

/// All fences take up moderate rectangles.
pub open spec fn moderate_fences(fences: Seq<Fence<i64>>, heights: Seq<i64>) -> bool {
    forall|j: int| 0 <= j < fences.len() ==> magnet::moderate(#[trigger] taken(fences, heights, j))
}

/// `r` keeps the distance `gap` from every fence but the `i`-th.
pub open spec fn keeps_away(fences: Seq<Fence<i64>>, heights: Seq<i64>, i: int, r: Rect<i64>, gap: i64) -> bool {
    forall|j: int|
        0 <= j < fences.len() && j != i ==> !magnet::too_close(r, #[trigger] taken(fences, heights, j), gap)
}

proof fn lemma_clear_of_fences(fences: Seq<Fence<i64>>, heights: Seq<i64>, i: int, r: Rect<i64>, gap: i64)
    requires
        magnet::ample(r),
        moderate_fences(fences, heights),
        0 < gap <= 0x100_0000_0000,
    ensures
        magnet::clear(r, taken_by_others(fences, heights, i, fences.len() as int), gap) <==> keeps_away(
            fences,
            heights,
            i,
            r,
            gap,
        ),
        forall|k: int|
            0 <= k < taken_by_others(fences, heights, i, fences.len() as int).len() ==> magnet::moderate(
                #[trigger] taken_by_others(fences, heights, i, fences.len() as int)[k],
            ),
{
    let n = fences.len() as int;
    let v = taken_by_others(fences, heights, i, n);
    lemma_others(fences, heights, i, n);
    assert forall|k: int| 0 <= k < v.len() implies magnet::moderate(#[trigger] v[k]) by {
        let j = choose|j: int| 0 <= j < n && j != i && #[trigger] taken(fences, heights, j) == v[k];
        assert(magnet::moderate(taken(fences, heights, j)));
    }
    if magnet::clear(r, v, gap) {
        assert forall|j: int| 0 <= j < n && j != i implies !magnet::too_close(r, #[trigger] taken(fences, heights, j), gap) by {
            let t = taken(fences, heights, j);
            assert(v.contains(t));
            let k = choose|k: int| 0 <= k < v.len() && v[k] == t;
            assert(magnet::apart(r, v[k], gap));
            magnet::law_apart_is_on_one_side(r, t, gap);
        }
    }
    if keeps_away(fences, heights, i, r, gap) {
        assert forall|k: int| 0 <= k < v.len() implies magnet::apart(r, #[trigger] v[k], gap) by {
            let j = choose|j: int| 0 <= j < n && j != i && #[trigger] taken(fences, heights, j) == v[k];
            magnet::law_apart_is_on_one_side(r, v[k], gap);
        }
    }
}

/// A fence that is dragged goes where the pointer takes it, as long as it stays on the screen
/// and twelve pixels away from every other fence.
pub proof fn law_unhindered_drag_follows(
    fences: Seq<Fence<i64>>,
    heights: Seq<i64>,
    i: int,
    pos: (i64, i64),
    wa: Rect<i64>,
)
    requires
        0 <= i < fences.len(),
        !(fences[i].appearance.layout is Sidebar),
        moderate_fences(fences, heights),
        magnet::moderate(wa),
        magnet::moderate(Rect { x: pos.0, y: pos.1, ..fences[i].bounds }),
        magnet::inside(Rect { x: pos.0, y: pos.1, ..fences[i].bounds }, wa),
        keeps_away(fences, heights, i, Rect { x: pos.0, y: pos.1, ..fences[i].bounds }, 12),
    ensures
        rebounded(fences, i, dragged(fences, heights, i, pos, wa))[i].bounds == (Rect {
            x: pos.0,
            y: pos.1,
            ..fences[i].bounds
        }),
{
    let r = Rect { x: pos.0, y: pos.1, ..fences[i].bounds };
    let v = taken_by_others(fences, heights, i, fences.len() as int);
    lemma_clear_of_fences(fences, heights, i, r, 12);
    magnet::law_inside_stays(r, wa);
    assert(scalar::num::<i64>(FENCE_GAP as int) == 12);
    magnet::law_separated_stays(r, v, wa, 12);
}

/// Where `r` comes to rest it lies on none of the fences but the `i`-th.
pub proof fn lemma_place(
    fences: Seq<Fence<i64>>,
    heights: Seq<i64>,
    i: int,
    r: Rect<i64>,
    wa: Rect<i64>,
    p: Rect<i64>,
    j: int,
)
    requires
        0 <= j < fences.len(),
        j != i,
        moderate_fences(fences, heights),
        magnet::moderate(wa),
        magnet::moderate(r),
        p.w == r.w,
        p.h == r.h,
        magnet::inside(p, wa),
        keeps_away(fences, heights, i, p, 12),
    ensures
        ({
            let q = magnet::settled_move(r, taken_by_others(fences, heights, i, fences.len() as int), wa, 12);
            let t = taken(fences, heights, j);
            &&& q.w == r.w && q.h == r.h
            &&& magnet::inside(q, wa)
            &&& magnet::shared_x(q, t) == 0 || magnet::shared_y(q, t) == 0
        }),
{
    let v = taken_by_others(fences, heights, i, fences.len() as int);
    lemma_clear_of_fences(fences, heights, i, p, 12);
    lemma_others(fences, heights, i, fences.len() as int);
    assert(scalar::num::<i64>(0) == 0);
    magnet::law_move_clears_all(r, v, wa, 12, p);
    magnet::law_move_keeps_size(r, v, wa, 12);
    let q = magnet::settled_move(r, v, wa, 12);
    let t = taken(fences, heights, j);
    let k = choose|k: int| 0 <= k < v.len() && v[k] == t;
    assert(magnet::apart(q, v[k], 0));
}

/// A fence that is dragged comes to lie on no other, and on the screen, if there is any place
/// `p` on the screen at which it lies on none.
pub proof fn law_dragged_lies_on_none(
    fences: Seq<Fence<i64>>,
    heights: Seq<i64>,
    i: int,
    pos: (i64, i64),
    wa: Rect<i64>,
    p: Rect<i64>,
    j: int,
)
    requires
        0 <= i < fences.len(),
        0 <= j < fences.len(),
        j != i,
        !(fences[i].appearance.layout is Sidebar),
        moderate_fences(fences, heights),
        magnet::moderate(wa),
        magnet::moderate(Rect { x: pos.0, y: pos.1, ..fences[i].bounds }),
        p.w == fences[i].bounds.w,
        p.h == fences[i].bounds.h,
        magnet::inside(p, wa),
        keeps_away(fences, heights, i, p, 12),
    ensures
        ({
            let b = rebounded(fences, i, dragged(fences, heights, i, pos, wa))[i].bounds;
            &&& magnet::inside(b, wa)
            &&& magnet::shared_x(b, taken(fences, heights, j)) == 0 || magnet::shared_y(b, taken(fences, heights, j)) == 0
        }),
{
    let r = Rect { x: pos.0, y: pos.1, ..fences[i].bounds };
    assert(scalar::num::<i64>(FENCE_GAP as int) == 12);
    lemma_place(fences, heights, i, r, wa, p, j);
}

/// A fence that is resized takes the rectangle that it was dragged to, as long as that is
/// large enough, on the screen and twelve pixels away from every other fence.
pub proof fn law_unhindered_resize_follows(
    fences: Seq<Fence<i64>>,
    heights: Seq<i64>,
    i: int,
    zone: ResizeZone,
    rect: (i64, i64, i64, i64),
    scale: i64,
    wa: Rect<i64>,
)
    requires
        0 <= i < fences.len(),
        !(fences[i].appearance.layout is Sidebar),
        moderate_fences(fences, heights),
        magnet::moderate(wa),
        rect.2 >= 200,
        rect.3 >= 60,
        magnet::moderate(Rect { x: rect.0, y: rect.1, w: rect.2, h: rect.3 }),
        magnet::inside(Rect { x: rect.0, y: rect.1, w: rect.2, h: rect.3 }, wa),
        keeps_away(fences, heights, i, Rect { x: rect.0, y: rect.1, w: rect.2, h: rect.3 }, 12),
    ensures
        rebounded(fences, i, resized(fences, heights, i, zone, rect, scale, wa))[i].bounds == (Rect {
            x: rect.0,
            y: rect.1,
            w: rect.2,
            h: rect.3,
        }),
{
    let r = Rect { x: rect.0, y: rect.1, w: rect.2, h: rect.3 };
    let v = taken_by_others(fences, heights, i, fences.len() as int);
    lemma_clear_of_fences(fences, heights, i, r, 12);
    assert(scalar::num::<i64>(FENCE_GAP as int) == 12);
    assert(scalar::num::<i64>(MIN_FENCE_W as int) == 200 && scalar::num::<i64>(MIN_FENCE_H as int) == 60);
    magnet::law_unhindered_resize_stays(r, v, wa, sides_of(zone), 200, 60, 12, r);
}

/// A resize leaves every other fence, and of the fence every edge that is not dragged: the
/// edges that the zone names move, and no others.
pub proof fn law_resize_moves_dragged_edges(
    fences: Seq<Fence<i64>>,
    heights: Seq<i64>,
    i: int,
    zone: ResizeZone,
    rect: (i64, i64, i64, i64),
    scale: i64,
    wa: Rect<i64>,
)
    requires
        0 <= i < fences.len(),
        !(fences[i].appearance.layout is Sidebar),
        moderate_fences(fences, heights),
        magnet::moderate(wa),
        magnet::moderate(Rect { x: rect.0, y: rect.1, w: rect.2, h: rect.3 }),
        magnet::inside(Rect { x: rect.0, y: rect.1, w: rect.2, h: rect.3 }, wa),
    ensures
        ({
            let after = rebounded(fences, i, resized(fences, heights, i, zone, rect, scale, wa));
            let b = after[i].bounds;
            &&& forall|j: int| 0 <= j < fences.len() && j != i ==> #[trigger] after[j] == fences[j]
            &&& after[i] == (Fence { bounds: b, ..fences[i] })
            &&& zone is Right || zone is BottomRight || zone is TopRight || zone is Bottom ==> b.x == rect.0
            &&& zone is Left || zone is BottomLeft || zone is Bottom ==> b.x + b.w == rect.0 + rect.2
            &&& zone is Bottom || zone is BottomRight || zone is BottomLeft || zone is Left || zone is Right ==> b.y
                == rect.1
            &&& zone is TopRight || zone is Left || zone is Right ==> b.y + b.h == rect.1 + rect.3
        }),
{
    let r = Rect { x: rect.0, y: rect.1, w: rect.2, h: rect.3 };
    let v = taken_by_others(fences, heights, i, fences.len() as int);
    lemma_clear_of_fences(fences, heights, i, r, 12);
    assert(scalar::num::<i64>(FENCE_GAP as int) == 12);
    assert(scalar::num::<i64>(MIN_FENCE_W as int) == 200 && scalar::num::<i64>(MIN_FENCE_H as int) == 60);
    magnet::law_resize_keeps_far_edges(r, v, wa, sides_of(zone), 200, 60, 12);
    magnet::lemma_resize_bounded(r, v, wa, sides_of(zone), 200, 60, 12);
}

/// Letting fences give way to each other moves fences and changes nothing else of them.
pub proof fn law_spreading_moves_only<S: Scalar>(fences: Seq<Fence<S>>, heights: Seq<S>, vw: S, vh: S, n: int, i: int)
    requires
        0 <= n <= fences.len(),
        0 <= i < fences.len(),
    ensures
        spread_out(fences, heights, vw, vh, n).len() == fences.len(),
        ({
            let f = spread_out(fences, heights, vw, vh, n)[i];
            &&& f == (Fence { bounds: f.bounds, ..fences[i] })
            &&& f.bounds.w == fences[i].bounds.w && f.bounds.h == fences[i].bounds.h
            &&& i >= n ==> f == fences[i]
        }),
    decreases n,
{
    if n > 0 {
        law_spreading_moves_only(fences, heights, vw, vh, n - 1, i);
        law_spreading_moves_only(fences, heights, vw, vh, n - 1, n - 1);
    }
}

/// Fences that keep their distance on the screen all stay where they are.
pub proof fn law_separated_fences_stay(fences: Seq<Fence<i64>>, heights: Seq<i64>, vw: i64, vh: i64, n: int)
    requires
        0 <= n <= fences.len(),
        moderate_fences(fences, heights),
        0 <= vw <= 0x100_0000_0000,
        0 <= vh <= 0x100_0000_0000,
        forall|i: int|
            0 <= i < fences.len() ==> keeps_away(fences, heights, i, #[trigger] taken(fences, heights, i), 12),
        forall|i: int|
            0 <= i < fences.len() ==> magnet::inside(
                #[trigger] taken(fences, heights, i),
                Rect { x: 0, y: 0, w: vw, h: vh },
            ),
    ensures
        spread_out(fences, heights, vw, vh, n) == fences,
        !any_crowded(fences, heights, vw, vh, n),
    decreases n,
{
    if n > 0 {
        law_separated_fences_stay(fences, heights, vw, vh, n - 1);
        let i = n - 1;
        let r = taken(fences, heights, i);
        let v = taken_by_others(fences, heights, i, fences.len() as int);
        lemma_clear_of_fences(fences, heights, i, r, 12);
        magnet::law_inside_stays(r, screen(vw, vh));
        assert(scalar::num::<i64>(FENCE_GAP as int) == 12);
        magnet::law_separated_stays(r, v, screen(vw, vh), 12);
        assert(!crowded(fences, heights, vw, vh, i));
        assert forall|k: int| 0 <= k < n implies !#[trigger] crowded(
            spread_out(fences, heights, vw, vh, k),
            heights,
            vw,
            vh,
            k,
        ) by {
            if k == n - 1 {
            } else {
                assert(!any_crowded(fences, heights, vw, vh, n - 1));
            }
        }
    }
}

/// A notch of the wheel towards the user scrolls a fence down by a row, and one away from the
/// user up by a row, as far as the top; other fences do not scroll.
pub proof fn law_wheel_scrolls_by_rows(fences: Seq<Fence<i64>>, i: int, notches: i32, t: Theme<i64>)
    requires
        0 <= i < fences.len(),
        -1000 <= notches <= 1000,
        1 <= t.scale <= 16,
        0 <= t.list_row_gap <= 0x1_0000,
        0 <= fences[i].appearance.icon_size <= 0x1_0000,
        0 <= fences[i].appearance.gap <= 0x1_0000,
        0 <= fences[i].scroll <= 0x1000_0000_0000,
    ensures
        ({
            let after = scrolled(fences, i, (notches * 120) as i32, t);
            let row = if fences[i].appearance.layout is List {
                20 * t.scale + t.list_row_gap
            } else {
                (fences[i].appearance.icon_size + fences[i].appearance.gap) * t.scale
            };
            &&& after.len() == fences.len()
            &&& forall|j: int| 0 <= j < fences.len() && j != i ==> #[trigger] after[j] == fences[j]
            &&& after[i] == (Fence { scroll: after[i].scroll, ..fences[i] })
            &&& after[i].scroll == if fences[i].scroll - notches * row < 0 {
                0
            } else {
                fences[i].scroll - notches * row
            }
        }),
{
    let f = fences[i];
    let s = t.scale;
    let both = f.appearance.icon_size + f.appearance.gap;
    assert(0 <= both * s <= 0x20_0000 && 0 <= 20 * s <= 0x1_0000) by (nonlinear_arith)
        requires
            0 <= both <= 0x2_0000,
            1 <= s <= 16,
    ;
    assert(scalar::num::<i64>(LIST_ICON_SIZE as int) == 20 && scalar::num::<i64>(0) == 0);
    let d = (notches * 120) as i32;
    assert(d == notches * 120);
    assert(d as int / 120 == notches) by (nonlinear_arith)
        requires
            d == notches * 120,
    ;
    assert(i64::lit(d as i64, 120) == notches);
    let row = notch(f, t);
    assert(Scalar::mul(20i64, s) == 20 * s);
    assert(row == if f.appearance.layout is List {
        20 * s + t.list_row_gap
    } else {
        both * s
    });
    assert(-0x1_0000_0000 * 1000 <= notches * row <= 0x1_0000_0000 * 1000) by (nonlinear_arith)
        requires
            -1000 <= notches <= 1000,
            0 <= row <= 0x1_0000_0000,
    ;
}

/// The work area is the part of the screen that the system tells of, seen from the screen's
/// origin; where it tells of nothing, or of an empty part, it is the whole screen.
pub proof fn law_work_area(told: Option<PixelRect>, ox: i64, oy: i64, vw: i64, vh: i64)
    requires
        -0x1_0000_0000 <= ox <= 0x1_0000_0000,
        -0x1_0000_0000 <= oy <= 0x1_0000_0000,
    ensures
        ({
            let wa = work_area(told, ox, oy, vw, vh);
            match told {
                Some(p) => if p.left < p.right && p.top < p.bottom {
                    &&& wa.x + ox == p.left && wa.y + oy == p.top
                    &&& wa.x + wa.w + ox == p.right && wa.y + wa.h + oy == p.bottom
                } else {
                    wa == (Rect { x: 0i64, y: 0i64, w: vw, h: vh })
                },
                None => wa == (Rect { x: 0i64, y: 0i64, w: vw, h: vh }),
            }
        }),
{
    assert(scalar::num::<i64>(0) == 0);
}

/// After the screen has changed a fence that is no sidebar is on it, if it fits; one that was
/// on it has not moved, and none has changed its size.
pub proof fn law_reanchored_is_on_screen(
    fences: Seq<Fence<i64>>,
    heights: Seq<i64>,
    i: int,
    scale: i64,
    wa: Rect<i64>,
    vw: i64,
    vh: i64,
)
    requires
        0 <= i < fences.len(),
        !(fences[i].appearance.layout is Sidebar),
        moderate_fences(fences, heights),
        0 <= fences[i].bounds.w <= vw <= 0x100_0000_0000,
        0 <= height_of(fences, heights, i) <= vh <= 0x100_0000_0000,
    ensures
        ({
            let r = reanchored(fences, heights, i, scale, wa, vw, vh);
            let was = taken(fences, heights, i);
            &&& 0 <= r.x && r.x + was.w <= vw
            &&& 0 <= r.y && r.y + was.h <= vh
            &&& r.w == fences[i].bounds.w && r.h == fences[i].bounds.h
            &&& 0 <= was.x && was.x + was.w <= vw ==> r.x == was.x
            &&& 0 <= was.y && was.y + was.h <= vh ==> r.y == was.y
        }),
{
    let was = taken(fences, heights, i);
    assert(magnet::moderate(was));
    law_brought_back(was.x, was.y, was.w, was.h, vw, vh);
}

/// A sidebar that was unfolded and docked needs neither again, and nothing but a sidebar is
/// touched.
pub proof fn law_unfolding_settles(f: Fence<i64>, scale: i64, wa: Rect<i64>)
    ensures
        f.appearance.layout != FenceLayout::Sidebar ==> unfolded(f, scale, wa) == f && !astray(f, scale, wa),
        !astray(f, scale, wa) ==> unfolded(f, scale, wa) == f,
        !unfolded(f, scale, wa).sidebar_collapsed || f.appearance.layout != FenceLayout::Sidebar,
        unfolded(f, scale, wa).icon_ids == f.icon_ids,
        unfolded(f, scale, wa).title == f.title,
        unfolded(f, scale, wa).appearance == f.appearance,
{
}

/// A sidebar that is resized keeps its thickness and its edge: across the dock it stays as it
/// is docked, whatever it is resized to.
pub proof fn law_resized_sidebar_stays_docked<S: Scalar>(
    fences: Seq<Fence<S>>,
    heights: Seq<S>,
    i: int,
    zone: ResizeZone,
    rect: (S, S, S, S),
    scale: S,
    wa: Rect<S>,
)
    requires
        0 <= i < fences.len(),
        fences[i].appearance.layout == FenceLayout::Sidebar,
    ensures
        ({
            let r = resized(fences, heights, i, zone, rect, scale, wa);
            let d = docked(scale, fences[i], wa);
            if fences[i].appearance.sidebar_pos == SidebarPosition::Top {
                r.y == d.y && r.h == d.h
            } else {
                r.x == d.x && r.w == d.w
            }
        }),
{
}

/// A fence that has to give way goes where it lies on no other, and on the screen, if there is
/// any such place `p`; one that need not stays.
pub proof fn law_fence_gives_way_to_the_others(
    fences: Seq<Fence<i64>>,
    heights: Seq<i64>,
    vw: i64,
    vh: i64,
    n: int,
    p: Rect<i64>,
    j: int,
)
    requires
        0 < n <= fences.len(),
        0 <= j < fences.len(),
        j != n - 1,
        0 <= vw <= 0x100_0000_0000,
        0 <= vh <= 0x100_0000_0000,
        moderate_fences(spread_out(fences, heights, vw, vh, n - 1), heights),
        ({
            let v = spread_out(fences, heights, vw, vh, n - 1);
            let cur = taken(v, heights, n - 1);
            &&& v.len() == fences.len()
            &&& magnet::moderate(cur)
            &&& p.w == cur.w
            &&& p.h == cur.h
            &&& magnet::inside(p, screen(vw, vh))
            &&& keeps_away(v, heights, n - 1, p, 12)
        }),
    ensures
        ({
            let v = spread_out(fences, heights, vw, vh, n - 1);
            let b = spread_out(fences, heights, vw, vh, n)[n - 1].bounds;
            let q = Rect { x: b.x, y: b.y, ..taken(v, heights, n - 1) };
            let o = taken(v, heights, j);
            &&& crowded(v, heights, vw, vh, n - 1) ==> magnet::inside(q, screen(vw, vh)) && (magnet::shared_x(q, o) == 0
                || magnet::shared_y(q, o) == 0)
            &&& !crowded(v, heights, vw, vh, n - 1) ==> b == v[n - 1].bounds
        }),
{
    let v = spread_out(fences, heights, vw, vh, n - 1);
    let i = n - 1;
    let cur = taken(v, heights, i);
    assert(scalar::num::<i64>(FENCE_GAP as int) == 12);
    assert(scalar::num::<i64>(0) == 0);
    lemma_place(v, heights, i, cur, screen(vw, vh), p, j);
    let out = given_way(v, heights, vw, vh, i);
    assert(Rect { x: out.x, y: out.y, ..cur } == out);
}

} // verus!
