//! Where names are edited in place: over the label of an icon, or over the title of a fence.

use vstd::prelude::*;
use vstd::string::*;

use crate::console;
use crate::console::name_of;
use crate::editing::{EditTarget, InlineEdit};
use crate::fence_view;
use crate::fence_view::{
    grid_cell_w, grid_row_h, LIST_COL_GAP, LIST_ICON_SIZE, LIST_MOD_W, LIST_SIZE_W, LIST_TYPE_W,
};
use crate::intake;
use crate::intake::member_of;
use crate::model::{Desk, Fence, FenceLayout, SidebarPosition};
use crate::overlay::RectF;
use crate::placement;
use crate::scalar;
use crate::scalar::{count, cut_count, whole_number, Scalar};
use crate::text;
use crate::text::estimate_width;
use crate::theme;
use crate::theme::{grid_caption_h_mult, Theme};

verus! {

/// The name of a member of a fence, if it has metadata.
pub open spec fn name_at<S>(d: Desk<S>, fence: int, icon: int) -> Option<Seq<char>> {
    match intake::member_at(d, fence, icon) {
        Some(id) => if d.icons@.dom().contains(id) {
            Some(d.icons@[id].display_name@)
        } else {
            None
        },
        None => None,
    }
}

/// The name of a member of a fence, if it has metadata.
pub fn item_name<S>(desk: &Desk<S>, fence: usize, icon: usize) -> (r: Option<String>)
    ensures
        match r {
            Some(n) => name_at(*desk, fence as int, icon as int) == Some(n@),
            None => name_at(*desk, fence as int, icon as int) is None,
        },
{
    match member_of(desk, fence, icon) {
        Some(id) => match desk.icons.get(id.as_str()) {
            Some(ic) => Some(ic.display_name.clone()),
            None => None,
        },
        None => None,
    }
}

/// The label under the `i`-th icon of a grid, with room for two lines.
pub open spec fn grid_label<S: Scalar>(t: Theme<S>, f: Fence<S>, i: int) -> RectF<S> {
    let s = t.scale;
    let pad = f.appearance.padding.mul(s);
    let top = f.bounds.y.add(pad).add(t.title_block()).add(pad);
    let left = f.bounds.x.add(pad);
    let inner_w = f.bounds.w.sub(scalar::num::<S>(2).mul(pad)).max(scalar::num(1));
    let size = f.appearance.icon_size.mul(s);
    let cell_w = fence_view::cell_width(size, f.appearance.gap.mul(s));
    let cols = fence_view::grid_columns(inner_w, cell_w);
    let x = left.add(scalar::num::<S>(i % cols).mul(cell_w));
    let y = top.add(scalar::num::<S>(i / cols).mul(fence_view::grid_row(t, size))).sub(f.scroll);
    RectF {
        x: x.sub(scalar::num(2)),
        y: y.add(size).add(t.icon_caption_gap),
        w: cell_w.sub(scalar::num(2)),
        h: t.label.size.mul(theme::caption_lines()).add(scalar::num::<S>(8).mul(s)),
    }
}

/// The name in the `i`-th row of a list.
pub open spec fn list_label<S: Scalar>(t: Theme<S>, f: Fence<S>, i: int) -> RectF<S> {
    let s = t.scale;
    let pad = f.appearance.padding.mul(s);
    let top = f.bounds.y.add(pad).add(t.title_block()).add(pad);
    let left = f.bounds.x.add(pad);
    let inner_w = f.bounds.w.sub(scalar::num::<S>(2).mul(pad)).max(scalar::num(1));
    let label_h = t.label.size.mul(S::lit(16, 10));
    let size = scalar::num::<S>(20).mul(s);
    let row_h = size.max(label_h).add(t.list_row_gap);
    let header_h = label_h.add(scalar::num::<S>(8).mul(s));
    let name_w = inner_w.sub(scalar::num::<S>(16).mul(s).mul(scalar::num(3))).sub(scalar::num::<S>(90).mul(s)).sub(
        scalar::num::<S>(140).mul(s),
    ).sub(scalar::num::<S>(80).mul(s)).max(scalar::num::<S>(60).mul(s));
    let y = top.add(header_h).add(scalar::num::<S>(i).mul(row_h)).sub(f.scroll);
    RectF {
        x: left.add(size).add(t.list_label_gap),
        y: y.add(size.sub(label_h).div(scalar::num(2))),
        w: name_w,
        h: label_h.add(scalar::num::<S>(8).mul(s)),
    }
}

/// Where the `i`-th icon of a sidebar stands.
pub open spec fn dock_spot<S: Scalar>(t: Theme<S>, f: Fence<S>, i: int) -> (S, S) {
    let s = t.scale;
    let pad = f.appearance.padding.mul(s);
    let size = f.appearance.icon_size.mul(s);
    let step = size.add(f.appearance.gap.mul(s).add(size.mul(S::lit(5, 10))));
    if f.appearance.sidebar_pos == SidebarPosition::Top {
        let dock_h = size.mul(S::lit(15, 10)).add(scalar::num::<S>(6).mul(s).mul(scalar::num(2)));
        (
            f.bounds.x.add(pad).add(scalar::num::<S>(i).mul(step)).sub(f.scroll),
            f.bounds.y.add(dock_h.sub(size).div(scalar::num(2))),
        )
    } else {
        let dock_w = f.bounds.w.max(size);
        (
            f.bounds.x.add(dock_w.sub(size).div(scalar::num(2))),
            f.bounds.y.add(pad).add(scalar::num::<S>(i).mul(step)).sub(f.scroll),
        )
    }
}

/// The place beside the `i`-th icon of a sidebar where its name is edited, on the screen.
pub open spec fn dock_label<S: Scalar>(t: Theme<S>, f: Fence<S>, i: int, name: Seq<char>, vw: S, vh: S) -> RectF<S> {
    let s = t.scale;
    let size = f.appearance.icon_size.mul(s);
    let (x, y) = dock_spot(t, f, i);
    let label_h = t.label.size.mul(S::lit(16, 10));
    let h = label_h.add(scalar::num::<S>(8).mul(s));
    let w = text::width_of(name, t.label.size).mul(S::lit(12, 10)).add(scalar::num::<S>(12).mul(s)).max(label_h);
    let away = scalar::num::<S>(10).mul(s);
    let two = scalar::num::<S>(2);
    let four = scalar::num::<S>(4);
    let (bx, by) = match f.appearance.sidebar_pos {
        SidebarPosition::Left => (x.add(size).add(away), y.add(size.sub(label_h).div(two))),
        SidebarPosition::Right => (x.sub(away).sub(w), y.add(size.sub(label_h).div(two))),
        SidebarPosition::Top => (x.add(size.div(two)).sub(w.div(two)), y.add(size).add(away)),
    };
    RectF {
        x: bx.max(four).min(vw.sub(w).sub(four).max(four)),
        y: by.max(four).min(vh.sub(h).sub(four).max(four)),
        w,
        h,
    }
}

/// Where the name of the `i`-th member of a fence is edited.
pub open spec fn label_of<S: Scalar>(t: Theme<S>, f: Fence<S>, i: int, name: Seq<char>, vw: S, vh: S) -> RectF<S> {
    match f.appearance.layout {
        FenceLayout::Grid => grid_label(t, f, i),
        FenceLayout::List => list_label(t, f, i),
        FenceLayout::Sidebar => dock_label(t, f, i, name, vw, vh),
    }
}

fn grid_label_rect<S: Scalar>(t: &Theme<S>, f: &Fence<S>, i: usize) -> (r: RectF<S>)
    requires
        i <= i64::MAX,
    ensures
        r == grid_label(*t, *f, i as int),
{
    let s = t.scale;
    let pad = f.appearance.padding.times(s);
    let top = f.bounds.y.plus(pad).plus(t.title_block_h()).plus(pad);
    let left = f.bounds.x.plus(pad);
    let inner_w = f.bounds.w.minus(whole_number::<S>(2).times(pad)).greatest(whole_number(1));
    let size = f.appearance.icon_size.times(s);
    let cell_w = grid_cell_w(size, f.appearance.gap.times(s));
    let fit = cut_count(inner_w.over(cell_w).down());
    let cols: usize = if fit < 1 {
        1
    } else {
        fit
    };
    proof {
        assert(i / cols <= i) by (nonlinear_arith)
            requires
                cols >= 1,
        ;
        assert(i % cols <= i) by (nonlinear_arith)
            requires
                cols >= 1,
        ;
    }
    let x = left.plus(count::<S>(i % cols).times(cell_w));
    let y = top.plus(count::<S>(i / cols).times(grid_row_h(t, size))).minus(f.scroll);
    RectF {
        x: x.minus(whole_number(2)),
        y: y.plus(size).plus(t.icon_caption_gap),
        w: cell_w.minus(whole_number(2)),
        h: t.label.size.times(grid_caption_h_mult()).plus(whole_number::<S>(8).times(s)),
    }
}

fn list_label_rect<S: Scalar>(t: &Theme<S>, f: &Fence<S>, i: usize) -> (r: RectF<S>)
    requires
        i <= i64::MAX,
    ensures
        r == list_label(*t, *f, i as int),
{
    let s = t.scale;
    let pad = f.appearance.padding.times(s);
    let top = f.bounds.y.plus(pad).plus(t.title_block_h()).plus(pad);
    let left = f.bounds.x.plus(pad);
    let inner_w = f.bounds.w.minus(whole_number::<S>(2).times(pad)).greatest(whole_number(1));
    let label_h = t.label.size.times(S::ratio(16, 10));
    let size = whole_number::<S>(LIST_ICON_SIZE).times(s);
    let row_h = size.greatest(label_h).plus(t.list_row_gap);
    let header_h = label_h.plus(whole_number::<S>(8).times(s));
    let name_w = inner_w.minus(whole_number::<S>(LIST_COL_GAP).times(s).times(whole_number(3))).minus(
        whole_number::<S>(LIST_TYPE_W).times(s),
    ).minus(whole_number::<S>(LIST_MOD_W).times(s)).minus(whole_number::<S>(LIST_SIZE_W).times(s)).greatest(
        whole_number::<S>(60).times(s),
    );
    let y = top.plus(header_h).plus(count::<S>(i).times(row_h)).minus(f.scroll);
    RectF {
        x: left.plus(size).plus(t.list_label_gap),
        y: y.plus(size.minus(label_h).over(whole_number(2))),
        w: name_w,
        h: label_h.plus(whole_number::<S>(8).times(s)),
    }
}

fn dock_label_rect<S: Scalar>(t: &Theme<S>, f: &Fence<S>, i: usize, name: &str, vw: S, vh: S) -> (r: RectF<S>)
    requires
        i <= i64::MAX,
    ensures
        r == dock_label(*t, *f, i as int, name@, vw, vh),
{
    let s = t.scale;
    let pad = f.appearance.padding.times(s);
    let size = f.appearance.icon_size.times(s);
    let two = whole_number::<S>(2);
    let four = whole_number::<S>(4);
    let step = size.plus(f.appearance.gap.times(s).plus(size.times(S::ratio(5, 10))));
    let (x, y) = if f.appearance.sidebar_pos == SidebarPosition::Top {
        let dock_h = size.times(S::ratio(15, 10)).plus(whole_number::<S>(6).times(s).times(two));
        (
            f.bounds.x.plus(pad).plus(count::<S>(i).times(step)).minus(f.scroll),
            f.bounds.y.plus(dock_h.minus(size).over(two)),
        )
    } else {
        let dock_w = f.bounds.w.greatest(size);
        (
            f.bounds.x.plus(dock_w.minus(size).over(two)),
            f.bounds.y.plus(pad).plus(count::<S>(i).times(step)).minus(f.scroll),
        )
    };
    let label_h = t.label.size.times(S::ratio(16, 10));
    let h = label_h.plus(whole_number::<S>(8).times(s));
    let w = estimate_width(name, t.label.size).times(S::ratio(12, 10)).plus(whole_number::<S>(12).times(s)).greatest(
        label_h,
    );
    let away = whole_number::<S>(10).times(s);
    let (bx, by) = match f.appearance.sidebar_pos {
        SidebarPosition::Left => (x.plus(size).plus(away), y.plus(size.minus(label_h).over(two))),
        SidebarPosition::Right => (x.minus(away).minus(w), y.plus(size.minus(label_h).over(two))),
        SidebarPosition::Top => (x.plus(size.over(two)).minus(w.over(two)), y.plus(size).plus(away)),
    };
    RectF {
        x: bx.greatest(four).least(vw.minus(w).minus(four).greatest(four)),
        y: by.greatest(four).least(vh.minus(h).minus(four).greatest(four)),
        w,
        h,
    }
}

/// Where the name of a member of a fence is edited; nowhere if there is no such member.
pub fn item_label_rect<S: Scalar>(desk: &Desk<S>, theme: &Theme<S>, vw: S, vh: S, fence: usize, icon: usize) -> (r: Option<
    RectF<S>,
>)
    requires
        placement::countable(desk.fences@),
    ensures
        match r {
            Some(q) => intake::member_at(*desk, fence as int, icon as int) is Some && q == label_of(
                *theme,
                desk.fences[fence as int],
                icon as int,
                match name_at(*desk, fence as int, icon as int) {
                    Some(n) => n,
                    None => Seq::empty(),
                },
                vw,
                vh,
            ),
            None => intake::member_at(*desk, fence as int, icon as int) is None,
        },
{
    if fence >= desk.fences.len() || icon >= desk.fences[fence].icon_ids.len() {
        return None;
    }
    let f = &desk.fences[fence];
    Some(
        match f.appearance.layout {
            FenceLayout::Grid => grid_label_rect(theme, f, icon),
            FenceLayout::List => list_label_rect(theme, f, icon),
            FenceLayout::Sidebar => {
                let name = match item_name(desk, fence, icon) {
                    Some(n) => n,
                    None => String::new(),
                };
                proof {
                    assert(name_at(*desk, fence as int, icon as int) is None ==> name@ =~= Seq::<char>::empty());
                }
                dock_label_rect(theme, f, icon, name.as_str(), vw, vh)
            },
        },
    )
}

/// Where the title of a fence is edited.
pub open spec fn title_of<S: Scalar>(t: Theme<S>, f: Fence<S>) -> RectF<S> {
    let pad = t.fence_padding;
    RectF {
        x: f.bounds.x.add(pad),
        y: f.bounds.y.add(pad),
        w: f.bounds.w.sub(scalar::num::<S>(2).mul(pad)).max(scalar::num(1)),
        h: t.label.size.mul(S::lit(16, 10)).add(scalar::num::<S>(8).mul(t.scale)),
    }
}

/// Where the title of a fence is edited.
pub fn fence_title_rect<S: Scalar>(theme: &Theme<S>, f: &Fence<S>) -> (r: RectF<S>)
    ensures
        r == title_of(*theme, *f),
{
    let pad = theme.fence_padding;
    RectF {
        x: f.bounds.x.plus(pad),
        y: f.bounds.y.plus(pad),
        w: f.bounds.w.minus(whole_number::<S>(2).times(pad)).greatest(whole_number(1)),
        h: theme.label.size.times(S::ratio(16, 10)).plus(whole_number::<S>(8).times(theme.scale)),
    }
}

/// The name and the place with which the renaming of `target` starts; none where there is
/// nothing to rename.
pub open spec fn rename_start<S: Scalar>(d: Desk<S>, t: Theme<S>, vw: S, vh: S, target: EditTarget) -> Option<(
    Seq<char>,
    RectF<S>,
)> {
    match target {
        EditTarget::Item { fence, icon } => match name_at(d, fence as int, icon as int) {
            Some(n) => Some((n, label_of(t, d.fences[fence as int], icon as int, n, vw, vh))),
            None => None,
        },
        EditTarget::FenceTitle { fence } => if fence < d.fences.len() {
            Some((console::fence_name(d.fences[fence as int], fence as int), title_of(t, d.fences[fence as int])))
        } else {
            None
        },
    }
}

/// Starts renaming an icon or a fence in place.
pub fn start_inplace_rename<S: Scalar>(desk: &Desk<S>, theme: &Theme<S>, vw: S, vh: S, target: EditTarget) -> (r: Option<
    InlineEdit<S>,
>)
    requires
        placement::countable(desk.fences@),
    ensures
        match r {
            Some(e) => {
                &&& e.wf()
                &&& e.single_line
                &&& e.focused
                &&& !e.composing
                &&& !e.committing
                &&& e.comp@ == Seq::<char>::empty()
                &&& e.target == target
                &&& e@.lines.len() == 1
                &&& e@.line == 0
                &&& e@.col == 0
                &&& rename_start(*desk, *theme, vw, vh, target) == Some((e@.lines[0], e.rect))
            },
            None => rename_start(*desk, *theme, vw, vh, target) is None,
        },
{
    let (name, rect) = match target {
        EditTarget::Item { fence, icon } => {
            let rect = match item_label_rect(desk, theme, vw, vh, fence, icon) {
                Some(q) => q,
                None => {
                    return None;
                },
            };
            match item_name(desk, fence, icon) {
                Some(n) => (n, rect),
                None => {
                    return None;
                },
            }
        },
        EditTarget::FenceTitle { fence } => {
            if fence >= desk.fences.len() {
                return None;
            }
            (name_of(&desk.fences[fence], fence), fence_title_rect(theme, &desk.fences[fence]))
        },
    };
    Some(InlineEdit::rename(target, rect, name))
}

/// The field in which an icon's name is edited belongs to where the layout puts that icon: in a
/// grid it is right below the icon, in a list beside it, and in a sidebar its place is reckoned
/// from the icon's.
pub proof fn law_label_belongs_to_icon<S: Scalar>(t: Theme<S>, f: Fence<S>, n: int, i: int, name: Seq<char>, vw: S, vh: S)
    requires
        // the fence is scrolled as far as it is shown to be
        fence_view::frame(t, f.bounds, f.appearance, n, f.scroll).scroll == f.scroll,
    ensures
        ({
            let r = fence_view::frame(t, f.bounds, f.appearance, n, f.scroll);
            let (x, y) = fence_view::spot(r, i);
            let label = label_of(t, f, i, name, vw, vh);
            &&& f.appearance.layout is Grid ==> label.x == x.sub(scalar::num(2)) && label.y == y.add(r.icon_size).add(
                t.icon_caption_gap,
            ) && label.w == r.grid_cell_w.sub(scalar::num(2))
            &&& f.appearance.layout is List ==> label.x == x.add(r.icon_size).add(t.list_label_gap) && label.y == y.add(
                r.icon_size.sub(t.label.size.mul(S::lit(16, 10))).div(scalar::num(2)),
            )
            &&& f.appearance.layout is Sidebar ==> dock_spot(t, f, i) == (x, y)
        }),
{
}

/// The field in which a sidebar's icon is renamed is on the screen, if it fits, and beside the
/// icon on the side away from the sidebar's edge, where there is room for that.
pub proof fn law_dock_label_is_beside_icon(t: Theme<i64>, f: Fence<i64>, i: int, name: Seq<char>, vw: i64, vh: i64)
    requires
        1 <= t.scale <= 16,
        0 <= t.label.size <= 0x1_0000,
        0 <= f.appearance.icon_size <= 0x1_0000,
        -0x1_0000_0000 <= dock_spot(t, f, i).0 <= 0x1_0000_0000,
        -0x1_0000_0000 <= dock_spot(t, f, i).1 <= 0x1_0000_0000,
        0 <= vw <= 0x1_0000_0000,
        0 <= vh <= 0x1_0000_0000,
        dock_label(t, f, i, name, vw, vh).w <= 0x1_0000_0000,
    ensures
        ({
            let (x, y) = dock_spot(t, f, i);
            let size = f.appearance.icon_size * t.scale;
            let r = dock_label(t, f, i, name, vw, vh);
            let away = 10 * t.scale;
            &&& r.w + 8 <= vw ==> 4 <= r.x && r.x + r.w + 4 <= vw
            &&& r.h + 8 <= vh ==> 4 <= r.y && r.y + r.h + 4 <= vh
            &&& f.appearance.sidebar_pos is Left && 0 <= x && x + size + away + r.w + 4 <= vw ==> r.x == x + size + away
            &&& f.appearance.sidebar_pos is Right && x - away - r.w >= 4 && x <= vw ==> r.x + r.w + away == x
            &&& f.appearance.sidebar_pos is Top && 0 <= y && y + size + away + r.h + 4 <= vh ==> r.y == y + size + away
        }),
{
    let s = t.scale;
    assert(scalar::num::<i64>(4) == 4 && scalar::num::<i64>(2) == 2);
    assert(0 <= f.appearance.icon_size * s <= 0x10_0000) by (nonlinear_arith)
        requires
            0 <= f.appearance.icon_size <= 0x1_0000,
            1 <= s <= 16,
    ;
    let one = i64::lit(16, 10);
    assert(t.label.size * one == t.label.size) by (nonlinear_arith)
        requires
            one == 1,
    ;
    assert(Scalar::mul(scalar::num::<i64>(8), s) == 8 * s);
    assert(Scalar::mul(scalar::num::<i64>(10), s) == 10 * s);
    assert(Scalar::mul(scalar::num::<i64>(12), s) == 12 * s);
    let r = dock_label(t, f, i, name, vw, vh);
    assert(r.h == t.label.size + 8 * s);
    assert(r.w >= t.label.size);
}

/// A title is edited where it stands: in the fence, within its padding on both sides.
pub proof fn law_title_is_edited_in_place(t: Theme<i64>, f: Fence<i64>)
    requires
        0 <= t.fence_padding <= 0x1000_0000,
        0 <= t.label.size <= 0x1000_0000,
        0 <= t.scale <= 0x1000_0000,
        -0x1000_0000 <= f.bounds.x <= 0x1000_0000,
        -0x1000_0000 <= f.bounds.y <= 0x1000_0000,
        2 * t.fence_padding < f.bounds.w <= 0x1000_0000_0000,
    ensures
        ({
            let r = title_of(t, f);
            &&& r.x - f.bounds.x == t.fence_padding
            &&& r.y - f.bounds.y == t.fence_padding
            &&& f.bounds.x + f.bounds.w - (r.x + r.w) == t.fence_padding
            &&& r.h == t.label.size + 8 * t.scale
        }),
{
    assert(scalar::num::<i64>(2) == 2);
    assert(scalar::num::<i64>(1) == 1);
    assert(scalar::num::<i64>(8) == 8);
    assert(<i64 as Scalar>::lit(16, 10) == 1);
    assert(t.label.size * 1 == t.label.size);
}

} // verus!
