//! Laying out a fence: where its icons stand, how far it scrolls and what it is filled with.

use vstd::prelude::*;
use vstd::string::*;

use crate::chars::same;
use crate::details;
use crate::details::format_size;
use crate::geometry::Rect;
use crate::icon_map::IconMap;
use crate::local_time;
use crate::local_time::{format_modified, FileTime};
use crate::model::{Fence, FenceAppearance, FenceLayout, FenceStyle, Icon, SidebarPosition};
use crate::overlay::RectF;
use crate::scalar;
use crate::scalar::{clamp, count, cut_count, whole_number, Scalar};
use crate::scene::{ListColumns, SceneFence, SceneIcon};
use crate::sidebar;
use crate::sidebar::{icon_row_length, sidebar_dock_thickness, sidebar_eff_gap};
use crate::theme;
use crate::theme::{grid_caption_h_mult, Theme};

verus! {

/// Least width of a fence, in pixels.
pub const MIN_FENCE_W: i64 = 200;

/// Least height of a fence, in pixels.
pub const MIN_FENCE_H: i64 = 60;

/// Width of the outline of a fence, in units.
pub const MEDIUM_BORDER_WIDTH: i64 = 2;

/// Widths of the detail columns of a list, in units.
pub const LIST_TYPE_W: i64 = 90;

pub const LIST_MOD_W: i64 = 140;

pub const LIST_SIZE_W: i64 = 80;

pub const LIST_COL_GAP: i64 = 16;

/// Size of the icons of a list, in units.
pub const LIST_ICON_SIZE: i64 = 20;

/// Rows that a list shows before it scrolls, if it was not resized.
pub const LIST_AUTO_ROWS: usize = 8;

/// What is shown of one member of a fence.
#[derive(Debug, PartialEq)]
pub struct IconRow {
    pub label: String,
    pub bitmap_id: u64,
    pub col_type: String,
    pub col_modified: String,
    pub col_size: String,
}

/// The number of the bitmap under `id`; the greatest number where there is none.
pub open spec fn bitmap_from(bitmaps: Seq<(String, u64)>, id: Seq<char>, from: int) -> u64
    decreases bitmaps.len() - from,
{
    if from < 0 || from >= bitmaps.len() {
        u64::MAX
    } else if bitmaps[from].0@ == id {
        bitmaps[from].1
    } else {
        bitmap_from(bitmaps, id, from + 1)
    }
}

pub fn bitmap_of(bitmaps: &Vec<(String, u64)>, id: &str) -> (r: u64)
    ensures
        r == bitmap_from(bitmaps@, id@, 0),
{
    let mut i: usize = 0;
    while i < bitmaps.len()
        invariant
            i <= bitmaps.len(),
            bitmap_from(bitmaps@, id@, i as int) == bitmap_from(bitmaps@, id@, 0),
        decreases bitmaps.len() - i,
    {
        if same(bitmaps[i].0.as_str(), id) {
            return bitmaps[i].1;
        }
        i += 1;
    }
    u64::MAX
}

/// `row` shows the member `id`: its name, bitmap, type, modification time and size, or
/// nothing but a bitmap where there is no metadata.
pub open spec fn shows_member(
    row: IconRow,
    id: Seq<char>,
    icons: Map<Seq<char>, Icon>,
    bitmaps: Seq<(String, u64)>,
    local: Option<FileTime>,
) -> bool {
    &&& row.bitmap_id == bitmap_from(bitmaps, id, 0)
    &&& if icons.dom().contains(id) {
        let ic = icons[id];
        &&& row.label@ == ic.display_name@
        &&& row.col_type@ == ic.type_label@
        &&& local_time::shows_modified(row.col_modified@, ic.modified_secs, local)
        &&& row.col_size@ == details::size_text(ic.size_bytes)
    } else {
        &&& row.label@ == Seq::<char>::empty()
        &&& row.col_type@ == Seq::<char>::empty()
        &&& row.col_modified@ == Seq::<char>::empty()
        &&& row.col_size@ == Seq::<char>::empty()
    }
}

/// What is shown of the members `ids`; `local` holds for each of them its modification time
/// as the system converted it.
pub fn icon_rows(
    ids: &Vec<String>,
    icons: &IconMap,
    bitmaps: &Vec<(String, u64)>,
    local: &Vec<Option<FileTime>>,
) -> (r: Vec<IconRow>)
    requires
        local.len() == ids.len(),
    ensures
        r.len() == ids.len(),
        forall|i: int|
            0 <= i < ids.len() ==> shows_member(#[trigger] r[i], ids[i]@, icons@, bitmaps@, local[i]),
{
    let mut out: Vec<IconRow> = Vec::new();
    let mut i: usize = 0;
    while i < ids.len()
        invariant
            i <= ids.len(),
            local.len() == ids.len(),
            out.len() == i,
            forall|j: int|
                0 <= j < i ==> shows_member(#[trigger] out[j], ids[j]@, icons@, bitmaps@, local[j]),
        decreases ids.len() - i,
    {
        let bitmap_id = bitmap_of(bitmaps, ids[i].as_str());
        let row = match icons.get(ids[i].as_str()) {
            Some(ic) => IconRow {
                label: ic.display_name.clone(),
                bitmap_id,
                col_type: ic.type_label.clone(),
                col_modified: format_modified(ic.modified_secs, local[i]),
                col_size: format_size(ic.size_bytes),
            },
            None => IconRow {
                label: String::new(),
                bitmap_id,
                col_type: String::new(),
                col_modified: String::new(),
                col_size: String::new(),
            },
        };
        out.push(row);
        i += 1;
    }
    out
}

/// Width of a cell of a grid: an icon and its gap, and room for a label in any case.
pub open spec fn cell_width<S: Scalar>(icon_size: S, gap: S) -> S {
    icon_size.add(gap).max(icon_size.mul(S::lit(15, 10)))
}

/// Height of a row of a grid: an icon and two lines of its label.
pub open spec fn grid_row<S: Scalar>(t: Theme<S>, icon_size: S) -> S {
    icon_size.add(t.icon_caption_gap).add(t.label.size.mul(theme::caption_lines()))
}

pub fn grid_cell_w<S: Scalar>(icon_size: S, gap: S) -> (r: S)
    ensures
        r == cell_width(icon_size, gap),
{
    icon_size.plus(gap).greatest(icon_size.times(S::ratio(15, 10)))
}

pub fn grid_row_h<S: Scalar>(theme: &Theme<S>, icon_size: S) -> (r: S)
    ensures
        r == grid_row(*theme, icon_size),
{
    icon_size.plus(theme.icon_caption_gap).plus(theme.label.size.times(grid_caption_h_mult()))
}

/// How icons follow each other.
#[derive(Debug, Clone, Copy, PartialEq)]
pub enum Arrangement<S> {
    Grid { cols: usize, cell_w: S, row_h: S },
    List { header_h: S, row_h: S },
    /// A sidebar from top to bottom.
    Column { x: S, y: S, step: S },
    /// A sidebar from left to right.
    Row { x: S, y: S, step: S },
}

/// Where icons stand and how far they scroll.
#[derive(Debug, Clone, Copy, PartialEq)]
pub struct Frame<S> {
    pub content_top: S,
    pub content_left: S,
    pub icon_size: S,
    pub arrangement: Arrangement<S>,
    pub scroll: S,
    pub scroll_max: S,
    pub scroll_view: S,
    pub list_cols: Option<ListColumns<S>>,
    pub grid_cell_w: S,
    pub height: S,
}

/// Where the `i`-th icon stands.
pub open spec fn spot<S: Scalar>(f: Frame<S>, i: int) -> (S, S) {
    match f.arrangement {
        Arrangement::Grid { cols, cell_w, row_h } => (
            f.content_left.add(scalar::num::<S>(i % (cols as int)).mul(cell_w)),
            f.content_top.add(scalar::num::<S>(i / (cols as int)).mul(row_h)).sub(f.scroll),
        ),
        Arrangement::List { header_h, row_h } => (
            f.content_left,
            f.content_top.add(header_h).add(scalar::num::<S>(i).mul(row_h)).sub(f.scroll),
        ),
        Arrangement::Column { x, y, step } => (x, y.add(scalar::num::<S>(i).mul(step)).sub(f.scroll)),
        Arrangement::Row { x, y, step } => (x.add(scalar::num::<S>(i).mul(step)).sub(f.scroll), y),
    }
}

/// A height given by the user, no less than the least, or else `auto`.
pub open spec fn chosen<S: Scalar>(given: S, least: S, auto: S) -> S {
    if scalar::num::<S>(0).lt(given) {
        given.max(least)
    } else {
        auto
    }
}

/// The part of `content` beyond `view`.
pub open spec fn beyond<S: Scalar>(content: S, view: S) -> S {
    content.sub(view).max(scalar::num(0))
}

pub open spec fn grid_columns<S: Scalar>(inner_w: S, cell_w: S) -> int {
    let c = scalar::things(inner_w.div(cell_w).floored());
    if c < 1 {
        1
    } else {
        c as int
    }
}

pub open spec fn ceil_div(n: int, d: int) -> int {
    (n + d - 1) / d
}

pub open spec fn at_least_one(n: int) -> int {
    if n < 1 {
        1
    } else {
        n
    }
}

/// The layout of a grid with `n` icons.
pub open spec fn grid_frame<S: Scalar>(t: Theme<S>, b: Rect<S>, app: FenceAppearance<S>, n: int, scroll: S) -> Frame<S> {
    let zero = scalar::num::<S>(0);
    let pad = app.padding.mul(t.scale);
    let block = t.title_block();
    let inner_w = b.w.sub(scalar::num::<S>(2).mul(pad)).max(scalar::num(1));
    let icon_size = app.icon_size.mul(t.scale);
    let cell_w = cell_width(icon_size, app.gap.mul(t.scale));
    let row_h = grid_row(t, icon_size);
    let cols = grid_columns(inner_w, cell_w);
    let content = scalar::num::<S>(at_least_one(ceil_div(n, cols))).mul(row_h);
    let h = chosen(b.h, scalar::num(60), pad.add(block).add(pad).add(content).add(pad));
    let view = h.sub(pad).sub(block).sub(pad).sub(pad).max(zero);
    Frame {
        content_top: b.y.add(pad).add(block).add(pad),
        content_left: b.x.add(pad),
        icon_size,
        arrangement: Arrangement::Grid { cols: cols as usize, cell_w, row_h },
        scroll: scalar::clamped(scroll, zero, beyond(content, view)),
        scroll_max: beyond(content, view),
        scroll_view: view,
        list_cols: None,
        grid_cell_w: cell_w,
        height: h,
    }
}

/// The layout of a list with `n` icons.
pub open spec fn list_frame<S: Scalar>(t: Theme<S>, b: Rect<S>, app: FenceAppearance<S>, n: int, scroll: S) -> Frame<S> {
    let zero = scalar::num::<S>(0);
    let pad = app.padding.mul(t.scale);
    let block = t.title_block();
    let inner_w = b.w.sub(scalar::num::<S>(2).mul(pad)).max(scalar::num(1));
    let left = b.x.add(pad);
    let label_h = t.label.size.mul(S::lit(16, 10));
    let icon = scalar::num::<S>(20).mul(t.scale);
    let row_h = icon.max(label_h).add(t.list_row_gap);
    let header_h = label_h.add(scalar::num::<S>(8).mul(t.scale));
    let content = if n > 0 {
        scalar::num::<S>(n).mul(row_h).sub(t.list_row_gap)
    } else {
        zero
    };
    let shown = if n < 1 {
        1
    } else if n > 8 {
        8
    } else {
        n
    };
    let rows_h = scalar::num::<S>(shown).mul(row_h).sub(t.list_row_gap).max(zero);
    let h = chosen(b.h, scalar::num(60), pad.add(block).add(pad).add(header_h).add(rows_h).add(pad));
    let view = h.sub(pad).sub(block).sub(pad).sub(header_h).sub(pad).max(zero);
    let type_w = scalar::num::<S>(90).mul(t.scale);
    let mod_w = scalar::num::<S>(140).mul(t.scale);
    let size_w = scalar::num::<S>(80).mul(t.scale);
    let gap = scalar::num::<S>(16).mul(t.scale);
    let name_w = inner_w.sub(gap.mul(scalar::num(3))).sub(type_w).sub(mod_w).sub(size_w).max(
        scalar::num::<S>(60).mul(t.scale),
    );
    let type_x = left.add(name_w).add(gap);
    let modified_x = type_x.add(type_w).add(gap);
    Frame {
        content_top: b.y.add(pad).add(block).add(pad),
        content_left: left,
        icon_size: icon,
        arrangement: Arrangement::List { header_h, row_h },
        scroll: scalar::clamped(scroll, zero, beyond(content, view)),
        scroll_max: beyond(content, view),
        scroll_view: view,
        list_cols: Some(ListColumns { type_x, modified_x, size_x: modified_x.add(mod_w).add(gap), header_h }),
        grid_cell_w: zero,
        height: h,
    }
}

/// The layout of a sidebar with `n` icons.
pub open spec fn sidebar_frame<S: Scalar>(
    t: Theme<S>,
    b: Rect<S>,
    app: FenceAppearance<S>,
    n: int,
    scroll: S,
) -> Frame<S> {
    let zero = scalar::num::<S>(0);
    let two = scalar::num::<S>(2);
    let pad = app.padding.mul(t.scale);
    let icon_size = app.icon_size.mul(t.scale);
    let gap = sidebar::wide_gap(icon_size, app.gap.mul(t.scale));
    let content = sidebar::row_length(n, icon_size, gap);
    let auto = pad.add(content).add(pad);
    let step = icon_size.add(gap);
    if app.sidebar_pos is Top {
        let w = chosen(b.w, scalar::num(200), auto);
        let view = w.sub(pad).sub(pad).max(zero);
        let h = sidebar::thickness(icon_size, t.scale);
        Frame {
            content_top: b.y.add(pad),
            content_left: b.x.add(pad),
            icon_size,
            arrangement: Arrangement::Row { x: b.x.add(pad), y: b.y.add(h.sub(icon_size).div(two)), step },
            scroll: scalar::clamped(scroll, zero, beyond(content, view)),
            scroll_max: beyond(content, view),
            scroll_view: view,
            list_cols: None,
            grid_cell_w: zero,
            height: h,
        }
    } else {
        let h = chosen(b.h, scalar::num(60), auto);
        let view = h.sub(pad).sub(pad).max(zero);
        Frame {
            content_top: b.y.add(pad),
            content_left: b.x.add(pad),
            icon_size,
            arrangement: Arrangement::Column {
                x: b.x.add(b.w.max(icon_size).sub(icon_size).div(two)),
                y: b.y.add(pad),
                step,
            },
            scroll: scalar::clamped(scroll, zero, beyond(content, view)),
            scroll_max: beyond(content, view),
            scroll_view: view,
            list_cols: None,
            grid_cell_w: zero,
            height: h,
        }
    }
}

/// The layout of a fence with the bounds `b` and `n` icons.
pub open spec fn frame<S: Scalar>(t: Theme<S>, b: Rect<S>, app: FenceAppearance<S>, n: int, scroll: S) -> Frame<S> {
    match app.layout {
        FenceLayout::Grid => grid_frame(t, b, app, n, scroll),
        FenceLayout::List => list_frame(t, b, app, n, scroll),
        FenceLayout::Sidebar => sidebar_frame(t, b, app, n, scroll),
    }
}

fn choose_length<S: Scalar>(given: S, least: S, auto: S) -> (r: S)
    ensures
        r == chosen(given, least, auto),
{
    if whole_number::<S>(0).below(given) {
        given.greatest(least)
    } else {
        auto
    }
}

fn overflow_of<S: Scalar>(content: S, view: S) -> (r: S)
    ensures
        r == beyond(content, view),
{
    content.minus(view).greatest(whole_number(0))
}

fn rows_needed(n: usize, cols: usize) -> (r: usize)
    requires
        cols >= 1,
    ensures
        r == at_least_one(ceil_div(n as int, cols as int)),
        r <= n || r == 1,
{
    let q: usize = n / cols;
    let m: usize = n % cols;
    proof {
        vstd::arithmetic::div_mod::lemma_fundamental_div_mod(n as int, cols as int);
        let rows = if m == 0 {
            q as int
        } else {
            q + 1
        };
        assert((n + cols - 1) / (cols as int) == rows && rows <= n) by (nonlinear_arith)
            requires
                n == cols * q + m,
                0 <= m < cols,
                q >= 0,
                rows == (if m == 0 {
                    q as int
                } else {
                    q + 1
                }),
        ;
    }
    let rows: usize = if m == 0 {
        q
    } else {
        q + 1
    };
    if rows < 1 {
        1
    } else {
        rows
    }
}

fn lay_grid<S: Scalar>(t: &Theme<S>, b: &Rect<S>, app: &FenceAppearance<S>, n: usize, scroll: S) -> (f: Frame<S>)
    requires
        n <= i64::MAX,
    ensures
        f == grid_frame(*t, *b, *app, n as int, scroll),
        f.arrangement matches Arrangement::Grid { cols, .. } && cols >= 1,
{
    let zero = whole_number::<S>(0);
    let pad = app.padding.times(t.scale);
    let block = t.title_block_h();
    let inner_w = b.w.minus(whole_number::<S>(2).times(pad)).greatest(whole_number(1));
    let icon_size = app.icon_size.times(t.scale);
    let cell_w = grid_cell_w(icon_size, app.gap.times(t.scale));
    let row_h = grid_row_h(t, icon_size);
    let c: usize = cut_count(inner_w.over(cell_w).down());
    let cols: usize = if c < 1 {
        1
    } else {
        c
    };
    let content = count::<S>(rows_needed(n, cols)).times(row_h);
    let h = choose_length(
        b.h,
        whole_number(MIN_FENCE_H),
        pad.plus(block).plus(pad).plus(content).plus(pad),
    );
    let view = h.minus(pad).minus(block).minus(pad).minus(pad).greatest(zero);
    let scroll_max = overflow_of(content, view);
    Frame {
        content_top: b.y.plus(pad).plus(block).plus(pad),
        content_left: b.x.plus(pad),
        icon_size,
        arrangement: Arrangement::Grid { cols, cell_w, row_h },
        scroll: clamp(scroll, zero, scroll_max),
        scroll_max,
        scroll_view: view,
        list_cols: None,
        grid_cell_w: cell_w,
        height: h,
    }
}

fn lay_list<S: Scalar>(t: &Theme<S>, b: &Rect<S>, app: &FenceAppearance<S>, n: usize, scroll: S) -> (f: Frame<S>)
    requires
        n <= i64::MAX,
    ensures
        f == list_frame(*t, *b, *app, n as int, scroll),
{
    let zero = whole_number::<S>(0);
    let pad = app.padding.times(t.scale);
    let block = t.title_block_h();
    let inner_w = b.w.minus(whole_number::<S>(2).times(pad)).greatest(whole_number(1));
    let left = b.x.plus(pad);
    let label_h = t.label.size.times(S::ratio(16, 10));
    let icon = whole_number::<S>(LIST_ICON_SIZE).times(t.scale);
    let row_h = icon.greatest(label_h).plus(t.list_row_gap);
    let header_h = label_h.plus(whole_number::<S>(8).times(t.scale));
    let content = if n > 0 {
        count::<S>(n).times(row_h).minus(t.list_row_gap)
    } else {
        zero
    };
    let shown: usize = if n < 1 {
        1
    } else if n > LIST_AUTO_ROWS {
        LIST_AUTO_ROWS
    } else {
        n
    };
    let rows_h = count::<S>(shown).times(row_h).minus(t.list_row_gap).greatest(zero);
    let h = choose_length(
        b.h,
        whole_number(MIN_FENCE_H),
        pad.plus(block).plus(pad).plus(header_h).plus(rows_h).plus(pad),
    );
    let view = h.minus(pad).minus(block).minus(pad).minus(header_h).minus(pad).greatest(zero);
    let scroll_max = overflow_of(content, view);
    let type_w = whole_number::<S>(LIST_TYPE_W).times(t.scale);
    let mod_w = whole_number::<S>(LIST_MOD_W).times(t.scale);
    let size_w = whole_number::<S>(LIST_SIZE_W).times(t.scale);
    let gap = whole_number::<S>(LIST_COL_GAP).times(t.scale);
    let name_w = inner_w.minus(gap.times(whole_number(3))).minus(type_w).minus(mod_w).minus(size_w).greatest(
        whole_number::<S>(60).times(t.scale),
    );
    let type_x = left.plus(name_w).plus(gap);
    let modified_x = type_x.plus(type_w).plus(gap);
    Frame {
        content_top: b.y.plus(pad).plus(block).plus(pad),
        content_left: left,
        icon_size: icon,
        arrangement: Arrangement::List { header_h, row_h },
        scroll: clamp(scroll, zero, scroll_max),
        scroll_max,
        scroll_view: view,
        list_cols: Some(
            ListColumns { type_x, modified_x, size_x: modified_x.plus(mod_w).plus(gap), header_h },
        ),
        grid_cell_w: zero,
        height: h,
    }
}

fn lay_sidebar<S: Scalar>(t: &Theme<S>, b: &Rect<S>, app: &FenceAppearance<S>, n: usize, scroll: S) -> (f: Frame<S>)
    requires
        n <= i64::MAX,
    ensures
        f == sidebar_frame(*t, *b, *app, n as int, scroll),
{
    let zero = whole_number::<S>(0);
    let two = whole_number::<S>(2);
    let pad = app.padding.times(t.scale);
    let icon_size = app.icon_size.times(t.scale);
    let gap = sidebar_eff_gap(icon_size, app.gap.times(t.scale));
    let content = icon_row_length(n, icon_size, gap);
    let auto = pad.plus(content).plus(pad);
    let step = icon_size.plus(gap);
    if app.sidebar_pos == SidebarPosition::Top {
        let w = choose_length(b.w, whole_number(MIN_FENCE_W), auto);
        let view = w.minus(pad).minus(pad).greatest(zero);
        let scroll_max = overflow_of(content, view);
        let h = sidebar_dock_thickness(icon_size, t.scale);
        Frame {
            content_top: b.y.plus(pad),
            content_left: b.x.plus(pad),
            icon_size,
            arrangement: Arrangement::Row {
                x: b.x.plus(pad),
                y: b.y.plus(h.minus(icon_size).over(two)),
                step,
            },
            scroll: clamp(scroll, zero, scroll_max),
            scroll_max,
            scroll_view: view,
            list_cols: None,
            grid_cell_w: zero,
            height: h,
        }
    } else {
        let h = choose_length(b.h, whole_number(MIN_FENCE_H), auto);
        let view = h.minus(pad).minus(pad).greatest(zero);
        let scroll_max = overflow_of(content, view);
        Frame {
            content_top: b.y.plus(pad),
            content_left: b.x.plus(pad),
            icon_size,
            arrangement: Arrangement::Column {
                x: b.x.plus(b.w.greatest(icon_size).minus(icon_size).over(two)),
                y: b.y.plus(pad),
                step,
            },
            scroll: clamp(scroll, zero, scroll_max),
            scroll_max,
            scroll_view: view,
            list_cols: None,
            grid_cell_w: zero,
            height: h,
        }
    }
}

/// The layout of a fence with the bounds `b` and `n` icons.
pub fn fence_frame<S: Scalar>(
    theme: &Theme<S>,
    b: &Rect<S>,
    app: &FenceAppearance<S>,
    n: usize,
    scroll: S,
) -> (f: Frame<S>)
    requires
        n <= i64::MAX,
    ensures
        f == frame(*theme, *b, *app, n as int, scroll),
        f.arrangement matches Arrangement::Grid { cols, .. } ==> cols >= 1,
{
    match app.layout {
        FenceLayout::Grid => lay_grid(theme, b, app, n, scroll),
        FenceLayout::List => lay_list(theme, b, app, n, scroll),
        FenceLayout::Sidebar => lay_sidebar(theme, b, app, n, scroll),
    }
}

/// Where the `i`-th icon stands.
pub fn spot_of<S: Scalar>(f: &Frame<S>, i: usize) -> (r: (S, S))
    requires
        i <= i64::MAX,
        f.arrangement matches Arrangement::Grid { cols, .. } ==> cols >= 1,
    ensures
        r == spot(*f, i as int),
{
    match f.arrangement {
        Arrangement::Grid { cols, cell_w, row_h } => {
            proof {
                assert(i / cols <= i && i % cols <= i) by (nonlinear_arith)
                    requires
                        cols > 0,
                        i >= 0,
                ;
            }
            (
                f.content_left.plus(count::<S>(i % cols).times(cell_w)),
                f.content_top.plus(count::<S>(i / cols).times(row_h)).minus(f.scroll),
            )
        },
        Arrangement::List { header_h, row_h } => (
            f.content_left,
            f.content_top.plus(header_h).plus(count::<S>(i).times(row_h)).minus(f.scroll),
        ),
        Arrangement::Column { x, y, step } => (x, y.plus(count::<S>(i).times(step)).minus(f.scroll)),
        Arrangement::Row { x, y, step } => (x.plus(count::<S>(i).times(step)).minus(f.scroll), y),
    }
}

/// The four channels are these.
pub open spec fn channels<S>(c: [S; 4], r: S, g: S, b: S, a: S) -> bool {
    c@[0] == r && c@[1] == g && c@[2] == b && c@[3] == a
}

/// `from`, 45 parts in a hundred of the way to `to`.
pub open spec fn toned<S: Scalar>(from: S, to: S) -> S {
    from.add(to.sub(from).mul(S::lit(45, 100)))
}

/// What the fence is filled with: a colour in full, a translucent glass tinted towards the
/// colour, or nothing.
pub open spec fn filled_with<S: Scalar>(app: FenceAppearance<S>, fill: Option<[S; 4]>) -> bool {
    let bg = app.bg_color@;
    match app.bg_style {
        FenceStyle::Filled => fill matches Some(c) && match app.tint {
            Some(t) => channels(c, t@[0], t@[1], t@[2], scalar::num(1)),
            None => channels(c, bg[0], bg[1], bg[2], scalar::num(1)),
        },
        FenceStyle::Glass => fill matches Some(c) && match app.tint {
            Some(t) => channels(c, toned(bg[0], t@[0]), toned(bg[1], t@[1]), toned(bg[2], t@[2]), S::lit(55, 100)),
            None => channels(c, bg[0], bg[1], bg[2], S::lit(55, 100)),
        },
        FenceStyle::Outline => fill is None,
        FenceStyle::Blur => fill is None,
    }
}

fn tone<S: Scalar>(from: S, to: S) -> (r: S)
    ensures
        r == toned(from, to),
{
    from.plus(to.minus(from).times(S::ratio(45, 100)))
}

/// What a fence is filled with.
pub fn fill_of<S: Scalar>(app: &FenceAppearance<S>) -> (r: Option<[S; 4]>)
    ensures
        filled_with(*app, r),
{
    let bg = app.bg_color;
    match app.bg_style {
        FenceStyle::Filled => {
            let one = whole_number::<S>(1);
            Some(
                match app.tint {
                    Some(t) => [t[0], t[1], t[2], one],
                    None => [bg[0], bg[1], bg[2], one],
                },
            )
        },
        FenceStyle::Glass => {
            let a = S::ratio(55, 100);
            Some(
                match app.tint {
                    Some(t) => [tone(bg[0], t[0]), tone(bg[1], t[1]), tone(bg[2], t[2]), a],
                    None => [bg[0], bg[1], bg[2], a],
                },
            )
        },
        FenceStyle::Outline => None,
        FenceStyle::Blur => None,
    }
}

/// The outline follows the system's theme: light on dark, dark on light.
pub open spec fn outlined_with<S: Scalar>(dark: bool, c: [S; 4]) -> bool {
    if dark {
        channels(c, scalar::num(1), scalar::num(1), scalar::num(1), S::lit(42, 100))
    } else {
        channels(c, scalar::num(0), scalar::num(0), scalar::num(0), S::lit(45, 100))
    }
}

fn outline_color<S: Scalar>(dark: bool) -> (c: [S; 4])
    ensures
        outlined_with(dark, c),
{
    if dark {
        let one = whole_number::<S>(1);
        [one, one, one, S::ratio(42, 100)]
    } else {
        let zero = whole_number::<S>(0);
        [zero, zero, zero, S::ratio(45, 100)]
    }
}

pub open spec fn of_fence(fence: usize) -> spec_fn((usize, usize)) -> bool {
    |k: (usize, usize)| k.0 == fence
}

/// The icons among `keys` that belong to the fence, in order.
pub open spec fn icons_of(keys: Seq<(usize, usize)>, fence: usize) -> Seq<usize> {
    keys.filter(of_fence(fence)).map_values(|k: (usize, usize)| k.1)
}

/// The icons among `keys` that belong to the fence.
pub fn selected_in(keys: &Vec<(usize, usize)>, fence: usize) -> (r: Vec<usize>)
    ensures
        r@ == icons_of(keys@, fence),
{
    let mut out: Vec<usize> = Vec::new();
    let ghost s = keys@;
    let mut i: usize = 0;
    proof {
        reveal(Seq::filter);
        assert(out@ =~= icons_of(s.take(0), fence));
    }
    while i < keys.len()
        invariant
            i <= keys.len(),
            s == keys@,
            out@ == icons_of(s.take(i as int), fence),
        decreases keys.len() - i,
    {
        let k = keys[i];
        proof {
            reveal(Seq::filter);
            assert(s.take(i + 1).drop_last() =~= s.take(i as int));
        }
        if k.0 == fence {
            out.push(k.1);
        }
        proof {
            assert(out@ =~= icons_of(s.take(i + 1), fence));
        }
        i += 1;
    }
    proof {
        assert(s.take(i as int) =~= s);
    }
    out
}

/// `ic` shows `row` at its place in the frame, at its usual size.
pub open spec fn placed<S: Scalar>(ic: SceneIcon<S>, row: IconRow, f: Frame<S>, i: int) -> bool {
    &&& ic.label@ == row.label@
    &&& ic.bitmap_id == row.bitmap_id
    &&& (ic.x, ic.y) == spot(f, i)
    &&& ic.size == f.icon_size
    &&& ic.col_type@ == row.col_type@
    &&& ic.col_modified@ == row.col_modified@
    &&& ic.col_size@ == row.col_size@
    &&& ic.scale == scalar::num::<S>(1)
}

/// The icons of `rows` in their places.
pub fn place_icons<S: Scalar>(rows: Vec<IconRow>, f: &Frame<S>) -> (r: Vec<SceneIcon<S>>)
    requires
        rows.len() <= i64::MAX,
        f.arrangement matches Arrangement::Grid { cols, .. } ==> cols >= 1,
    ensures
        r.len() == rows.len(),
        forall|i: int| 0 <= i < rows.len() ==> placed(#[trigger] r[i], rows[i], *f, i),
{
    let mut out: Vec<SceneIcon<S>> = Vec::new();
    let mut i: usize = 0;
    while i < rows.len()
        invariant
            i <= rows.len() <= i64::MAX,
            f.arrangement matches Arrangement::Grid { cols, .. } ==> cols >= 1,
            out.len() == i,
            forall|j: int| 0 <= j < i ==> placed(#[trigger] out[j], rows[j], *f, j),
        decreases rows.len() - i,
    {
        let (x, y) = spot_of(f, i);
        let row = &rows[i];
        out.push(
            SceneIcon {
                label: row.label.clone(),
                bitmap_id: row.bitmap_id,
                x,
                y,
                size: f.icon_size,
                col_type: row.col_type.clone(),
                col_modified: row.col_modified.clone(),
                col_size: row.col_size.clone(),
                scale: whole_number(1),
            },
        );
        i += 1;
    }
    out
}

/// `t`, or nothing.
pub open spec fn text_or_empty(t: Option<String>) -> Seq<char> {
    match t {
        Some(s) => s@,
        None => Seq::empty(),
    }
}

/// `sf` is the fence with the bounds `b` laid out. It shows `rows`, its border follows the
/// system's theme, and of hover, selection and band it shows what belongs to it.
pub open spec fn laid_out<S: Scalar>(
    sf: SceneFence<S>,
    t: Theme<S>,
    fence: Fence<S>,
    b: Rect<S>,
    rows: Seq<IconRow>,
    dark: bool,
    hover: Option<(usize, usize)>,
    selected: Seq<(usize, usize)>,
    band: Option<(usize, RectF<S>)>,
    idx: usize,
) -> bool {
    let f = frame(t, b, fence.appearance, rows.len() as int, fence.scroll);
    &&& sf.x == b.x.rounded()
    &&& sf.y == b.y.rounded()
    &&& sf.width == b.w.rounded()
    &&& sf.height == f.height.rounded()
    &&& sf.title@ == text_or_empty(fence.title)
    &&& sf.icons.len() == rows.len()
    &&& forall|i: int| 0 <= i < rows.len() ==> placed(#[trigger] sf.icons[i], rows[i], f, i)
    &&& sf.layout == fence.appearance.layout
    &&& sf.list_cols == f.list_cols
    &&& sf.grid_cell_w == f.grid_cell_w
    &&& sf.scroll == f.scroll
    &&& sf.scroll_max == f.scroll_max
    &&& sf.scroll_view == f.scroll_view
    &&& sf.content_top == f.content_top
    &&& sf.content_left == f.content_left
    &&& sf.hover_icon == (match hover {
        Some((fi, ii)) => if fi == idx {
            Some(ii)
        } else {
            None
        },
        None => None,
    })
    &&& sf.selected@ == icons_of(selected, idx)
    &&& sf.select_band == (match band {
        Some((fi, r)) => if fi == idx {
            Some(r)
        } else {
            None
        },
        None => None,
    })
    &&& sf.border_width == scalar::num::<S>(2).mul(t.scale).rounded().max(scalar::num(1))
    &&& outlined_with(dark, sf.border_color)
    &&& filled_with(fence.appearance, sf.fill_color)
    &&& sf.blur == (fence.appearance.bg_style == FenceStyle::Blur)
    &&& sf.alpha == scalar::num::<S>(1)
    &&& sf.tooltip_rect is None
    &&& sf.reorder_drag is None
}

/// Lays a fence out within the bounds `b`.
///
/// A fence that was not resized (its height is not positive) is as high as its content: a
/// grid in full, a list up to eight rows. What does not fit is scrolled.
pub fn layout_fence<S: Scalar>(
    theme: &Theme<S>,
    fence: &Fence<S>,
    b: &Rect<S>,
    rows: Vec<IconRow>,
    dark: bool,
    hover: Option<(usize, usize)>,
    selected: &Vec<(usize, usize)>,
    select_band: Option<(usize, RectF<S>)>,
    fence_idx: usize,
) -> (sf: SceneFence<S>)
    requires
        rows.len() <= i64::MAX,
    ensures
        laid_out(sf, *theme, *fence, *b, rows@, dark, hover, selected@, select_band, fence_idx),
{
    let app = &fence.appearance;
    let f = fence_frame(theme, b, app, rows.len(), fence.scroll);
    let icons = place_icons(rows, &f);
    let hover_icon = match hover {
        Some((fi, ii)) => if fi == fence_idx {
            Some(ii)
        } else {
            None
        },
        None => None,
    };
    let band = match select_band {
        Some((fi, r)) => if fi == fence_idx {
            Some(r)
        } else {
            None
        },
        None => None,
    };
    let title = match &fence.title {
        Some(s) => s.clone(),
        None => String::new(),
    };
    SceneFence {
        x: b.x.nearest(),
        y: b.y.nearest(),
        width: b.w.nearest(),
        height: f.height.nearest(),
        title,
        icons,
        layout: app.layout,
        list_cols: f.list_cols,
        grid_cell_w: f.grid_cell_w,
        scroll: f.scroll,
        scroll_max: f.scroll_max,
        scroll_view: f.scroll_view,
        content_top: f.content_top,
        content_left: f.content_left,
        hover_icon,
        selected: selected_in(selected, fence_idx),
        select_band: band,
        border_width: whole_number::<S>(MEDIUM_BORDER_WIDTH).times(theme.scale).nearest().greatest(
            whole_number(1),
        ),
        border_color: outline_color(dark),
        fill_color: fill_of(app),
        blur: app.bg_style == FenceStyle::Blur,
        alpha: whole_number(1),
        tooltip_rect: None,
        reorder_drag: None,
    }
}

/// The widest of the names of the first `n` members that have metadata.
pub open spec fn widest<S: Scalar>(ids: Seq<String>, icons: Map<Seq<char>, Icon>, size: S, n: int) -> S
    decreases n,
{
    if n <= 0 {
        scalar::num(0)
    } else {
        let w = widest(ids, icons, size, n - 1);
        let id = ids[n - 1]@;
        if icons.dom().contains(id) {
            w.max(crate::text::width_of(icons[id].display_name@, size))
        } else {
            w
        }
    }
}

/// The width that suits a list of the fence's members.
pub open spec fn list_width<S: Scalar>(t: Theme<S>, f: Fence<S>, icons: Map<Seq<char>, Icon>) -> S {
    let s = t.scale;
    let cols = scalar::num::<S>(90).add(scalar::num(140)).add(scalar::num(80)).add(
        scalar::num::<S>(16).mul(scalar::num(3)),
    ).mul(s);
    let base = f.appearance.padding.mul(s).mul(scalar::num(2)).add(scalar::num::<S>(20).mul(s)).add(
        t.list_label_gap,
    ).add(widest(f.icon_ids@, icons, t.label.size, f.icon_ids.len() as int));
    base.add(cols).max(scalar::num::<S>(420).mul(s))
}

/// The width that suits a list of the fence's members: the longest name, the detail columns
/// and the space around them.
pub fn list_auto_width<S: Scalar>(theme: &Theme<S>, fence: &Fence<S>, icons: &IconMap) -> (r: S)
    ensures
        r == list_width(*theme, *fence, icons@),
{
    let s = theme.scale;
    let mut max_w = whole_number::<S>(0);
    let mut i: usize = 0;
    while i < fence.icon_ids.len()
        invariant
            i <= fence.icon_ids.len(),
            max_w == widest(fence.icon_ids@, icons@, theme.label.size, i as int),
        decreases fence.icon_ids.len() - i,
    {
        match icons.get(fence.icon_ids[i].as_str()) {
            Some(ic) => {
                max_w = max_w.greatest(crate::text::estimate_width(ic.display_name.as_str(), theme.label.size));
            },
            None => {},
        }
        i += 1;
    }
    let fixed = whole_number::<S>(LIST_TYPE_W).plus(whole_number(LIST_MOD_W)).plus(whole_number(LIST_SIZE_W)).plus(
        whole_number::<S>(LIST_COL_GAP).times(whole_number(3)),
    ).times(s);
    let base = fence.appearance.padding.times(s).times(whole_number(2)).plus(
        whole_number::<S>(LIST_ICON_SIZE).times(s),
    ).plus(theme.list_label_gap).plus(max_w);
    base.plus(fixed).greatest(whole_number::<S>(420).times(s))
}

/// A fence never scrolls beyond its content, whatever scroll it is given.
pub proof fn law_scroll_within_content(t: Theme<i64>, b: Rect<i64>, app: FenceAppearance<i64>, n: int, scroll: i64)
    ensures
        ({
            let f = frame(t, b, app, n, scroll);
            &&& 0 <= f.scroll <= f.scroll_max
            &&& f.scroll_view >= 0
            &&& frame(t, b, app, n, f.scroll) == f
        }),
{
}

/// Measures of a moderate size.
pub open spec fn moderate(t: Theme<i64>, b: Rect<i64>, app: FenceAppearance<i64>) -> bool {
    &&& 1 <= t.scale <= 16
    &&& 1 <= app.icon_size <= 0x1_0000
    &&& 0 <= app.gap <= 0x1_0000
    &&& 0 <= app.padding <= 0x1_0000
    &&& 0 <= t.icon_caption_gap <= 0x1_0000
    &&& 0 <= t.list_row_gap <= 0x1_0000
    &&& 0 <= t.label.size <= 0x1_0000
    &&& 0 <= t.title.size <= 0x1_0000
    &&& 0 <= t.title_padding_bottom <= 0x1_0000
    &&& -0x1000_0000 <= b.x <= 0x1000_0000
    &&& -0x1000_0000 <= b.y <= 0x1000_0000
    &&& 0 <= b.w <= 0x1000_0000
    &&& 0 <= b.h <= 0x1000_0000
}

proof fn lemma_cells(i: int, n: int, cols: int, cell: int, row: int, inner: int)
    requires
        0 <= i < n,
        1 <= cell,
        0 <= row,
        1 <= inner,
        cols == if inner / cell < 1 {
            1
        } else {
            inner / cell
        },
    ensures
        0 <= i % cols < cols,
        0 <= i / cols <= i,
        i % cols <= i,
        0 <= (i % cols) * cell,
        (i % cols) * cell + cell <= inner || ((i % cols) * cell == 0 && inner < cell),
        0 <= (i / cols) * row,
        (i / cols) * row + row <= at_least_one(ceil_div(n, cols)) * row,
        at_least_one(ceil_div(n, cols)) * row <= n * row,
        1 <= at_least_one(ceil_div(n, cols)) <= n,
        (i % cols) * cell <= inner,
        (i / cols) * row <= n * row,
        (i % cols) * cell + 2 * cell <= inner ==> (i + 1) % cols == i % cols + 1 && (i + 1) / cols == i / cols && ((i
            + 1) % cols) * cell == (i % cols) * cell + cell,
        (i % cols) * cell + 2 * cell > inner ==> (i + 1) % cols == 0 && (i + 1) / cols == i / cols + 1 && ((i + 1)
            / cols) * row == (i / cols) * row + row,
{
    let c = i % cols;
    let q = i / cols;
    let fit = inner / cell;
    vstd::arithmetic::div_mod::lemma_fundamental_div_mod(i, cols);
    vstd::arithmetic::div_mod::lemma_fundamental_div_mod(inner, cell);
    vstd::arithmetic::div_mod::lemma_mod_bound(i, cols);
    vstd::arithmetic::div_mod::lemma_mod_bound(inner, cell);
    assert(i == cols * q + c);
    assert(0 <= q <= i) by (nonlinear_arith)
        requires
            i == cols * q + c,
            0 <= c < cols,
            0 <= i,
            1 <= cols,
    ;
    assert(inner == cell * fit + inner % cell);
    assert(fit >= 0) by (nonlinear_arith)
        requires
            inner == cell * fit + inner % cell,
            inner % cell < cell,
            inner >= 1,
            cell >= 1,
    ;
    assert(c * cell + cell <= cols * cell) by (nonlinear_arith)
        requires
            c + 1 <= cols,
            cell >= 1,
    ;
    assert(0 <= c * cell && 0 <= q * row) by (nonlinear_arith)
        requires
            0 <= c,
            0 <= q,
            0 <= cell,
            0 <= row,
    ;
    assert(cols * cell == cell * cols) by (nonlinear_arith);
    assert(fit < 1 ==> c == 0 && inner < cell) by (nonlinear_arith)
        requires
            fit >= 0,
            inner == cell * fit + inner % cell,
            inner % cell < cell,
            0 <= c < cols,
            fit < 1 ==> cols == 1,
    ;
    assert(c == 0 ==> c * cell == 0) by (nonlinear_arith);
    // the rows
    let rows = ceil_div(n, cols);
    vstd::arithmetic::div_mod::lemma_fundamental_div_mod(n + cols - 1, cols);
    vstd::arithmetic::div_mod::lemma_mod_bound(n + cols - 1, cols);
    assert(q + 1 <= rows <= n) by (nonlinear_arith)
        requires
            n + cols - 1 == cols * rows + (n + cols - 1) % cols,
            0 <= (n + cols - 1) % cols < cols,
            i == cols * q + c,
            0 <= c < cols,
            i < n,
            1 <= cols,
            0 <= q,
    ;
    assert(q * row + row <= rows * row && rows * row <= n * row) by (nonlinear_arith)
        requires
            q + 1 <= rows <= n,
            0 <= row,
    ;
    // the next one
    if c + 1 < cols {
        vstd::arithmetic::div_mod::lemma_fundamental_div_mod_converse(i + 1, cols, q, c + 1);
        assert((c + 1) * cell == c * cell + cell) by (nonlinear_arith);
        assert((c + 1) * cell + cell <= cols * cell) by (nonlinear_arith)
            requires
                c + 2 <= cols,
                cell >= 1,
        ;
    } else {
        assert(cols * (q + 1) == cols * q + cols) by (nonlinear_arith);
        vstd::arithmetic::div_mod::lemma_fundamental_div_mod_converse(i + 1, cols, q + 1, 0);
        assert((q + 1) * row == q * row + row) by (nonlinear_arith);
        assert(c * cell + 2 * cell > inner) by (nonlinear_arith)
            requires
                c + 1 == cols,
                inner == cell * fit + inner % cell,
                inner % cell < cell,
                fit <= cols,
                cell >= 1,
        ;
    }
}

/// The icons of a grid stand in rows, from the left to the right and from the top down: the
/// first at the upper left of the content, the next one beside it as long as another cell fits
/// into the fence, and else at the left end of the next row. All cells lie in the content, so
/// that scrolling shows each of them, and no two icons overlap.
#[verifier::spinoff_prover]
pub proof fn law_grid_fills_rows(
    t: Theme<i64>,
    b: Rect<i64>,
    app: FenceAppearance<i64>,
    n: int,
    scroll: i64,
    i: int,
)
    requires
        app.layout is Grid,
        moderate(t, b, app),
        0 <= i < n <= 0x1_0000_0000,
    ensures
        ({
            let f = frame(t, b, app, n, scroll);
            let pad = app.padding * t.scale;
            let icon = app.icon_size * t.scale;
            let cell = f.grid_cell_w as int;
            let row = icon + t.icon_caption_gap + 2 * t.label.size;
            let inner = b.w - 2 * pad;
            let (x, y) = spot(f, i);
            let (x2, y2) = spot(f, i + 1);
            &&& f.icon_size == icon
            &&& cell >= icon + app.gap * t.scale
            &&& f.content_left == b.x + pad
            &&& b.y + t.title.size + t.title_padding_bottom + 2 * pad <= f.content_top
            &&& spot(f, 0) == (f.content_left, (f.content_top - f.scroll) as i64)
            &&& x + 2 * cell <= f.content_left + inner ==> x2 == x + cell && y2 == y
            &&& x + 2 * cell > f.content_left + inner && inner >= 1 ==> x2 == f.content_left && y2 == y + row
            &&& f.content_left <= x
            &&& x + cell <= f.content_left + inner || x == f.content_left
            &&& f.content_top <= y + f.scroll
            &&& y + f.scroll + row <= f.content_top + f.scroll_max + f.scroll_view
        }),
{
    lemma_grid_measures(t, b, app);
    lemma_grid_frame(t, b, app, n, scroll);
    lemma_grid(t, b, app, n, scroll, 0);
    lemma_grid(t, b, app, n, scroll, i);
    lemma_grid(t, b, app, n, scroll, i + 1);
    let cols = columns_of(b, app, t);
    let cell = cell_of(app, t);
    let row = row_of(app, t);
    let inner = inner_of(b, app, t);
    lemma_cells(i, n, cols, cell, row, inner);
    vstd::arithmetic::div_mod::lemma_fundamental_div_mod_converse(0, cols, 0, 0);
    assert(0 * cell == 0 && 0 * row == 0) by (nonlinear_arith);
    let f = frame(t, b, app, n, scroll);
    assert(spot(f, 0) == (f.content_left, (f.content_top - f.scroll) as i64));
    if (i % cols) * cell + 2 * cell <= inner {
        assert(spot(f, i + 1).0 == spot(f, i).0 + cell);
        assert(((i + 1) / cols) * row == (i / cols) * row);
        assert(spot(f, i + 1).1 == spot(f, i).1);
    } else {
        assert(((i + 1) % cols) * cell == 0);
        assert(spot(f, i + 1).0 == f.content_left);
        assert(spot(f, i + 1).1 == spot(f, i).1 + row);
    }
}

proof fn lemma_scaled(a: int, scale: int)
    requires
        0 <= a <= 0x1_0000,
        1 <= scale <= 16,
    ensures
        a <= a * scale <= 0x10_0000,
{
    assert(a <= a * scale <= 0x10_0000) by (nonlinear_arith)
        requires
            0 <= a <= 0x1_0000,
            1 <= scale <= 16,
    ;
}

proof fn lemma_once(a: i64, k: i64)
    ensures
        k == 1 ==> Scalar::mul(a, k) == a && Scalar::mul(k, a) == a,
        k == 2 && -0x1000_0000_0000 <= a <= 0x1000_0000_0000 ==> Scalar::mul(a, k) == 2 * a && Scalar::mul(k, a) == 2 * a,
        k == 0 ==> Scalar::mul(a, k) == 0 && Scalar::mul(k, a) == 0,
{
    assert(k == 1 ==> a * k == a && k * a == a) by (nonlinear_arith);
    assert(k == 2 ==> a * k == 2 * a && k * a == 2 * a) by (nonlinear_arith);
    assert(k == 0 ==> a * k == 0 && k * a == 0) by (nonlinear_arith);
}

/// Inner width of a fence.
spec fn inner_of(b: Rect<i64>, app: FenceAppearance<i64>, t: Theme<i64>) -> int {
    if b.w - 2 * (app.padding * t.scale) > 1 {
        b.w - 2 * (app.padding * t.scale)
    } else {
        1
    }
}

spec fn cell_of(app: FenceAppearance<i64>, t: Theme<i64>) -> int {
    app.icon_size * t.scale + app.gap * t.scale
}

spec fn row_of(app: FenceAppearance<i64>, t: Theme<i64>) -> int {
    app.icon_size * t.scale + t.icon_caption_gap + 2 * t.label.size
}

spec fn columns_of(b: Rect<i64>, app: FenceAppearance<i64>, t: Theme<i64>) -> int {
    if inner_of(b, app, t) / cell_of(app, t) < 1 {
        1
    } else {
        inner_of(b, app, t) / cell_of(app, t)
    }
}

/// The measures of a grid, in whole numbers.
proof fn lemma_grid_measures(t: Theme<i64>, b: Rect<i64>, app: FenceAppearance<i64>)
    requires
        moderate(t, b, app),
    ensures
        ({
            let pad = Scalar::mul(app.padding, t.scale);
            let icon = Scalar::mul(app.icon_size, t.scale);
            let gap = Scalar::mul(app.gap, t.scale);
            let inner = Scalar::max(Scalar::sub(b.w, Scalar::mul(scalar::num::<i64>(2), pad)), scalar::num::<i64>(1));
            &&& pad == app.padding * t.scale && 0 <= pad <= 0x10_0000
            &&& icon == app.icon_size * t.scale && 1 <= icon <= 0x10_0000
            &&& gap == app.gap * t.scale && 0 <= gap <= 0x10_0000
            &&& inner == inner_of(b, app, t) && 1 <= inner <= 0x1000_0000
            &&& cell_width(icon, gap) == cell_of(app, t) && 1 <= cell_of(app, t) <= 0x20_0000
            &&& grid_row(t, icon) == row_of(app, t) && 1 <= row_of(app, t) <= 0x20_0000
            &&& t.title_block() == t.title.size + t.title_padding_bottom
            &&& grid_columns(inner, cell_width(icon, gap)) == columns_of(b, app, t)
            &&& 1 <= columns_of(b, app, t) <= 0x1000_0000
        }),
{
    lemma_scaled(app.padding as int, t.scale as int);
    lemma_scaled(app.icon_size as int, t.scale as int);
    lemma_scaled(app.gap as int, t.scale as int);
    let pad = Scalar::mul(app.padding, t.scale);
    let icon = Scalar::mul(app.icon_size, t.scale);
    lemma_once(icon, i64::lit(15, 10));
    lemma_once(t.title.size, i64::lit(16, 10));
    lemma_once(t.label.size, i64::lit(26, 10));
    lemma_once(pad, scalar::num::<i64>(2));
    let inner = inner_of(b, app, t);
    let cell = cell_of(app, t);
    assert(0 <= inner / cell <= inner) by (nonlinear_arith)
        requires
            1 <= cell,
            1 <= inner,
    ;
}

/// The frame of a grid, in whole numbers.
proof fn lemma_grid_frame(t: Theme<i64>, b: Rect<i64>, app: FenceAppearance<i64>, n: int, scroll: i64)
    requires
        app.layout is Grid,
        moderate(t, b, app),
        0 < n <= 0x1_0000_0000,
    ensures
        ({
            let f = frame(t, b, app, n, scroll);
            let cols = columns_of(b, app, t);
            let cell = cell_of(app, t);
            let row = row_of(app, t);
            let pad = app.padding * t.scale;
            let content = at_least_one(ceil_div(n, cols)) * row;
            &&& f.arrangement == Arrangement::Grid { cols: cols as usize, cell_w: cell as i64, row_h: row as i64 }
            &&& f.icon_size == app.icon_size * t.scale
            &&& f.grid_cell_w == cell
            &&& f.content_left == b.x + pad
            &&& f.content_top == b.y + 2 * pad + t.title.size + t.title_padding_bottom
            &&& 0 <= f.scroll <= f.scroll_max <= 0x20_0000 * 0x1_0000_0000
            &&& content <= f.scroll_max + f.scroll_view
            &&& f.scroll == scroll || (scroll < 0 && f.scroll == 0) || (scroll > f.scroll_max && f.scroll == f.scroll_max)
            &&& f.scroll_max == 0 || f.scroll_max == content - f.scroll_view
            &&& b.h > 0 ==> f.height == if b.h < 60 {
                60
            } else {
                b.h
            }
            &&& b.h == 0 ==> f.height == content + 3 * pad + t.title.size + t.title_padding_bottom && f.scroll_max == 0
            &&& f.scroll_view == 0 || f.content_top + f.scroll_view + pad == b.y + f.height
        }),
{
    lemma_grid_measures(t, b, app);
    let cols = columns_of(b, app, t);
    let cell = cell_of(app, t);
    let row = row_of(app, t);
    lemma_cells(n - 1, n, cols, cell, row, inner_of(b, app, t));
    let rows = at_least_one(ceil_div(n, cols));
    assert(0 <= n * row <= 0x20_0000 * 0x1_0000_0000) by (nonlinear_arith)
        requires
            0 <= n <= 0x1_0000_0000,
            0 <= row <= 0x20_0000,
    ;
    assert(0 <= rows * row) by (nonlinear_arith)
        requires
            0 <= rows,
            0 <= row,
    ;
    assert(scalar::num::<i64>(rows) == rows && scalar::num::<i64>(0) == 0 && scalar::num::<i64>(60) == 60);
    let content = Scalar::mul(scalar::num::<i64>(rows), row as i64);
    assert(content == rows * row);
}

/// Where the `i`-th icon of a grid stands, in whole numbers.
proof fn lemma_grid(t: Theme<i64>, b: Rect<i64>, app: FenceAppearance<i64>, n: int, scroll: i64, i: int)
    requires
        app.layout is Grid,
        moderate(t, b, app),
        0 <= i <= n <= 0x1_0000_0000,
        0 < n,
    ensures
        ({
            let f = frame(t, b, app, n, scroll);
            let cols = columns_of(b, app, t);
            &&& spot(f, i).0 == f.content_left + (i % cols) * cell_of(app, t)
            &&& spot(f, i).1 == f.content_top + (i / cols) * row_of(app, t) - f.scroll
        }),
{
    lemma_grid_measures(t, b, app);
    lemma_grid_frame(t, b, app, n, scroll);
    let cols = columns_of(b, app, t);
    let cell = cell_of(app, t);
    let row = row_of(app, t);
    lemma_cells(i, n + 1, cols, cell, row, inner_of(b, app, t));
    assert((n + 1) * row <= 0x20_0000 * 0x1_0000_0001) by (nonlinear_arith)
        requires
            0 <= n <= 0x1_0000_0000,
            0 <= row <= 0x20_0000,
    ;
    assert(scalar::num::<i64>(i % cols) == i % cols && scalar::num::<i64>(i / cols) == i / cols);
    let f = frame(t, b, app, n, scroll);
    assert(spot(f, i) == (
        Scalar::add(f.content_left, Scalar::mul((i % cols) as i64, cell as i64)),
        Scalar::sub(Scalar::add(f.content_top, Scalar::mul((i / cols) as i64, row as i64)), f.scroll),
    ));
}

/// Of two icons of a grid the later one stands in a lower row, or further right in the same.
pub proof fn law_grid_keeps_order(
    t: Theme<i64>,
    b: Rect<i64>,
    app: FenceAppearance<i64>,
    n: int,
    scroll: i64,
    i: int,
    j: int,
)
    requires
        app.layout is Grid,
        moderate(t, b, app),
        0 <= i < j < n <= 0x1_0000_0000,
    ensures
        ({
            let f = frame(t, b, app, n, scroll);
            let row = app.icon_size * t.scale + t.icon_caption_gap + 2 * t.label.size;
            spot(f, i).1 + row <= spot(f, j).1 || (spot(f, i).1 == spot(f, j).1 && spot(f, i).0 + f.grid_cell_w <= spot(
                f,
                j,
            ).0)
        }),
{
    lemma_grid_measures(t, b, app);
    lemma_grid_frame(t, b, app, n, scroll);
    lemma_grid(t, b, app, n, scroll, i);
    lemma_grid(t, b, app, n, scroll, j);
    let cols = columns_of(b, app, t);
    let cell = cell_of(app, t);
    let row = row_of(app, t);
    vstd::arithmetic::div_mod::lemma_fundamental_div_mod(i, cols);
    vstd::arithmetic::div_mod::lemma_fundamental_div_mod(j, cols);
    vstd::arithmetic::div_mod::lemma_mod_bound(i, cols);
    vstd::arithmetic::div_mod::lemma_mod_bound(j, cols);
    let (ri, ci, rj, cj) = (i / cols, i % cols, j / cols, j % cols);
    assert(ri < rj || (ri == rj && ci < cj)) by (nonlinear_arith)
        requires
            cols >= 1,
            i < j,
            0 <= ci < cols,
            0 <= cj < cols,
            i == cols * ri + ci,
            j == cols * rj + cj,
    ;
    assert(ri < rj ==> ri * row + row <= rj * row) by (nonlinear_arith)
        requires
            row >= 0,
    ;
    assert(ci < cj ==> ci * cell + cell <= cj * cell) by (nonlinear_arith)
        requires
            cell >= 0,
    ;
}

/// A grid that was not resized is as high as its rows need and does not scroll; one that was
/// is as high as it was made, and at least sixty pixels. What is to be seen ends above the
/// lower edge, and the content scrolls exactly as far as it does not fit.
pub proof fn law_grid_height(t: Theme<i64>, b: Rect<i64>, app: FenceAppearance<i64>, n: int, scroll: i64)
    requires
        app.layout is Grid,
        moderate(t, b, app),
        0 < n <= 0x1_0000_0000,
    ensures
        ({
            let f = frame(t, b, app, n, scroll);
            let pad = app.padding * t.scale;
            let row = app.icon_size * t.scale + t.icon_caption_gap + 2 * t.label.size;
            let end = spot(f, n - 1).1 + f.scroll + row;
            &&& b.h == 0 ==> b.y + f.height == end + pad && f.scroll_max == 0
            &&& b.h > 0 ==> f.height >= b.h && f.height >= 60 && (f.height == b.h || f.height == 60)
            &&& f.scroll_view == 0 || f.content_top + f.scroll_view + pad == b.y + f.height
            &&& f.scroll_max == if end > f.content_top + f.scroll_view {
                end - f.content_top - f.scroll_view
            } else {
                0
            }
            &&& 0 <= scroll <= f.scroll_max ==> f.scroll == scroll
        }),
{
    lemma_grid_measures(t, b, app);
    lemma_grid_frame(t, b, app, n, scroll);
    lemma_grid(t, b, app, n, scroll, n - 1);
    let cols = columns_of(b, app, t);
    let row = row_of(app, t);
    lemma_cells(n - 1, n, cols, cell_of(app, t), row, inner_of(b, app, t));
    let rows = ceil_div(n, cols);
    let q = (n - 1) / cols;
    vstd::arithmetic::div_mod::lemma_fundamental_div_mod(n - 1, cols);
    vstd::arithmetic::div_mod::lemma_mod_bound(n - 1, cols);
    assert(n - 1 + cols == cols * (q + 1) + (n - 1) % cols) by (nonlinear_arith)
        requires
            n - 1 == cols * q + (n - 1) % cols,
    ;
    vstd::arithmetic::div_mod::lemma_fundamental_div_mod_converse(n - 1 + cols, cols, q + 1, (n - 1) % cols);
    assert(rows == q + 1);
    assert(rows * row == q * row + row) by (nonlinear_arith)
        requires
            rows == q + 1,
    ;
}

/// The icons of a list stand one below the other under the heading, each in a row of its own
/// that is high enough for the icon and its name. A list that was not resized shows all of its
/// rows, up to eight.
pub proof fn law_list_goes_down(t: Theme<i64>, b: Rect<i64>, app: FenceAppearance<i64>, n: int, scroll: i64, i: int)
    requires
        app.layout is List,
        moderate(t, b, app),
        0 <= i < n <= 0x1_0000_0000,
    ensures
        ({
            let f = frame(t, b, app, n, scroll);
            let pad = app.padding * t.scale;
            let (x, y) = spot(f, i);
            let (x2, y2) = spot(f, i + 1);
            let first = spot(f, 0).1 + f.scroll;
            &&& f.icon_size == 20 * t.scale
            &&& f.content_left == b.x + pad
            &&& b.y + t.title.size + t.title_padding_bottom + 2 * pad <= f.content_top
            &&& x == f.content_left && x2 == x
            &&& f.content_top + t.label.size <= first
            &&& y2 - y >= f.icon_size + t.list_row_gap && y2 - y >= t.label.size + t.list_row_gap
            &&& y2 - y == f.icon_size + t.list_row_gap || y2 - y == t.label.size + t.list_row_gap
            &&& y2 + f.scroll - t.list_row_gap <= first + f.scroll_max + f.scroll_view
            &&& b.h == 0 && n <= 8 ==> f.scroll_max == 0
            &&& b.h == 0 && n > 8 ==> first + f.scroll_view + t.list_row_gap == first + 8 * (y2 - y)
            &&& b.h > 0 ==> f.height >= b.h && f.height >= 60 && (f.height == b.h || f.height == 60)
            &&& f.scroll_view == 0 || first + f.scroll_view + pad == b.y + f.height
            &&& f.list_cols matches Some(c) && x + f.icon_size < c.type_x < c.modified_x < c.size_x
        }),
{
    let row = list_row_of(t);
    lemma_list_frame(t, b, app, n, scroll);
    lemma_list_columns(t, b, app, n, scroll);
    lemma_list_spot(t, b, app, n, scroll, 0);
    lemma_list_spot(t, b, app, n, scroll, i);
    lemma_list_spot(t, b, app, n, scroll, i + 1);
    assert((i + 1) * row == i * row + row) by (nonlinear_arith);
    assert(0 * row == 0) by (nonlinear_arith);
    assert((i + 1) * row <= n * row) by (nonlinear_arith)
        requires
            i + 1 <= n,
            0 <= row,
    ;
}

/// Height of a row of a list.
spec fn list_row_of(t: Theme<i64>) -> int {
    if 20 * t.scale < t.label.size {
        t.label.size + t.list_row_gap
    } else {
        20 * t.scale + t.list_row_gap
    }
}

/// The frame of a list, in whole numbers.
proof fn lemma_list_frame(t: Theme<i64>, b: Rect<i64>, app: FenceAppearance<i64>, n: int, scroll: i64)
    requires
        app.layout is List,
        moderate(t, b, app),
        0 < n <= 0x1_0000_0000,
    ensures
        ({
            let f = frame(t, b, app, n, scroll);
            let pad = app.padding * t.scale;
            let row = list_row_of(t);
            let header = t.label.size + 8 * t.scale;
            &&& 0 <= pad <= 0x10_0000
            &&& 1 <= row <= 0x20_0000
            &&& f.arrangement == Arrangement::List { header_h: header as i64, row_h: row as i64 }
            &&& f.icon_size == 20 * t.scale
            &&& f.content_left == b.x + pad
            &&& f.content_top == b.y + 2 * pad + t.title.size + t.title_padding_bottom
            &&& 0 <= f.scroll <= f.scroll_max <= 0x40_0000 * 0x2_0000_0000
            &&& n * row - t.list_row_gap <= f.scroll_max + f.scroll_view
            &&& b.h == 0 && n <= 8 ==> f.scroll_max == 0
            &&& b.h == 0 && n > 8 ==> f.scroll_view == 8 * row - t.list_row_gap
            &&& b.h > 0 ==> f.height >= b.h && f.height >= 60 && (f.height == b.h || f.height == 60)
            &&& f.scroll_view == 0 || f.content_top + header + f.scroll_view + pad == b.y + f.height
        }),
{
    lemma_scaled(app.padding as int, t.scale as int);
    let s = t.scale;
    lemma_once(t.title.size, i64::lit(16, 10));
    lemma_once(t.label.size, i64::lit(16, 10));
    lemma_constants(s);
    let row = list_row_of(t);
    let shown = if n > 8 {
        8
    } else {
        n
    };
    lemma_rows(n, row, n);
    lemma_rows(shown, row, n);
    assert(scalar::num::<i64>(0) == 0 && scalar::num::<i64>(60) == 60);
    let label_h = Scalar::mul(t.label.size, i64::lit(16, 10));
    let icon = Scalar::mul(scalar::num::<i64>(20), s);
    assert(Scalar::add(Scalar::max(icon, label_h), t.list_row_gap) == row);
    assert(shown == 8 ==> shown * row == 8 * row);
    assert(n == shown ==> n * row == shown * row);
}

/// The columns of a list are in order.
proof fn lemma_list_columns(t: Theme<i64>, b: Rect<i64>, app: FenceAppearance<i64>, n: int, scroll: i64)
    requires
        app.layout is List,
        moderate(t, b, app),
    ensures
        ({
            let f = frame(t, b, app, n, scroll);
            f.list_cols matches Some(c) && f.content_left + f.icon_size < c.type_x < c.modified_x < c.size_x
        }),
{
    lemma_scaled(app.padding as int, t.scale as int);
    lemma_constants(t.scale);
    lemma_once(Scalar::mul(app.padding, t.scale), scalar::num::<i64>(2));
}

proof fn lemma_constants(s: i64)
    requires
        1 <= s <= 16,
    ensures
        Scalar::mul(scalar::num::<i64>(20), s) == 20 * s,
        Scalar::mul(scalar::num::<i64>(8), s) == 8 * s,
        Scalar::mul(scalar::num::<i64>(6), s) == 6 * s,
        Scalar::mul(scalar::num::<i64>(60), s) == 60 * s,
        Scalar::mul(scalar::num::<i64>(90), s) == 90 * s,
        Scalar::mul(scalar::num::<i64>(140), s) == 140 * s,
        Scalar::mul(scalar::num::<i64>(80), s) == 80 * s,
        Scalar::mul(scalar::num::<i64>(16), s) == 16 * s,
        Scalar::mul(Scalar::mul(scalar::num::<i64>(16), s), scalar::num::<i64>(3)) == 48 * s,
{
    let g = Scalar::mul(scalar::num::<i64>(16), s);
    let three = scalar::num::<i64>(3);
    assert(g == 16 * s);
    assert(g * three == 48 * s) by (nonlinear_arith)
        requires
            g == 16 * s,
            three == 3,
    ;
}

/// Where the `i`-th icon of a list stands, in whole numbers.
proof fn lemma_list_spot(t: Theme<i64>, b: Rect<i64>, app: FenceAppearance<i64>, n: int, scroll: i64, i: int)
    requires
        app.layout is List,
        moderate(t, b, app),
        0 <= i <= n <= 0x1_0000_0000,
        0 < n,
    ensures
        ({
            let f = frame(t, b, app, n, scroll);
            &&& spot(f, i).0 == f.content_left
            &&& spot(f, i).1 == f.content_top + t.label.size + 8 * t.scale + i * list_row_of(t) - f.scroll
        }),
{
    lemma_list_frame(t, b, app, n, scroll);
    lemma_rows(i, list_row_of(t), n);
}

/// Products of a number of rows and their height.
proof fn lemma_rows(i: int, row: int, n: int)
    requires
        0 <= i <= n <= 0x2_0000_0000,
        0 <= row <= 0x40_0000,
    ensures
        0 <= i * row <= 0x40_0000 * 0x2_0000_0000,
        i * row <= n * row,
        Scalar::mul(scalar::num::<i64>(i), row as i64) == i * row,
        i >= 1 ==> row <= i * row,
        i == 0 ==> i * row == 0,
{
    assert(0 <= i * row <= 0x40_0000 * 0x2_0000_0000 && i * row <= n * row && (i >= 1 ==> row <= i * row) && (i == 0 ==> i
        * row == 0)) by (nonlinear_arith)
        requires
            0 <= i <= n <= 0x2_0000_0000,
            0 <= row <= 0x40_0000,
    ;
    assert(scalar::num::<i64>(i) == i);
}

/// The icons of a sidebar stand in one line along it: beside each other in one at the top of
/// the screen and below each other in the others, equally far apart and not overlapping. One
/// that was not resized is long enough for all of them.
pub proof fn law_sidebar_is_one_line(
    t: Theme<i64>,
    b: Rect<i64>,
    app: FenceAppearance<i64>,
    n: int,
    scroll: i64,
    i: int,
)
    requires
        app.layout is Sidebar,
        moderate(t, b, app),
        0 <= i < n <= 0x1_0000_0000,
    ensures
        ({
            let f = frame(t, b, app, n, scroll);
            let pad = app.padding * t.scale;
            let icon = app.icon_size * t.scale;
            let (x, y) = spot(f, i);
            let (x2, y2) = spot(f, i + 1);
            &&& f.icon_size == icon
            &&& app.sidebar_pos is Top ==> {
                &&& y2 == y && x2 - x >= icon + app.gap * t.scale
                &&& x2 - x == spot(f, 1).0 - spot(f, 0).0
                &&& spot(f, 0).0 + f.scroll == b.x + pad
                &&& x + f.scroll + icon <= b.x + pad + f.scroll_max + f.scroll_view
                &&& b.w == 0 ==> f.scroll_max == 0
            }
            &&& !(app.sidebar_pos is Top) ==> {
                &&& x2 == x && y2 - y >= icon + app.gap * t.scale
                &&& y2 - y == spot(f, 1).1 - spot(f, 0).1
                &&& spot(f, 0).1 + f.scroll == b.y + pad
                &&& y + f.scroll + icon <= b.y + pad + f.scroll_max + f.scroll_view
                &&& b.x <= x && (b.w >= icon ==> x + icon <= b.x + b.w)
                &&& b.h == 0 ==> f.scroll_max == 0 && spot(f, n - 1).1 + f.scroll + icon + pad == b.y + f.height
            }
        }),
{
    let step = cell_of(app, t);
    lemma_sidebar_frame(t, b, app, n, scroll);
    lemma_sidebar_spot(t, b, app, n, scroll, 0);
    lemma_sidebar_spot(t, b, app, n, scroll, 1);
    lemma_sidebar_spot(t, b, app, n, scroll, i);
    lemma_sidebar_spot(t, b, app, n, scroll, i + 1);
    lemma_sidebar_spot(t, b, app, n, scroll, n - 1);
    assert((i + 1) * step == i * step + step) by (nonlinear_arith);
    assert((n - 1) * step == n * step - step) by (nonlinear_arith);
    assert(0 * step == 0 && 1 * step == step) by (nonlinear_arith);
    assert((i + 1) * step <= n * step) by (nonlinear_arith)
        requires
            i + 1 <= n,
            0 <= step,
    ;
}

/// The frame of a sidebar, in whole numbers.
proof fn lemma_sidebar_frame(t: Theme<i64>, b: Rect<i64>, app: FenceAppearance<i64>, n: int, scroll: i64)
    requires
        app.layout is Sidebar,
        moderate(t, b, app),
        0 < n <= 0x1_0000_0000,
    ensures
        ({
            let f = frame(t, b, app, n, scroll);
            let pad = app.padding * t.scale;
            let icon = app.icon_size * t.scale;
            let gap = app.gap * t.scale;
            let step = cell_of(app, t);
            let length = n * step - gap;
            &&& 0 <= pad <= 0x10_0000 && 1 <= icon <= 0x10_0000 && 0 <= gap <= 0x10_0000 && 1 <= step <= 0x20_0000
            &&& f.icon_size == icon
            &&& 0 <= f.scroll <= f.scroll_max <= 0x40_0000 * 0x2_0000_0000
            &&& length <= f.scroll_max + f.scroll_view
            &&& app.sidebar_pos is Top ==> {
                &&& f.arrangement matches Arrangement::Row { x, y, step: d } && x == b.x + pad && d == step
                    && -0x2000_0000 <= y <= 0x2000_0000
                &&& b.w == 0 ==> f.scroll_max == 0
            }
            &&& !(app.sidebar_pos is Top) ==> {
                &&& f.arrangement matches Arrangement::Column { x, y, step: d } && y == b.y + pad && d == step && b.x <= x
                    <= 0x2000_0000 && (b.w >= icon ==> x + icon <= b.x + b.w)
                &&& b.h == 0 ==> f.scroll_max == 0 && f.height == length + 2 * pad
            }
        }),
{
    lemma_scaled(app.padding as int, t.scale as int);
    lemma_scaled(app.icon_size as int, t.scale as int);
    lemma_scaled(app.gap as int, t.scale as int);
    let icon = Scalar::mul(app.icon_size, t.scale);
    let gap = Scalar::mul(app.gap, t.scale);
    lemma_once(icon, i64::lit(5, 10));
    lemma_once(icon, i64::lit(15, 10));
    lemma_constants(t.scale);
    lemma_once(Scalar::mul(scalar::num::<i64>(6), t.scale), scalar::num::<i64>(2));
    let step = cell_of(app, t);
    lemma_rows(n, step, n);
    assert(scalar::num::<i64>(0) == 0 && scalar::num::<i64>(2) == 2);
    assert(sidebar::wide_gap(icon, gap) == gap);
    assert(sidebar::row_length(n, icon, gap) == n * step - gap);
}

/// Where the `i`-th icon of a sidebar stands, in whole numbers.
proof fn lemma_sidebar_spot(t: Theme<i64>, b: Rect<i64>, app: FenceAppearance<i64>, n: int, scroll: i64, i: int)
    requires
        app.layout is Sidebar,
        moderate(t, b, app),
        0 <= i <= n <= 0x1_0000_0000,
        0 < n,
    ensures
        ({
            let f = frame(t, b, app, n, scroll);
            let along = i * cell_of(app, t) - f.scroll;
            match f.arrangement {
                Arrangement::Row { x, y, .. } => spot(f, i).0 == x + along && spot(f, i).1 == y,
                Arrangement::Column { x, y, .. } => spot(f, i).0 == x && spot(f, i).1 == y + along,
                _ => false,
            }
        }),
{
    lemma_sidebar_frame(t, b, app, n, scroll);
    lemma_rows(i, cell_of(app, t), n);
}

/// A list is made wide enough for the longest name in it.
pub proof fn law_list_fits_the_names(
    ids: Seq<String>,
    icons: Map<Seq<char>, Icon>,
    size: i64,
    n: int,
    k: int,
)
    requires
        0 <= k < n <= ids.len(),
        icons.dom().contains(ids[k]@),
    ensures
        crate::text::width_of(icons[ids[k]@].display_name@, size) <= widest(ids, icons, size, n),
    decreases n,
{
    if k < n - 1 {
        law_list_fits_the_names(ids, icons, size, n - 1, k);
    }
}

/// A fence is shown where it stands, with its own members in their order, and with what is
/// selected, hovered or drawn over in it and in no other fence.
pub proof fn law_fence_shows_its_own(
    sf: SceneFence<i64>,
    t: Theme<i64>,
    fence: Fence<i64>,
    b: Rect<i64>,
    rows: Seq<IconRow>,
    dark: bool,
    hover: Option<(usize, usize)>,
    selected: Seq<(usize, usize)>,
    band: Option<(usize, RectF<i64>)>,
    idx: usize,
    k: usize,
)
    requires
        laid_out(sf, t, fence, b, rows, dark, hover, selected, band, idx),
    ensures
        sf.x == b.x,
        sf.y == b.y,
        sf.width == b.w,
        sf.icons.len() == rows.len(),
        k < rows.len() ==> sf.icons[k as int].label@ == rows[k as int].label@ && sf.icons[k as int].bitmap_id
            == rows[k as int].bitmap_id,
        sf.selected@.contains(k) <==> selected.contains((idx, k)),
        sf.hover_icon == Some(k) <==> hover == Some((idx, k)),
        sf.select_band matches Some(r) ==> band == Some((idx, r)),
        sf.layout == fence.appearance.layout,
        sf.blur <==> fence.appearance.bg_style == FenceStyle::Blur,
        sf.border_width >= 1,
{
    assert(scalar::num::<i64>(1) == 1);
    let p = of_fence(idx);
    let v = selected.filter(p);
    crate::search::lemma_filtered(selected, p, (idx, k));
    if k < rows.len() {
        let f = frame(t, b, fence.appearance, rows.len() as int, fence.scroll);
        assert(placed(sf.icons[k as int], rows[k as int], f, k as int));
    }
    if sf.selected@.contains(k) {
        let i = choose|i: int| 0 <= i < sf.selected@.len() && sf.selected@[i] == k;
        assert(v[i].1 == k);
        crate::search::lemma_filtered(selected, p, v[i]);
        assert(v.contains(v[i]));
        assert(v[i] == (idx, k));
    }
    if selected.contains((idx, k)) {
        assert(v.contains((idx, k)));
        let i = choose|i: int| 0 <= i < v.len() && v[i] == (idx, k);
        assert(icons_of(selected, idx)[i] == k);
    }
}

} // verus!
