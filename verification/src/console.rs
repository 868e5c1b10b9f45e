//! The console: a panel with the list of fences and the controls of the chosen one.

use vstd::prelude::*;
use vstd::string::*;

use crate::model::{Desk, Fence, FenceAppearance, FenceLayout, FenceStyle};
use crate::numbers;
use crate::numbers::push_decimal;
use crate::overlay::{ConsoleZone, RectF};
use crate::scalar;
use crate::scalar::{clamp, count, whole_number, Scalar};
use crate::scene::{SceneConsole, SceneFenceDetail, SceneFenceRow};
use crate::theme::Theme;

verus! {

/// Measures of the console, in units.
pub const CONSOLE_W: i64 = 320;

pub const CONSOLE_MIN_W: i64 = 260;

pub const CONSOLE_MIN_H: i64 = 170;

pub const CONSOLE_MARGIN: i64 = 24;

pub const CONSOLE_TITLE_H: i64 = 40;

pub const CONSOLE_CLOSE_W: i64 = 32;

pub const CONSOLE_PAD: i64 = 12;

pub const CONSOLE_PILL_H: i64 = 34;

pub const CONSOLE_ADD_BTN_H: i64 = 34;

pub const CONSOLE_FENCE_ROW_H: i64 = 36;

/// Rows of the list of fences before it scrolls.
pub const CONSOLE_FENCE_MAX_ROWS: usize = 5;

pub const CONSOLE_FENCE_DETAIL_H: i64 = 218;

pub const CONSOLE_MAX_H: i64 = 640;

/// How many tints there are to choose from.
pub const TINT_COUNT: usize = 9;

/// The channels of the `i`-th tint, in hundredths.
pub open spec fn tint_parts(i: int) -> (i64, i64, i64) {
    if i == 0 {
        (32, 55, 95)
    } else if i == 1 {
        (30, 80, 85)
    } else if i == 2 {
        (40, 75, 45)
    } else if i == 3 {
        (95, 85, 40)
    } else if i == 4 {
        (98, 62, 30)
    } else if i == 5 {
        (92, 35, 35)
    } else if i == 6 {
        (66, 45, 90)
    } else if i == 7 {
        (92, 93, 96)
    } else {
        (56, 58, 62)
    }
}

/// The `i`-th tint.
pub open spec fn is_tint<S: Scalar>(c: [S; 3], i: int) -> bool {
    let (r, g, b) = tint_parts(i);
    c@[0] == S::lit(r, 100) && c@[1] == S::lit(g, 100) && c@[2] == S::lit(b, 100)
}

/// The name of the `i`-th tint.
pub open spec fn tint_name(i: int) -> Seq<char> {
    if i == 0 {
        "蓝"@
    } else if i == 1 {
        "青"@
    } else if i == 2 {
        "绿"@
    } else if i == 3 {
        "黄"@
    } else if i == 4 {
        "橙"@
    } else if i == 5 {
        "红"@
    } else if i == 6 {
        "紫"@
    } else if i == 7 {
        "白"@
    } else {
        "灰"@
    }
}

/// The `i`-th tint.
pub fn tint_color<S: Scalar>(i: usize) -> (c: [S; 3])
    requires
        i < TINT_COUNT,
    ensures
        is_tint(c, i as int),
{
    let (r, g, b): (i64, i64, i64) = match i {
        0 => (32, 55, 95),
        1 => (30, 80, 85),
        2 => (40, 75, 45),
        3 => (95, 85, 40),
        4 => (98, 62, 30),
        5 => (92, 35, 35),
        6 => (66, 45, 90),
        7 => (92, 93, 96),
        _ => (56, 58, 62),
    };
    [S::ratio(r, 100), S::ratio(g, 100), S::ratio(b, 100)]
}

/// The name of the `i`-th tint.
pub fn tint_label(i: usize) -> (r: &'static str)
    requires
        i < TINT_COUNT,
    ensures
        r@ == tint_name(i as int),
{
    match i {
        0 => "蓝",
        1 => "青",
        2 => "绿",
        3 => "黄",
        4 => "橙",
        5 => "红",
        6 => "紫",
        7 => "白",
        _ => "灰",
    }
}

/// The fence whose look decides how many rows of controls the console makes room for: the
/// first that has members, or the only one.
pub open spec fn telling_from<S>(fences: Seq<Fence<S>>, from: int) -> int
    decreases fences.len() - from,
{
    if from < 0 || from >= fences.len() || fences[from].icon_ids.len() > 0 || fences.len() == 1 {
        from
    } else {
        telling_from(fences, from + 1)
    }
}

/// Rows of controls for a fence of this layout and style: the layout, the style and the
/// folder always; the icon size unless it is a list; the tint unless it is blurred; the
/// edge if it is a sidebar.
pub open spec fn control_rows(layout: FenceLayout, style: FenceStyle) -> int {
    3 + (if layout is List {
        0int
    } else {
        1
    }) + (if style is Blur {
        0int
    } else {
        1
    }) + (if layout is Sidebar {
        1int
    } else {
        0
    })
}

/// Height that the console makes room for below the list of fences.
pub open spec fn detail_height<S: Scalar>(d: Desk<S>, s: S) -> S {
    let k = telling_from(d.fences@, 0);
    let n = if k < d.fences.len() {
        control_rows(d.fences[k].appearance.layout, d.fences[k].appearance.bg_style)
    } else {
        control_rows(FenceLayout::Grid, FenceStyle::Glass)
    };
    scalar::num::<S>(24).mul(s).add(scalar::num::<S>(n).mul(scalar::num(30)).mul(s))
}

pub open spec fn rows_shown(n: int) -> int {
    if n < 5 {
        n
    } else {
        5
    }
}

/// Height of the console's content.
pub open spec fn content_height<S: Scalar>(d: Desk<S>, s: S) -> S {
    let eight = scalar::num::<S>(8).mul(s);
    let rows = scalar::num::<S>(rows_shown(d.fences.len() as int)).mul(scalar::num(36)).mul(s);
    scalar::num::<S>(40).mul(s).add(eight).add(rows).add(eight).add(detail_height(d, s)).add(eight).add(
        scalar::num::<S>(34).mul(s).mul(scalar::num(3)),
    ).add(eight.mul(scalar::num(2))).add(scalar::num::<S>(12).mul(s))
}

/// Height of the console: that of its content, as far as it is neither too low nor too
/// high.
pub open spec fn full_height<S: Scalar>(d: Desk<S>, s: S) -> S {
    scalar::clamped(content_height(d, s), scalar::num::<S>(170).mul(s), scalar::num::<S>(640).mul(s))
}

fn find_telling<S>(fences: &Vec<Fence<S>>) -> (r: usize)
    ensures
        r == telling_from(fences@, 0),
        r <= fences.len(),
{
    let mut i: usize = 0;
    while i < fences.len()
        invariant
            i <= fences.len(),
            telling_from(fences@, i as int) == telling_from(fences@, 0),
        decreases fences.len() - i,
    {
        if fences[i].icon_ids.len() > 0 || fences.len() == 1 {
            return i;
        }
        i += 1;
    }
    i
}

fn count_rows(layout: FenceLayout, style: FenceStyle) -> (n: usize)
    ensures
        n == control_rows(layout, style),
        3 <= n <= 6,
{
    let mut n: usize = 1;
    if layout != FenceLayout::List {
        n += 1;
    }
    n += 1;
    if style != FenceStyle::Blur {
        n += 1;
    }
    n += 1;
    if layout == FenceLayout::Sidebar {
        n += 1;
    }
    n
}

pub fn detail_visible_rows<S: Scalar>(desk: &Desk<S>, s: S) -> (r: S)
    ensures
        r == detail_height(*desk, s),
{
    let k = find_telling(&desk.fences);
    let n: usize = if k < desk.fences.len() {
        count_rows(desk.fences[k].appearance.layout, desk.fences[k].appearance.bg_style)
    } else {
        count_rows(FenceLayout::Grid, FenceStyle::Glass)
    };
    whole_number::<S>(24).times(s).plus(count::<S>(n).times(whole_number(30)).times(s))
}

fn shown_rows(n: usize) -> (r: usize)
    ensures
        r == rows_shown(n as int),
        r <= 5,
{
    if n < CONSOLE_FENCE_MAX_ROWS {
        n
    } else {
        CONSOLE_FENCE_MAX_ROWS
    }
}

/// Height of the console: that of its content, as far as it is neither too low nor too
/// high.
pub fn console_full_height<S: Scalar>(desk: &Desk<S>, s: S) -> (r: S)
    ensures
        r == full_height(*desk, s),
{
    let eight = whole_number::<S>(8).times(s);
    let rows = count::<S>(shown_rows(desk.fences.len())).times(whole_number(CONSOLE_FENCE_ROW_H)).times(s);
    let content = whole_number::<S>(CONSOLE_TITLE_H).times(s).plus(eight).plus(rows).plus(eight).plus(
        detail_visible_rows(desk, s),
    ).plus(eight).plus(whole_number::<S>(CONSOLE_ADD_BTN_H).times(s).times(whole_number(3))).plus(
        eight.times(whole_number(2)),
    ).plus(whole_number::<S>(12).times(s));
    clamp(content, whole_number::<S>(CONSOLE_MIN_H).times(s), whole_number::<S>(CONSOLE_MAX_H).times(s))
}

/// Where the console is, unfolded by `panel`: at the upper right unless it was moved, and
/// as large as its content unless it was resized.
pub open spec fn panel_rect<S: Scalar>(d: Desk<S>, t: Theme<S>, vw: S, vh: S, panel: S) -> RectF<S> {
    let s = t.scale;
    let margin = scalar::num::<S>(24).mul(s);
    let min_h = scalar::num::<S>(170).mul(s);
    let eight = scalar::num::<S>(8).mul(s);
    let max_h = vh.sub(scalar::num::<S>(2).mul(margin)).max(min_h);
    let (w, full_h) = match d.console_size {
        Some((w, h)) => (w.max(scalar::num::<S>(260).mul(s)), h.max(min_h).min(max_h)),
        None => (scalar::num::<S>(320).mul(s), full_height(d, s).min(max_h)),
    };
    let (x, y) = match d.console_pos {
        Some(p) => (p.x, p.y),
        None => (vw.sub(w).sub(margin).max(eight), margin.max(eight)),
    };
    RectF { x, y, w, h: full_h.mul(scalar::clamped(panel, scalar::num(0), S::lit(112, 100))) }
}

/// Where the console is.
pub fn console_geometry<S: Scalar>(desk: &Desk<S>, theme: &Theme<S>, vw: S, vh: S, panel: S) -> (r: RectF<S>)
    ensures
        r == panel_rect(*desk, *theme, vw, vh, panel),
{
    let s = theme.scale;
    let margin = whole_number::<S>(CONSOLE_MARGIN).times(s);
    let min_h = whole_number::<S>(CONSOLE_MIN_H).times(s);
    let eight = whole_number::<S>(8).times(s);
    let max_h = vh.minus(whole_number::<S>(2).times(margin)).greatest(min_h);
    let (w, full_h) = match desk.console_size {
        Some((w, h)) => (
            w.greatest(whole_number::<S>(CONSOLE_MIN_W).times(s)),
            h.greatest(min_h).least(max_h),
        ),
        None => (
            whole_number::<S>(CONSOLE_W).times(s),
            console_full_height(desk, s).least(max_h),
        ),
    };
    let (x, y) = match desk.console_pos {
        Some(p) => (p.x, p.y),
        None => (vw.minus(w).minus(margin).greatest(eight), margin.greatest(eight)),
    };
    RectF { x, y, w, h: full_h.times(clamp(panel, whole_number(0), S::ratio(112, 100))) }
}

/// The `k`-th of a row of buttons of width `w`, `gap` apart, of which the first stands at `x`.
pub open spec fn button_x<S: Scalar>(x: S, w: S, gap: S, k: int) -> S
    decreases k,
{
    if k <= 0 {
        x
    } else {
        button_x(x, w, gap, k - 1).add(w).add(gap)
    }
}

/// The `k`-th button of a row.
pub open spec fn button<S: Scalar>(x: S, y: S, w: S, h: S, gap: S, k: int) -> RectF<S> {
    RectF { x: button_x(x, w, gap, k), y, w, h }
}

fn row_button<S: Scalar>(x: S, y: S, w: S, h: S, gap: S, k: u32) -> (r: RectF<S>)
    ensures
        r == button(x, y, w, h, gap, k as int),
{
    let mut at = x;
    let mut i: u32 = 0;
    while i < k
        invariant
            i <= k,
            at == button_x(x, w, gap, i as int),
        decreases k - i,
    {
        at = at.plus(w).plus(gap);
        i += 1;
    }
    RectF { x: at, y, w, h }
}

/// Where the `r`-th row of controls stands.
pub open spec fn control_y<S: Scalar>(top: S, s: S, r: int) -> S {
    top.add(scalar::num::<S>(24).mul(s)).add(scalar::num::<S>(r).mul(scalar::num(30)).mul(s))
}

fn row_y<S: Scalar>(top: S, s: S, r: usize) -> (y: S)
    requires
        r <= 10,
    ensures
        y == control_y(top, s, r as int),
{
    top.plus(whole_number::<S>(24).times(s)).plus(count::<S>(r).times(whole_number(30)).times(s))
}

/// Where the `k`-th tint's swatch stands, the first one at `x`.
pub open spec fn swatch_x<S: Scalar>(x: S, w: S, gap: S, k: int) -> S
    decreases k,
{
    if k <= 0 {
        x
    } else {
        swatch_x(x, w, gap, k - 1).add(w.add(gap))
    }
}

/// The name of the `i`-th fence: its title, or its number counted from one.
pub open spec fn fence_name<S>(f: Fence<S>, i: int) -> Seq<char> {
    match f.title {
        Some(t) => t@,
        None => "栅栏 "@ + numbers::decimal((i + 1) as nat),
    }
}

/// The name of the `i`-th fence.
pub fn name_of<S>(f: &Fence<S>, i: usize) -> (r: String)
    requires
        i < u64::MAX,
    ensures
        r@ == fence_name(*f, i as int),
{
    match &f.title {
        Some(t) => t.clone(),
        None => {
            let mut s = "栅栏 ".to_owned();
            push_decimal(&mut s, i as u64 + 1);
            s
        },
    }
}

/// `v` are the swatches of the tints, from `x` on.
pub open spec fn swatches<S: Scalar>(v: Seq<RectF<S>>, x: S, y: S, w: S, gap: S) -> bool {
    &&& v.len() == 9
    &&& forall|k: int| 0 <= k < 9 ==> #[trigger] v[k] == (RectF { x: swatch_x(x, w, gap, k), y, w, h: w })
}

fn make_swatches<S: Scalar>(x: S, y: S, w: S, gap: S) -> (v: Vec<RectF<S>>)
    ensures
        swatches(v@, x, y, w, gap),
{
    let mut out: Vec<RectF<S>> = Vec::new();
    let mut at = x;
    let mut k: usize = 0;
    while k < TINT_COUNT
        invariant
            k <= TINT_COUNT,
            out.len() == k,
            at == swatch_x(x, w, gap, k as int),
            forall|j: int| 0 <= j < k ==> #[trigger] out[j] == (RectF { x: swatch_x(x, w, gap, j), y, w, h: w }),
        decreases TINT_COUNT - k,
    {
        out.push(RectF { x: at, y, w, h: w });
        at = at.plus(w.plus(gap));
        k += 1;
    }
    out
}

/// `d` are the controls of a fence of the look `app`, within `area`. Rows that do not apply
/// to its layout or style are left out, and their buttons are nothing.
pub open spec fn controls<S: Scalar>(d: SceneFenceDetail<S>, area: RectF<S>, app: FenceAppearance<S>, s: S) -> bool {
    let h = scalar::num::<S>(24).mul(s);
    let x = area.x.add(scalar::num::<S>(40).mul(s));
    let gap = scalar::num::<S>(6).mul(s);
    let w52 = scalar::num::<S>(52).mul(s);
    let w48 = scalar::num::<S>(48).mul(s);
    let w40 = scalar::num::<S>(40).mul(s);
    let sized = !(app.layout is List);
    let tinted = !(app.bg_style is Blur);
    let style_row = if sized {
        2int
    } else {
        1
    };
    let storage_row = style_row + (if tinted {
        2int
    } else {
        1
    });
    let y0 = control_y(area.y, s, 0);
    let y1 = control_y(area.y, s, 1);
    let ys = control_y(area.y, s, style_row);
    let yt = control_y(area.y, s, style_row + 1).add(h.sub(scalar::num::<S>(18).mul(s)).div(scalar::num(2)));
    let yf = control_y(area.y, s, storage_row);
    let yp = control_y(area.y, s, storage_row + 1);
    let sw = scalar::num::<S>(18).mul(s);
    let none = RectF::<S>::none();
    &&& d.rect == area
    &&& d.layout == app.layout
    &&& d.icon_size == app.icon_size
    &&& d.style == app.bg_style
    &&& d.tint == app.tint
    &&& d.sidebar_pos == app.sidebar_pos
    &&& d.layout_grid == button(x, y0, w52, h, gap, 0)
    &&& d.layout_list == button(x, y0, w52, h, gap, 1)
    &&& d.layout_sidebar == button(x, y0, w52, h, gap, 2)
    &&& d.size_s == (if sized {
        button(x, y1, w40, h, gap, 0)
    } else {
        none
    })
    &&& d.size_m == (if sized {
        button(x, y1, w40, h, gap, 1)
    } else {
        none
    })
    &&& d.size_l == (if sized {
        button(x, y1, w40, h, gap, 2)
    } else {
        none
    })
    &&& d.style_glass == button(x, ys, w48, h, gap, 0)
    &&& d.style_outline == button(x, ys, w48, h, gap, 1)
    &&& d.style_filled == button(x, ys, w48, h, gap, 2)
    &&& d.style_blur == button(x, ys, w48, h, gap, 3)
    &&& d.tint_default == (if tinted {
        RectF { x, y: yt, w: sw, h: sw }
    } else {
        none
    })
    &&& if tinted {
        swatches(d.tints@, x.add(sw).add(gap), yt, sw, gap)
    } else {
        d.tints.len() == 0
    }
    &&& d.storage_btn == (RectF { x, y: yf, w: scalar::num::<S>(120).mul(s), h })
    &&& d.sidebar_left == (if app.layout is Sidebar {
        button(x, yp, w40, h, gap, 0)
    } else {
        none
    })
    &&& d.sidebar_top == (if app.layout is Sidebar {
        button(x, yp, w40, h, gap, 1)
    } else {
        none
    })
    &&& d.sidebar_right == (if app.layout is Sidebar {
        button(x, yp, w40, h, gap, 2)
    } else {
        none
    })
}

fn build_detail<S: Scalar>(area: RectF<S>, app: &FenceAppearance<S>, title: String, s: S) -> (d: SceneFenceDetail<S>)
    ensures
        controls(d, area, *app, s),
        d.title == title,
{
    let h = whole_number::<S>(24).times(s);
    let x = area.x.plus(whole_number::<S>(40).times(s));
    let gap = whole_number::<S>(6).times(s);
    let w52 = whole_number::<S>(52).times(s);
    let w48 = whole_number::<S>(48).times(s);
    let w40 = whole_number::<S>(40).times(s);
    let none = RectF::<S>::nothing();
    let y0 = row_y(area.y, s, 0);
    let mut row: usize = 1;
    let (size_s, size_m, size_l) = if app.layout != FenceLayout::List {
        let y = row_y(area.y, s, 1);
        row = 2;
        (
            row_button(x, y, w40, h, gap, 0),
            row_button(x, y, w40, h, gap, 1),
            row_button(x, y, w40, h, gap, 2),
        )
    } else {
        (none, none, none)
    };
    let ys = row_y(area.y, s, row);
    let sw = whole_number::<S>(18).times(s);
    let (tint_default, tints) = if app.bg_style != FenceStyle::Blur {
        let yt = row_y(area.y, s, row + 1).plus(h.minus(sw).over(whole_number(2)));
        row = row + 2;
        (RectF { x, y: yt, w: sw, h: sw }, make_swatches(x.plus(sw).plus(gap), yt, sw, gap))
    } else {
        row = row + 1;
        (none, Vec::new())
    };
    let yf = row_y(area.y, s, row);
    let (sidebar_left, sidebar_top, sidebar_right) = if app.layout == FenceLayout::Sidebar {
        let y = row_y(area.y, s, row + 1);
        (
            row_button(x, y, w40, h, gap, 0),
            row_button(x, y, w40, h, gap, 1),
            row_button(x, y, w40, h, gap, 2),
        )
    } else {
        (none, none, none)
    };
    SceneFenceDetail {
        rect: area,
        title,
        layout: app.layout,
        icon_size: app.icon_size,
        style: app.bg_style,
        tint: app.tint,
        layout_grid: row_button(x, y0, w52, h, gap, 0),
        layout_list: row_button(x, y0, w52, h, gap, 1),
        layout_sidebar: row_button(x, y0, w52, h, gap, 2),
        size_s,
        size_m,
        size_l,
        style_glass: row_button(x, ys, w48, h, gap, 0),
        style_outline: row_button(x, ys, w48, h, gap, 1),
        style_filled: row_button(x, ys, w48, h, gap, 2),
        style_blur: row_button(x, ys, w48, h, gap, 3),
        tint_default,
        tints,
        storage_btn: RectF { x, y: yf, w: whole_number::<S>(120).times(s), h },
        sidebar_pos: app.sidebar_pos,
        sidebar_left,
        sidebar_top,
        sidebar_right,
    }
}

/// How far the list of `n` fences scrolls.
pub open spec fn list_scroll_max<S: Scalar>(n: int, s: S) -> S {
    if n > 5 {
        scalar::num::<S>(n - 5).mul(scalar::num::<S>(36).mul(s))
    } else {
        scalar::num(0)
    }
}

/// The chosen fence, the last one where the choice is out of range.
pub open spec fn choice(selected: usize, n: int) -> int {
    if n == 0 {
        0
    } else if selected < n {
        selected as int
    } else {
        n - 1
    }
}

/// What the console shows besides the desk: how far it is unfolded and scrolled, the chosen
/// fence and the hovered control.
#[derive(Debug, Clone, Copy, PartialEq)]
pub struct ConsoleView<S> {
    pub panel: S,
    pub fence_scroll: S,
    pub selected_fence: usize,
    pub hover: Option<ConsoleZone<S>>,
}

/// `row` is the row of the `i`-th fence in the list that starts at `top` and is scrolled by
/// `scroll`.
pub open spec fn list_row<S: Scalar>(
    row: SceneFenceRow<S>,
    f: Fence<S>,
    i: int,
    sel: int,
    p: RectF<S>,
    s: S,
    scroll: S,
) -> bool {
    let top = p.y.add(scalar::num::<S>(40).mul(s)).add(scalar::num::<S>(8).mul(s));
    let row_h = scalar::num::<S>(36).mul(s);
    &&& row.rect == (RectF {
        x: p.x.add(scalar::num::<S>(12).mul(s)),
        y: top.add(scalar::num::<S>(i).mul(row_h)).sub(scroll),
        w: p.w.sub(scalar::num::<S>(2).mul(scalar::num(12)).mul(s)),
        h: row_h,
    })
    &&& row.title@ == fence_name(f, i)
    &&& row.selected == (i == sel)
}

fn list_rows<S: Scalar>(desk: &Desk<S>, sel: usize, p: &RectF<S>, s: S, scroll: S) -> (v: Vec<SceneFenceRow<S>>)
    requires
        desk.fences.len() <= i64::MAX,
    ensures
        v.len() == desk.fences.len(),
        forall|i: int|
            0 <= i < v.len() ==> list_row(#[trigger] v[i], desk.fences[i], i, sel as int, *p, s, scroll),
{
    let top = p.y.plus(whole_number::<S>(CONSOLE_TITLE_H).times(s)).plus(whole_number::<S>(8).times(s));
    let row_h = whole_number::<S>(CONSOLE_FENCE_ROW_H).times(s);
    let mut out: Vec<SceneFenceRow<S>> = Vec::new();
    let mut i: usize = 0;
    while i < desk.fences.len()
        invariant
            i <= desk.fences.len() <= i64::MAX,
            top == p.y.add(scalar::num::<S>(40).mul(s)).add(scalar::num::<S>(8).mul(s)),
            row_h == scalar::num::<S>(36).mul(s),
            out.len() == i,
            forall|j: int|
                0 <= j < i ==> list_row(#[trigger] out[j], desk.fences[j], j, sel as int, *p, s, scroll),
        decreases desk.fences.len() - i,
    {
        out.push(
            SceneFenceRow {
                rect: RectF {
                    x: p.x.plus(whole_number::<S>(CONSOLE_PAD).times(s)),
                    y: top.plus(count::<S>(i).times(row_h)).minus(scroll),
                    w: p.w.minus(whole_number::<S>(2).times(whole_number(CONSOLE_PAD)).times(s)),
                    h: row_h,
                },
                title: name_of(&desk.fences[i], i),
                selected: i == sel,
            },
        );
        i += 1;
    }
    out
}

/// `c` is the console of the desk.
pub open spec fn shows_console<S: Scalar>(
    c: SceneConsole<S>,
    d: Desk<S>,
    t: Theme<S>,
    vw: S,
    vh: S,
    v: ConsoleView<S>,
) -> bool {
    let s = t.scale;
    let n = d.fences.len() as int;
    let p = panel_rect(d, t, vw, vh, v.panel);
    let pad = scalar::num::<S>(12).mul(s);
    let eight = scalar::num::<S>(8).mul(s);
    let close_w = scalar::num::<S>(32).mul(s);
    let inner_w = p.w.sub(scalar::num::<S>(2).mul(scalar::num(12)).mul(s));
    let top = p.y.add(scalar::num::<S>(40).mul(s)).add(eight);
    let rows_h = scalar::num::<S>(rows_shown(n)).mul(scalar::num::<S>(36).mul(s));
    let sel = choice(v.selected_fence, n);
    let scroll = scalar::clamped(v.fence_scroll, scalar::num(0), list_scroll_max(n, s));
    let btn_h = scalar::num::<S>(34).mul(s);
    let add_y = top.add(rows_h).add(eight).add(detail_height(d, s)).add(eight);
    let remove_y = add_y.add(btn_h).add(eight);
    &&& c.area() == p
    &&& c.title_h == scalar::num::<S>(40).mul(s)
    &&& c.close == (RectF { x: p.x.add(p.w).sub(close_w).sub(eight), y: p.y.add(eight), w: close_w, h: close_w })
    &&& c.fence_rows.len() == n
    &&& forall|i: int| 0 <= i < n ==> list_row(#[trigger] c.fence_rows[i], d.fences[i], i, sel, p, s, scroll)
    &&& c.fence_list_view == (RectF { x: p.x.add(pad), y: top, w: inner_w, h: rows_h })
    &&& if n > 0 {
        c.fence_detail matches Some(k) && controls(
            k,
            RectF { x: p.x.add(pad), y: top.add(rows_h).add(eight), w: inner_w, h: scalar::num::<S>(218).mul(s) },
            d.fences[sel].appearance,
            s,
        ) && k.title@ == fence_name(d.fences[sel], sel)
    } else {
        c.fence_detail is None
    }
    &&& c.add_fence == (RectF { x: p.x.add(pad), y: add_y, w: inner_w, h: btn_h })
    &&& c.remove_btn == (RectF { x: p.x.add(pad), y: remove_y, w: inner_w, h: btn_h })
    &&& c.desktop_toggle == (RectF { x: p.x.add(pad), y: remove_y.add(btn_h).add(eight), w: inner_w, h: btn_h })
    &&& crate::fence_view::channels(c.fill_color, S::lit(62, 1000), S::lit(86, 1000), S::lit(133, 1000), S::lit(92, 100))
    &&& crate::fence_view::channels(c.border_color, scalar::num(1), scalar::num(1), scalar::num(1), S::lit(18, 100))
    &&& c.panel == v.panel
    &&& c.hover_zone == (if S::lit(5, 10).le(v.panel) {
        v.hover
    } else {
        None
    })
    &&& c.desktop_mode == d.desktop_mode
}

/// Lays the console out.
pub fn build_console<S: Scalar>(desk: &Desk<S>, theme: &Theme<S>, vw: S, vh: S, view: ConsoleView<S>) -> (c: SceneConsole<S>)
    requires
        desk.fences.len() <= i64::MAX,
    ensures
        shows_console(c, *desk, *theme, vw, vh, view),
{
    let s = theme.scale;
    let n = desk.fences.len();
    let p = console_geometry(desk, theme, vw, vh, view.panel);
    let pad = whole_number::<S>(CONSOLE_PAD).times(s);
    let eight = whole_number::<S>(8).times(s);
    let title_h = whole_number::<S>(CONSOLE_TITLE_H).times(s);
    let close_w = whole_number::<S>(CONSOLE_CLOSE_W).times(s);
    let inner_w = p.w.minus(whole_number::<S>(2).times(whole_number(CONSOLE_PAD)).times(s));
    let top = p.y.plus(title_h).plus(eight);
    let row_h = whole_number::<S>(CONSOLE_FENCE_ROW_H).times(s);
    let shown = shown_rows(n);
    let rows_h = count::<S>(shown).times(row_h);
    let scroll_max = if n > shown {
        count::<S>(n - shown).times(row_h)
    } else {
        whole_number(0)
    };
    let scroll = clamp(view.fence_scroll, whole_number(0), scroll_max);
    let sel: usize = if n == 0 {
        0
    } else if view.selected_fence < n {
        view.selected_fence
    } else {
        n - 1
    };
    let fence_rows = list_rows(desk, sel, &p, s, scroll);
    let fence_detail = if n > 0 {
        let area = RectF {
            x: p.x.plus(pad),
            y: top.plus(rows_h).plus(eight),
            w: inner_w,
            h: whole_number::<S>(CONSOLE_FENCE_DETAIL_H).times(s),
        };
        Some(build_detail(area, &desk.fences[sel].appearance, name_of(&desk.fences[sel], sel), s))
    } else {
        None
    };
    let btn_h = whole_number::<S>(CONSOLE_ADD_BTN_H).times(s);
    let add_y = top.plus(rows_h).plus(eight).plus(detail_visible_rows(desk, s)).plus(eight);
    let remove_y = add_y.plus(btn_h).plus(eight);
    let one = whole_number::<S>(1);
    SceneConsole {
        x: p.x,
        y: p.y,
        width: p.w,
        height: p.h,
        title_h,
        close: RectF {
            x: p.x.plus(p.w).minus(close_w).minus(eight),
            y: p.y.plus(eight),
            w: close_w,
            h: close_w,
        },
        desktop_toggle: RectF { x: p.x.plus(pad), y: remove_y.plus(btn_h).plus(eight), w: inner_w, h: btn_h },
        fence_rows,
        fence_list_view: RectF { x: p.x.plus(pad), y: top, w: inner_w, h: rows_h },
        fence_detail,
        add_fence: RectF { x: p.x.plus(pad), y: add_y, w: inner_w, h: btn_h },
        remove_btn: RectF { x: p.x.plus(pad), y: remove_y, w: inner_w, h: btn_h },
        fill_color: [S::ratio(62, 1000), S::ratio(86, 1000), S::ratio(133, 1000), S::ratio(92, 100)],
        border_color: [one, one, one, S::ratio(18, 100)],
        panel: view.panel,
        hover_zone: if S::ratio(5, 10).at_most(view.panel) {
            view.hover
        } else {
            None
        },
        desktop_mode: desk.desktop_mode,
    }
}

/// However much the console holds, it is neither lower than 170 units nor higher than 640.
pub proof fn law_console_height_bounded(d: Desk<i64>, s: i64)
    requires
        0 <= s <= 0x100_0000_0000,
    ensures
        170 * s <= full_height(d, s) <= 640 * s,
{
    assert(scalar::num::<i64>(170) == 170 && scalar::num::<i64>(640) == 640);
    assert(170 * s <= 640 * s) by (nonlinear_arith)
        requires
            0 <= s,
    ;
}

proof fn lemma_scales(s: i64)
    requires
        1 <= s <= 16,
    ensures
        forall|k: int| 0 <= k <= 1000 ==> #[trigger] Scalar::mul(scalar::num::<i64>(k), s) == k * s,
        Scalar::mul(Scalar::mul(scalar::num::<i64>(2), scalar::num::<i64>(12)), s) == 24 * s,
{
    assert forall|k: int| 0 <= k <= 1000 implies #[trigger] Scalar::mul(scalar::num::<i64>(k), s) == k * s by {
        assert(scalar::num::<i64>(k) == k);
        assert(0 <= k * s <= 16000) by (nonlinear_arith)
            requires
                0 <= k <= 1000,
                1 <= s <= 16,
        ;
    }
    let (a, b) = (scalar::num::<i64>(2), scalar::num::<i64>(12));
    assert(a * b == 24) by (nonlinear_arith)
        requires
            a == 2,
            b == 12,
    ;
}

proof fn lemma_rows_height(n: int, h: i64, s: i64)
    requires
        0 <= n <= 0x1_0000_0000,
        0 <= h <= 100,
        1 <= s <= 16,
    ensures
        Scalar::mul(Scalar::mul(scalar::num::<i64>(n), h), s) == n * h * s,
        Scalar::mul(scalar::num::<i64>(n), Scalar::mul(h, s)) == n * (h * s),
        0 <= n * h * s <= 0x1_0000_0000 * 1600,
        n * h * s == n * (h * s),
{
    assert(scalar::num::<i64>(n) == n);
    assert(0 <= n * h <= 0x1_0000_0000 * 100) by (nonlinear_arith)
        requires
            0 <= n <= 0x1_0000_0000,
            0 <= h <= 100,
    ;
    assert(0 <= h * s <= 1600) by (nonlinear_arith)
        requires
            0 <= h <= 100,
            1 <= s <= 16,
    ;
    let a = n * h;
    assert(0 <= a * s <= 0x1_0000_0000 * 1600) by (nonlinear_arith)
        requires
            0 <= a <= 0x1_0000_0000 * 100,
            1 <= s <= 16,
    ;
    assert(n * h * s == n * (h * s)) by (nonlinear_arith);
}

/// A console that was neither moved nor resized is at the upper right of the screen, with the
/// same margin at both sides, and within the screen; one that was moved is where it was put.
/// Folded it has no height.
pub proof fn law_console_is_at_upper_right(d: Desk<i64>, t: Theme<i64>, vw: i64, vh: i64, panel: i64)
    requires
        1 <= t.scale <= 16,
        400 * t.scale <= vw <= 0x1_0000_0000,
        400 * t.scale <= vh <= 0x1_0000_0000,
        panel == 0 || panel == 1,
    ensures
        ({
            let s = t.scale;
            let p = panel_rect(d, t, vw, vh, panel);
            &&& d.console_pos is None && d.console_size is None ==> p.w == 320 * s && p.x + p.w + 24 * s == vw && p.y == 24
                * s
            &&& d.console_pos matches Some(at) ==> p.x == at.x && p.y == at.y
            &&& d.console_size matches Some((w, h)) ==> p.w >= w && p.w >= 260 * s && (p.w == w || p.w == 260 * s)
            &&& panel == 0 ==> p.h == 0
            &&& panel == 1 ==> 170 * s <= p.h <= vh - 48 * s
            &&& panel == 1 ==> (d.console_size matches Some((w, h)) ==> 170 * s <= h <= vh - 48 * s ==> p.h == h)
        }),
{
    let s = t.scale;
    lemma_scales(s);
    law_console_height_bounded(d, s);
    assert(Scalar::mul(scalar::num::<i64>(24), s) == 24 * s);
    assert(Scalar::mul(scalar::num::<i64>(170), s) == 170 * s);
    assert(Scalar::mul(scalar::num::<i64>(260), s) == 260 * s);
    assert(Scalar::mul(scalar::num::<i64>(320), s) == 320 * s);
    assert(Scalar::mul(scalar::num::<i64>(8), s) == 8 * s);
    let margin = Scalar::mul(scalar::num::<i64>(24), s);
    let two = scalar::num::<i64>(2);
    assert(two * margin == 48 * s) by (nonlinear_arith)
        requires
            two == 2,
            margin == 24 * s,
    ;
    let f = scalar::clamped(panel, scalar::num::<i64>(0), i64::lit(112, 100));
    assert(f == panel);
    let p = panel_rect(d, t, vw, vh, panel);
    let full = match d.console_size {
        Some((w, h)) => Scalar::min(
            Scalar::max(h, Scalar::mul(scalar::num::<i64>(170), s)),
            Scalar::max(Scalar::sub(vh, Scalar::mul(two, margin)), Scalar::mul(scalar::num::<i64>(170), s)),
        ),
        None => Scalar::min(
            full_height(d, s),
            Scalar::max(Scalar::sub(vh, Scalar::mul(two, margin)), Scalar::mul(scalar::num::<i64>(170), s)),
        ),
    };
    assert(p.h == Scalar::mul(full, f));
    assert(full * f == if f == 0 {
        0
    } else {
        full as int
    }) by (nonlinear_arith)
        requires
            f == 0 || f == 1,
    ;
}

/// The parts of the console stand one below the other and do not overlap: its title with the
/// button that folds it, the list of fences, the controls of the chosen one, and the buttons
/// that add a fence, take it away and switch the desktop. All are as wide as the console but
/// for its margin.
pub proof fn law_console_parts_are_stacked(
    c: SceneConsole<i64>,
    d: Desk<i64>,
    t: Theme<i64>,
    vw: i64,
    vh: i64,
    v: ConsoleView<i64>,
)
    requires
        shows_console(c, d, t, vw, vh, v),
        1 <= t.scale <= 16,
        d.fences.len() <= 0x1_0000_0000,
        -0x1_0000_0000 <= c.area().x <= 0x1_0000_0000,
        -0x1_0000_0000 <= c.area().y <= 0x1_0000_0000,
        0 <= c.area().w <= 0x1_0000_0000,
    ensures
        ({
            let s = t.scale;
            let p = c.area();
            let left = p.x + 12 * s;
            let right = p.x + p.w - 12 * s;
            let list = c.fence_list_view;
            &&& p.y <= c.close.y && c.close.y + c.close.h <= p.y + c.title_h
            &&& c.close.x + c.close.w + 8 * s == p.x + p.w
            &&& list.x == left && list.x + list.w == right
            &&& p.y + c.title_h <= list.y
            &&& list.h == 36 * s * rows_shown(d.fences.len() as int)
            &&& c.fence_detail matches Some(k) ==> k.rect.x == left && k.rect.x + k.rect.w == right && list.y + list.h
                <= k.rect.y
            &&& c.fence_detail is Some <==> d.fences.len() > 0
            &&& list.y + list.h + 24 * s + 90 * s <= c.add_fence.y
            &&& c.add_fence.x == left && c.add_fence.x + c.add_fence.w == right
            &&& c.add_fence.y + c.add_fence.h <= c.remove_btn.y
            &&& c.remove_btn.x == left && c.remove_btn.x + c.remove_btn.w == right
            &&& c.remove_btn.y + c.remove_btn.h <= c.desktop_toggle.y
            &&& c.desktop_toggle.x == left && c.desktop_toggle.x + c.desktop_toggle.w == right
            &&& c.add_fence.h == 34 * s && c.remove_btn.h == 34 * s && c.desktop_toggle.h == 34 * s
        }),
{
    let s = t.scale;
    let n = d.fences.len() as int;
    lemma_scales(s);
    lemma_rows_height(rows_shown(n), 36, s);
    assert(scalar::num::<i64>(36) == 36 && scalar::num::<i64>(30) == 30);
    assert(Scalar::mul(scalar::num::<i64>(12), s) == 12 * s);
    assert(Scalar::mul(scalar::num::<i64>(8), s) == 8 * s);
    assert(Scalar::mul(scalar::num::<i64>(32), s) == 32 * s);
    assert(Scalar::mul(scalar::num::<i64>(40), s) == 40 * s);
    assert(Scalar::mul(scalar::num::<i64>(36), s) == 36 * s);
    assert(Scalar::mul(scalar::num::<i64>(34), s) == 34 * s);
    assert(Scalar::mul(scalar::num::<i64>(24), s) == 24 * s);
    assert(Scalar::mul(scalar::num::<i64>(218), s) == 218 * s);
    let k = telling_from(d.fences@, 0);
    let rows = if k < d.fences.len() {
        control_rows(d.fences[k].appearance.layout, d.fences[k].appearance.bg_style)
    } else {
        control_rows(FenceLayout::Grid, FenceStyle::Glass)
    };
    lemma_rows_height(rows, 30, s);
    assert(3 <= rows <= 6);
    assert(90 * s <= rows * 30 * s) by (nonlinear_arith)
        requires
            3 <= rows,
            1 <= s,
    ;
    assert(detail_height(d, s) == 24 * s + rows * 30 * s);
    assert(36 * s * rows_shown(n) == rows_shown(n) * (36 * s)) by (nonlinear_arith);
}

/// The rows of the list of fences follow each other from the top, one for each fence in their
/// order, and only that of the chosen fence is marked.
pub proof fn law_console_lists_fences(
    c: SceneConsole<i64>,
    d: Desk<i64>,
    t: Theme<i64>,
    vw: i64,
    vh: i64,
    v: ConsoleView<i64>,
    i: int,
)
    requires
        shows_console(c, d, t, vw, vh, v),
        1 <= t.scale <= 16,
        0 <= i < d.fences.len() <= 0x1_0000_0000,
        -0x1_0000_0000 <= c.area().x <= 0x1_0000_0000,
        -0x1_0000_0000 <= c.area().y <= 0x1_0000_0000,
        0 <= c.area().w <= 0x1_0000_0000,
    ensures
        ({
            let s = t.scale;
            let row = c.fence_rows[i];
            &&& c.fence_rows.len() == d.fences.len()
            &&& row.title@ == fence_name(d.fences[i], i)
            &&& row.rect.h == 36 * s
            &&& row.rect.x == c.fence_list_view.x && row.rect.w == c.fence_list_view.w
            &&& i == 0 ==> row.rect.y <= c.fence_list_view.y
            &&& i == 0 && v.fence_scroll <= 0 ==> row.rect.y == c.fence_list_view.y
            &&& i > 0 ==> row.rect.y == c.fence_rows[i - 1].rect.y + 36 * s
            &&& row.selected <==> i == if v.selected_fence < d.fences.len() {
                v.selected_fence as int
            } else {
                d.fences.len() - 1
            }
        }),
{
    let s = t.scale;
    let n = d.fences.len() as int;
    lemma_scales(s);
    lemma_rows_height(i, 36, s);
    if i > 0 {
        lemma_rows_height(i - 1, 36, s);
        assert((i - 1) * (36 * s) == i * (36 * s) - 36 * s) by (nonlinear_arith);
        assert(list_row(
            c.fence_rows[i - 1],
            d.fences[i - 1],
            i - 1,
            choice(v.selected_fence, n),
            panel_rect(d, t, vw, vh, v.panel),
            s,
            scalar::clamped(v.fence_scroll, scalar::num::<i64>(0), list_scroll_max(n, s)),
        ));
    }
    assert(list_row(
        c.fence_rows[i],
        d.fences[i],
        i,
        choice(v.selected_fence, n),
        panel_rect(d, t, vw, vh, v.panel),
        s,
        scalar::clamped(v.fence_scroll, scalar::num::<i64>(0), list_scroll_max(n, s)),
    ));
    if n > 5 {
        lemma_rows_height(n - 5, 36, s);
    }
    assert(0 * (36 * s) == 0) by (nonlinear_arith);
    assert(scalar::num::<i64>(36) == 36 && scalar::num::<i64>(0) == 0);
    assert(Scalar::mul(scalar::num::<i64>(12), s) == 12 * s);
    assert(Scalar::mul(scalar::num::<i64>(8), s) == 8 * s);
    assert(Scalar::mul(scalar::num::<i64>(40), s) == 40 * s);
    assert(Scalar::mul(scalar::num::<i64>(36), s) == 36 * s);
}

/// `b` stands to the right of `a` in the same row.
pub open spec fn right_of(a: RectF<i64>, b: RectF<i64>) -> bool {
    a.x + a.w < b.x && a.y == b.y && a.h == b.h
}

/// `b` stands below `a`.
pub open spec fn below(a: RectF<i64>, b: RectF<i64>) -> bool {
    a.y + a.h <= b.y
}

/// The controls of a fence do not overlap: those of a row stand beside each other, and the
/// rows below each other. Controls for what the fence does not have are nothing.
pub proof fn law_controls_do_not_overlap(k: SceneFenceDetail<i64>, area: RectF<i64>, app: FenceAppearance<i64>, s: i64)
    requires
        controls(k, area, app, s),
        1 <= s <= 16,
        -0x1_0000_0000 <= area.x <= 0x1_0000_0000,
        -0x1_0000_0000 <= area.y <= 0x1_0000_0000,
    ensures
        right_of(k.layout_grid, k.layout_list) && right_of(k.layout_list, k.layout_sidebar),
        right_of(k.style_glass, k.style_outline) && right_of(k.style_outline, k.style_filled) && right_of(
            k.style_filled,
            k.style_blur,
        ),
        area.x < k.layout_grid.x && area.y + 24 * s <= k.layout_grid.y,
        !(app.layout is List) ==> right_of(k.size_s, k.size_m) && right_of(k.size_m, k.size_l) && below(
            k.layout_grid,
            k.size_s,
        ) && below(k.size_s, k.style_glass),
        app.layout is List ==> k.size_s.w == 0 && k.size_m.w == 0 && k.size_l.w == 0 && below(k.layout_grid, k.style_glass),
        !(app.bg_style is Blur) ==> k.tints.len() == 9 && below(k.style_glass, k.tint_default) && below(
            k.tint_default,
            k.storage_btn,
        ) && right_of(k.tint_default, k.tints[0]) && forall|i: int|
            0 <= i < 8 ==> right_of(#[trigger] k.tints[i], k.tints[i + 1]),
        app.bg_style is Blur ==> k.tints.len() == 0 && k.tint_default.w == 0 && below(k.style_glass, k.storage_btn),
        app.layout is Sidebar ==> right_of(k.sidebar_left, k.sidebar_top) && right_of(k.sidebar_top, k.sidebar_right)
            && below(k.storage_btn, k.sidebar_left),
        !(app.layout is Sidebar) ==> k.sidebar_left.w == 0 && k.sidebar_top.w == 0 && k.sidebar_right.w == 0,
{
    lemma_scales(s);
    reveal_with_fuel(button_x, 5);
    assert(scalar::num::<i64>(0) == 0 && scalar::num::<i64>(2) == 2 && scalar::num::<i64>(30) == 30);
    assert(Scalar::mul(scalar::num::<i64>(24), s) == 24 * s);
    assert(Scalar::mul(scalar::num::<i64>(40), s) == 40 * s);
    assert(Scalar::mul(scalar::num::<i64>(6), s) == 6 * s);
    assert(Scalar::mul(scalar::num::<i64>(52), s) == 52 * s);
    assert(Scalar::mul(scalar::num::<i64>(48), s) == 48 * s);
    assert(Scalar::mul(scalar::num::<i64>(18), s) == 18 * s);
    assert(Scalar::mul(scalar::num::<i64>(120), s) == 120 * s);
    lemma_control_y(area.y, s);
    let x = Scalar::add(area.x, Scalar::mul(scalar::num::<i64>(40), s));
    let sw = Scalar::mul(scalar::num::<i64>(18), s);
    let gap = Scalar::mul(scalar::num::<i64>(6), s);
    if !(app.bg_style is Blur) {
        let x1 = Scalar::add(Scalar::add(x, sw), gap);
        lemma_swatches(x1, sw, gap);
        assert(k.tints[0] == k.tints@[0]);
        assert forall|i: int| 0 <= i < 8 implies right_of(#[trigger] k.tints[i], k.tints[i + 1]) by {
            assert(k.tints@[i].x == swatch_x(x1, sw, gap, i));
            assert(k.tints@[i + 1].x == swatch_x(x1, sw, gap, i + 1));
        }
    }
}

proof fn lemma_control_y(top: i64, s: i64)
    requires
        1 <= s <= 16,
        -0x1_0000_0000 <= top <= 0x1_0000_0000,
    ensures
        control_y(top, s, 0) == top + 24 * s,
        control_y(top, s, 1) == top + 54 * s,
        control_y(top, s, 2) == top + 84 * s,
        control_y(top, s, 3) == top + 114 * s,
        control_y(top, s, 4) == top + 144 * s,
        control_y(top, s, 5) == top + 174 * s,
{
    lemma_scales(s);
    assert(Scalar::mul(scalar::num::<i64>(24), s) == 24 * s);
    assert(scalar::num::<i64>(30) == 30);
    lemma_rows_height(0, 30, s);
    lemma_rows_height(1, 30, s);
    lemma_rows_height(2, 30, s);
    lemma_rows_height(3, 30, s);
    lemma_rows_height(4, 30, s);
    lemma_rows_height(5, 30, s);
}

proof fn lemma_swatches(x: i64, w: i64, gap: i64)
    requires
        -0x2_0000_0000 <= x <= 0x2_0000_0000,
        0 <= w <= 0x1_0000,
        0 < gap <= 0x1_0000,
    ensures
        swatch_x(x, w, gap, 0) == x,
        forall|i: int| 0 <= i < 8 ==> swatch_x(x, w, gap, i) + w < #[trigger] swatch_x(x, w, gap, i + 1),
{
    reveal_with_fuel(swatch_x, 10);
    assert forall|i: int| 0 <= i < 8 implies swatch_x(x, w, gap, i) + w < #[trigger] swatch_x(x, w, gap, i + 1) by {
        assert(i == 0 || i == 1 || i == 2 || i == 3 || i == 4 || i == 5 || i == 6 || i == 7);
    }
}

/// The list of fences scrolls until its last row is the last of the five that are seen, and
/// not at all where there are no more.
pub proof fn law_list_scrolls_to_its_end(n: int, s: i64)
    requires
        0 <= n <= 0x1_0000,
        1 <= s <= 16,
    ensures
        n <= 5 ==> list_scroll_max(n, s) == 0,
        n > 5 ==> n * 36 * s - list_scroll_max(n, s) == 5 * 36 * s,
{
    assert(scalar::num::<i64>(0) == 0);
    assert(scalar::num::<i64>(36) == 36);
    if n > 5 {
        assert(scalar::num::<i64>(n - 5) == n - 5);
        assert(0 <= (n - 5) * (36 * s) <= 0x1_0000 * 576 && n * 36 * s - (n - 5) * (36 * s) == 5 * 36 * s)
            by (nonlinear_arith)
            requires
                5 < n <= 0x1_0000,
                1 <= s <= 16,
        ;
    }
}

} // verus!
