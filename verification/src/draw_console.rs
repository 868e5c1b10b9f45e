//! The console, the text being edited and the whole picture as strokes.

use vstd::prelude::*;
use vstd::string::*;

use crate::console;
use crate::console::{tint_color, TINT_COUNT};
use crate::draw_fence;
use crate::model::{FenceLayout, FenceStyle, SidebarPosition};
use crate::overlay::{ConsoleZone, RectF};
use crate::paint;
use crate::paint::{dim, draw_text, draw_text_centered, stroke, Edges, Font, Paint};
use crate::scalar;
use crate::scalar::{clamp, whole_number, Scalar};
use crate::scene::{SceneConsole, SceneFenceDetail};
use crate::text;
use crate::text::estimate_width;
use crate::theme;
use crate::theme::{percent, Color, Theme};

verus! {

/// The colour of what is chosen.
pub open spec fn accent<S: Scalar>() -> Color<S> {
    theme::color(23, 51, 96, 92)
}

/// The colour of what takes away.
pub open spec fn alarm<S: Scalar>() -> Color<S> {
    theme::color(85, 28, 28, 90)
}

/// A colour with another opacity, in hundredths.
pub open spec fn with_alpha<S: Scalar>(c: Color<S>, a: i64) -> Color<S> {
    Color { a: S::lit(a, 100), ..c }
}

/// A button with its label; it is lit up while the pointer is on it, and stands out while it
/// is the choice made.
pub open spec fn button_marks<S: Scalar>(
    t: Theme<S>,
    r: RectF<S>,
    label: Seq<char>,
    active: bool,
    hover: bool,
    accent: Color<S>,
) -> Seq<Paint<S, Seq<char>>> {
    let label_h = t.label.size.mul(S::lit(16, 10));
    seq![
        Paint::FillRounded {
            rect: r.sides(),
            radius: scalar::num::<S>(7).mul(t.scale),
            color: if active {
                with_alpha(accent, 85)
            } else if hover {
                paint::white(16)
            } else {
                paint::white(7)
            },
        },
        paint::centered(
            label,
            Font::Label,
            Edges { top: r.y.add(r.h.sub(label_h).div(scalar::num(2))), ..r.sides() },
            paint::white(
                if active {
                    96
                } else {
                    80
                },
            ),
            t,
        ),
    ]
}

fn draw_segmented_button<S: Scalar>(
    out: &mut Vec<Paint<S, String>>,
    t: &Theme<S>,
    r: &RectF<S>,
    label: &str,
    active: bool,
    hover: bool,
    accent: Color<S>,
)
    ensures
        paint::marks(final(out)@) == paint::marks(old(out)@) + button_marks(*t, *r, label@, active, hover, accent),
{
    let ghost o = paint::marks(out@);
    let label_h = t.label.size.times(S::ratio(16, 10));
    let e = r.edges();
    stroke(
        out,
        Paint::FillRounded {
            rect: e,
            radius: whole_number::<S>(7).times(t.scale),
            color: if active {
                Color { a: S::ratio(85, 100), ..accent }
            } else if hover {
                percent(100, 100, 100, 16)
            } else {
                percent(100, 100, 100, 7)
            },
        },
    );
    let ink: i64 = if active {
        96
    } else {
        80
    };
    draw_text_centered(
        out,
        label,
        Font::Label,
        Edges { top: r.y.plus(r.h.minus(label_h).over(whole_number(2))), ..e },
        percent(100, 100, 100, ink),
        t,
    );
    proof {
        assert(paint::marks(out@) =~= o + button_marks(*t, *r, label@, active, hover, accent));
    }
}

/// A round patch of a tint, with a halo while the pointer is on it and a ring while it is
/// the choice made.
pub open spec fn swatch_marks<S: Scalar>(r: RectF<S>, c: Color<S>, active: bool, hover: bool) -> Seq<Paint<S, Seq<char>>> {
    let two = scalar::num::<S>(2);
    let x = r.x.add(r.w.div(two));
    let y = r.y.add(r.h.div(two));
    let q = r.w.div(two);
    (if hover {
        draw_fence::one(Paint::FillEllipse { x, y, radius: q.add(scalar::num(3)), color: paint::white(18) })
    } else {
        draw_fence::none()
    }) + draw_fence::one(Paint::FillEllipse { x, y, radius: q, color: c }) + (if active {
        draw_fence::one(
            Paint::DrawEllipse {
                x,
                y,
                radius: q.add(scalar::num(1)),
                color: paint::white(95),
                width: S::lit(16, 10),
            },
        )
    } else {
        draw_fence::none()
    })
}

fn draw_tint_swatch<S: Scalar>(out: &mut Vec<Paint<S, String>>, r: &RectF<S>, c: Color<S>, active: bool, hover: bool)
    ensures
        paint::marks(final(out)@) == paint::marks(old(out)@) + swatch_marks(*r, c, active, hover),
{
    let ghost o = paint::marks(out@);
    let two = whole_number::<S>(2);
    let x = r.x.plus(r.w.over(two));
    let y = r.y.plus(r.h.over(two));
    let q = r.w.over(two);
    if hover {
        stroke(
            out,
            Paint::FillEllipse { x, y, radius: q.plus(whole_number(3)), color: percent(100, 100, 100, 18) },
        );
    }
    stroke(out, Paint::FillEllipse { x, y, radius: q, color: c });
    if active {
        stroke(
            out,
            Paint::DrawEllipse {
                x,
                y,
                radius: q.plus(whole_number(1)),
                color: percent(100, 100, 100, 95),
                width: S::ratio(16, 10),
            },
        );
    }
    proof {
        assert(paint::marks(out@) =~= o + swatch_marks(*r, c, active, hover));
    }
}

/// The name of the `i`-th row of controls, `h` units high.
pub open spec fn row_name<S: Scalar>(t: Theme<S>, d: SceneFenceDetail<S>, i: int, name: Seq<char>, h: int, a: i64, shown: S) -> Paint<
    S,
    Seq<char>,
> {
    let s = t.scale;
    let x = d.rect.x.add(scalar::num::<S>(2).mul(s));
    let y = d.rect.y.add(scalar::num::<S>(26).mul(s)).add(scalar::num::<S>(i).mul(scalar::num(30)).mul(s));
    paint::written(
        name,
        Font::Detail,
        Edges {
            left: x,
            top: y.add(scalar::num::<S>(2).mul(s)),
            right: x.add(scalar::num::<S>(40).mul(s)),
            bottom: y.add(scalar::num::<S>(h).mul(s)),
        },
        paint::dimmed(100, 100, 100, a, shown),
        t,
    )
}

fn draw_row_name<S: Scalar>(
    out: &mut Vec<Paint<S, String>>,
    t: &Theme<S>,
    d: &SceneFenceDetail<S>,
    i: i64,
    name: &str,
    h: i64,
    a: i64,
    shown: S,
)
    ensures
        paint::marks(final(out)@) == paint::marks(old(out)@).push(
            row_name(*t, *d, i as int, name@, h as int, a, shown),
        ),
{
    let s = t.scale;
    let x = d.rect.x.plus(whole_number::<S>(2).times(s));
    let y = d.rect.y.plus(whole_number::<S>(26).times(s)).plus(
        whole_number::<S>(i).times(whole_number(30)).times(s),
    );
    let e = Edges {
        left: x,
        top: y.plus(whole_number::<S>(2).times(s)),
        right: x.plus(whole_number::<S>(40).times(s)),
        bottom: y.plus(whole_number::<S>(h).times(s)),
    };
    draw_text(out, name, Font::Detail, e, dim(100, 100, 100, a, shown), t);
}

/// Whether the pointer is on the control for a layout.
pub open spec fn on_layout<S>(c: SceneConsole<S>, l: FenceLayout) -> bool {
    c.hover_zone matches Some(z) && z matches ConsoleZone::FenceLayout(x) && x == l
}

fn is_on_layout<S: Copy>(c: &SceneConsole<S>, l: FenceLayout) -> (r: bool)
    ensures
        r == on_layout(*c, l),
{
    match c.hover_zone {
        Some(ConsoleZone::FenceLayout(x)) => x == l,
        _ => false,
    }
}

/// The row of controls for the layout.
pub open spec fn layout_row<S: Scalar>(t: Theme<S>, c: SceneConsole<S>, d: SceneFenceDetail<S>, shown: S) -> Seq<
    Paint<S, Seq<char>>,
> {
    draw_fence::one(row_name(t, d, 0, "布局"@, 24, 45, shown)) + button_marks(
        t,
        d.layout_grid,
        "网格"@,
        d.layout == FenceLayout::Grid,
        on_layout(c, FenceLayout::Grid),
        accent(),
    ) + button_marks(
        t,
        d.layout_list,
        "列表"@,
        d.layout == FenceLayout::List,
        on_layout(c, FenceLayout::List),
        accent(),
    ) + button_marks(
        t,
        d.layout_sidebar,
        "侧边栏"@,
        d.layout == FenceLayout::Sidebar,
        on_layout(c, FenceLayout::Sidebar),
        accent(),
    )
}

fn draw_layout_row<S: Scalar>(out: &mut Vec<Paint<S, String>>, t: &Theme<S>, c: &SceneConsole<S>, d: &SceneFenceDetail<S>, shown: S)
    ensures
        paint::marks(final(out)@) == paint::marks(old(out)@) + layout_row(*t, *c, *d, shown),
{
    let ghost o = paint::marks(out@);
    let hue = percent::<S>(23, 51, 96, 92);
    draw_row_name(out, t, d, 0, "布局", 24, 45, shown);
    draw_segmented_button(
        out,
        t,
        &d.layout_grid,
        "网格",
        d.layout == FenceLayout::Grid,
        is_on_layout(c, FenceLayout::Grid),
        hue,
    );
    draw_segmented_button(
        out,
        t,
        &d.layout_list,
        "列表",
        d.layout == FenceLayout::List,
        is_on_layout(c, FenceLayout::List),
        hue,
    );
    draw_segmented_button(
        out,
        t,
        &d.layout_sidebar,
        "侧边栏",
        d.layout == FenceLayout::Sidebar,
        is_on_layout(c, FenceLayout::Sidebar),
        hue,
    );
    proof {
        assert(paint::marks(out@) =~= o + layout_row(*t, *c, *d, shown));
    }
}

/// Two sizes that differ by less than half a unit.
pub open spec fn near<S: Scalar>(a: S, n: int) -> bool {
    a.sub(scalar::num(n)).abs().lt(S::lit(5, 10))
}

fn is_near<S: Scalar>(a: S, n: i64) -> (r: bool)
    ensures
        r == near(a, n as int),
{
    a.minus(whole_number(n)).size().below(S::ratio(5, 10))
}

/// Whether the pointer is on the control for a size of icons.
pub open spec fn on_size<S: Scalar>(c: SceneConsole<S>, n: int) -> bool {
    c.hover_zone matches Some(z) && z matches ConsoleZone::FenceIconSize(v) && near(v, n)
}

fn is_on_size<S: Scalar>(c: &SceneConsole<S>, n: i64) -> (r: bool)
    ensures
        r == on_size(*c, n as int),
{
    match c.hover_zone {
        Some(ConsoleZone::FenceIconSize(v)) => is_near(v, n),
        _ => false,
    }
}

/// The row of controls for the size of icons.
pub open spec fn size_row<S: Scalar>(t: Theme<S>, c: SceneConsole<S>, d: SceneFenceDetail<S>, shown: S) -> Seq<
    Paint<S, Seq<char>>,
> {
    draw_fence::one(row_name(t, d, 1, "大小"@, 24, 45, shown)) + button_marks(
        t,
        d.size_s,
        "小"@,
        near(d.icon_size, 32),
        on_size(c, 32),
        accent(),
    ) + button_marks(t, d.size_m, "中"@, near(d.icon_size, 48), on_size(c, 48), accent()) + button_marks(
        t,
        d.size_l,
        "大"@,
        near(d.icon_size, 64),
        on_size(c, 64),
        accent(),
    )
}

fn draw_size_row<S: Scalar>(out: &mut Vec<Paint<S, String>>, t: &Theme<S>, c: &SceneConsole<S>, d: &SceneFenceDetail<S>, shown: S)
    ensures
        paint::marks(final(out)@) == paint::marks(old(out)@) + size_row(*t, *c, *d, shown),
{
    let ghost o = paint::marks(out@);
    let hue = percent::<S>(23, 51, 96, 92);
    draw_row_name(out, t, d, 1, "大小", 24, 45, shown);
    draw_segmented_button(out, t, &d.size_s, "小", is_near(d.icon_size, 32), is_on_size(c, 32), hue);
    draw_segmented_button(out, t, &d.size_m, "中", is_near(d.icon_size, 48), is_on_size(c, 48), hue);
    draw_segmented_button(out, t, &d.size_l, "大", is_near(d.icon_size, 64), is_on_size(c, 64), hue);
    proof {
        assert(paint::marks(out@) =~= o + size_row(*t, *c, *d, shown));
    }
}

/// Whether the pointer is on the control for a style.
pub open spec fn on_style<S>(c: SceneConsole<S>, x: FenceStyle) -> bool {
    c.hover_zone matches Some(z) && z matches ConsoleZone::FenceStyle(y) && y == x
}

fn is_on_style<S: Copy>(c: &SceneConsole<S>, x: FenceStyle) -> (r: bool)
    ensures
        r == on_style(*c, x),
{
    match c.hover_zone {
        Some(ConsoleZone::FenceStyle(y)) => y == x,
        _ => false,
    }
}

/// The control for a style.
pub open spec fn style_button<S: Scalar>(t: Theme<S>, c: SceneConsole<S>, d: SceneFenceDetail<S>, r: RectF<S>, name: Seq<char>, x: FenceStyle) -> Seq<
    Paint<S, Seq<char>>,
> {
    button_marks(t, r, name, d.style == x, on_style(c, x), accent())
}

/// The row of controls for the style.
pub open spec fn style_row<S: Scalar>(t: Theme<S>, c: SceneConsole<S>, d: SceneFenceDetail<S>, shown: S) -> Seq<
    Paint<S, Seq<char>>,
> {
    draw_fence::one(row_name(t, d, 2, "风格"@, 24, 45, shown)) + style_button(
        t,
        c,
        d,
        d.style_glass,
        "玻璃"@,
        FenceStyle::Glass,
    ) + style_button(t, c, d, d.style_outline, "描边"@, FenceStyle::Outline) + style_button(
        t,
        c,
        d,
        d.style_filled,
        "纯色"@,
        FenceStyle::Filled,
    ) + style_button(t, c, d, d.style_blur, "模糊"@, FenceStyle::Blur)
}

fn draw_style_row<S: Scalar>(out: &mut Vec<Paint<S, String>>, t: &Theme<S>, c: &SceneConsole<S>, d: &SceneFenceDetail<S>, shown: S)
    ensures
        paint::marks(final(out)@) == paint::marks(old(out)@) + style_row(*t, *c, *d, shown),
{
    let ghost o = paint::marks(out@);
    let hue = percent::<S>(23, 51, 96, 92);
    draw_row_name(out, t, d, 2, "风格", 24, 45, shown);
    draw_segmented_button(
        out,
        t,
        &d.style_glass,
        "玻璃",
        d.style == FenceStyle::Glass,
        is_on_style(c, FenceStyle::Glass),
        hue,
    );
    draw_segmented_button(
        out,
        t,
        &d.style_outline,
        "描边",
        d.style == FenceStyle::Outline,
        is_on_style(c, FenceStyle::Outline),
        hue,
    );
    draw_segmented_button(
        out,
        t,
        &d.style_filled,
        "纯色",
        d.style == FenceStyle::Filled,
        is_on_style(c, FenceStyle::Filled),
        hue,
    );
    draw_segmented_button(
        out,
        t,
        &d.style_blur,
        "模糊",
        d.style == FenceStyle::Blur,
        is_on_style(c, FenceStyle::Blur),
        hue,
    );
    proof {
        assert(paint::marks(out@) =~= o + style_row(*t, *c, *d, shown));
    }
}

/// The colour is the `i`-th tint.
pub open spec fn matches_tint<S: Scalar>(c: [S; 3], i: int) -> bool {
    let p = console::tint_parts(i);
    c@[0].same_as(S::lit(p.0, 100)) && c@[1].same_as(S::lit(p.1, 100)) && c@[2].same_as(S::lit(p.2, 100))
}

/// Whether the pointer is on the control for the `i`-th tint.
pub open spec fn on_tint<S: Scalar>(c: SceneConsole<S>, i: int) -> bool {
    c.hover_zone matches Some(z) && z matches ConsoleZone::FenceTint(x) && x matches Some(k) && matches_tint(k, i)
}

/// The first `n` patches of tints.
pub open spec fn tint_marks<S: Scalar>(c: SceneConsole<S>, d: SceneFenceDetail<S>, n: int) -> Seq<Paint<S, Seq<char>>>
    decreases n,
{
    if n <= 0 {
        draw_fence::none()
    } else {
        let v = tint_marks(c, d, n - 1);
        if n - 1 < TINT_COUNT {
            let p = console::tint_parts(n - 1);
            v + swatch_marks(
                d.tints[n - 1],
                theme::color(p.0, p.1, p.2, 100),
                d.tint matches Some(k) && matches_tint(k, n - 1),
                on_tint(c, n - 1),
            )
        } else {
            v
        }
    }
}

/// The row of controls for the tint.
pub open spec fn tint_row<S: Scalar>(t: Theme<S>, c: SceneConsole<S>, d: SceneFenceDetail<S>, shown: S) -> Seq<
    Paint<S, Seq<char>>,
> {
    draw_fence::one(row_name(t, d, 3, "色调"@, 22, 45, shown)) + swatch_marks(
        d.tint_default,
        theme::color(20, 24, 32, 100),
        d.tint is None,
        c.hover_zone matches Some(z) && z matches ConsoleZone::FenceTint(x) && x is None,
    ) + tint_marks(c, d, d.tints.len() as int)
}

fn draw_tint_row<S: Scalar>(out: &mut Vec<Paint<S, String>>, t: &Theme<S>, c: &SceneConsole<S>, d: &SceneFenceDetail<S>, shown: S)
    ensures
        paint::marks(final(out)@) == paint::marks(old(out)@) + tint_row(*t, *c, *d, shown),
{
    let ghost o = paint::marks(out@);
    draw_row_name(out, t, d, 3, "色调", 22, 45, shown);
    let on_plain = match c.hover_zone {
        Some(ConsoleZone::FenceTint(None)) => true,
        _ => false,
    };
    draw_tint_swatch(out, &d.tint_default, percent(20, 24, 32, 100), d.tint.is_none(), on_plain);
    let ghost m = paint::marks(out@);
    let mut i: usize = 0;
    proof {
        assert(m =~= m + tint_marks(*c, *d, 0));
    }
    while i < d.tints.len()
        invariant
            i <= d.tints.len(),
            paint::marks(out@) == m + tint_marks(*c, *d, i as int),
        decreases d.tints.len() - i,
    {
        if i < TINT_COUNT {
            let rgb = tint_color::<S>(i);
            let active = match d.tint {
                Some(k) => k[0].equals(rgb[0]) && k[1].equals(rgb[1]) && k[2].equals(rgb[2]),
                None => false,
            };
            let hover = match c.hover_zone {
                Some(ConsoleZone::FenceTint(Some(k))) => k[0].equals(rgb[0]) && k[1].equals(rgb[1]) && k[2].equals(
                    rgb[2],
                ),
                _ => false,
            };
            let hue = Color { r: rgb[0], g: rgb[1], b: rgb[2], a: S::ratio(100, 100) };
            draw_tint_swatch(out, &d.tints[i], hue, active, hover);
            proof {
                let p = console::tint_parts(i as int);
                assert(hue == theme::color::<S>(p.0, p.1, p.2, 100));
                paint::lemma_strokes(
                    m,
                    tint_marks(*c, *d, i as int),
                    swatch_marks(d.tints[i as int], hue, active, hover),
                    Paint::PopClip,
                );
            }
        }
        i += 1;
    }
    proof {
        assert(paint::marks(out@) =~= o + tint_row(*t, *c, *d, shown));
    }
}

/// Whether the pointer is on the control for an edge.
pub open spec fn on_edge<S>(c: SceneConsole<S>, p: SidebarPosition) -> bool {
    c.hover_zone matches Some(z) && z matches ConsoleZone::FenceSidebarPos(q) && q == p
}

fn is_on_edge<S: Copy>(c: &SceneConsole<S>, p: SidebarPosition) -> (r: bool)
    ensures
        r == on_edge(*c, p),
{
    match c.hover_zone {
        Some(ConsoleZone::FenceSidebarPos(q)) => q == p,
        _ => false,
    }
}

/// The rows of controls for the folder and for the edge of a sidebar.
pub open spec fn last_rows<S: Scalar>(t: Theme<S>, c: SceneConsole<S>, d: SceneFenceDetail<S>, shown: S) -> Seq<
    Paint<S, Seq<char>>,
> {
    let side = d.layout == FenceLayout::Sidebar;
    draw_fence::one(row_name(t, d, 4, "存储"@, 24, 45, shown)) + button_marks(
        t,
        d.storage_btn,
        "更改位置…"@,
        false,
        c.hover_zone matches Some(z) && z is ChangeStoragePath,
        accent(),
    ) + draw_fence::one(
        row_name(
            t,
            d,
            5,
            "位置"@,
            24,
            if side {
                45
            } else {
                20
            },
            shown,
        ),
    ) + button_marks(
        t,
        d.sidebar_left,
        "左"@,
        d.sidebar_pos == SidebarPosition::Left && side,
        on_edge(c, SidebarPosition::Left),
        accent(),
    ) + button_marks(
        t,
        d.sidebar_top,
        "上"@,
        d.sidebar_pos == SidebarPosition::Top && side,
        on_edge(c, SidebarPosition::Top),
        accent(),
    ) + button_marks(
        t,
        d.sidebar_right,
        "右"@,
        d.sidebar_pos == SidebarPosition::Right && side,
        on_edge(c, SidebarPosition::Right),
        accent(),
    )
}

fn draw_last_rows<S: Scalar>(out: &mut Vec<Paint<S, String>>, t: &Theme<S>, c: &SceneConsole<S>, d: &SceneFenceDetail<S>, shown: S)
    ensures
        paint::marks(final(out)@) == paint::marks(old(out)@) + last_rows(*t, *c, *d, shown),
{
    let ghost o = paint::marks(out@);
    let hue = percent::<S>(23, 51, 96, 92);
    let side = d.layout == FenceLayout::Sidebar;
    draw_row_name(out, t, d, 4, "存储", 24, 45, shown);
    let on_storage = match c.hover_zone {
        Some(ConsoleZone::ChangeStoragePath) => true,
        _ => false,
    };
    draw_segmented_button(out, t, &d.storage_btn, "更改位置…", false, on_storage, hue);
    let a: i64 = if side {
        45
    } else {
        20
    };
    draw_row_name(out, t, d, 5, "位置", 24, a, shown);
    draw_segmented_button(
        out,
        t,
        &d.sidebar_left,
        "左",
        d.sidebar_pos == SidebarPosition::Left && side,
        is_on_edge(c, SidebarPosition::Left),
        hue,
    );
    draw_segmented_button(
        out,
        t,
        &d.sidebar_top,
        "上",
        d.sidebar_pos == SidebarPosition::Top && side,
        is_on_edge(c, SidebarPosition::Top),
        hue,
    );
    draw_segmented_button(
        out,
        t,
        &d.sidebar_right,
        "右",
        d.sidebar_pos == SidebarPosition::Right && side,
        is_on_edge(c, SidebarPosition::Right),
        hue,
    );
    proof {
        assert(paint::marks(out@) =~= o + last_rows(*t, *c, *d, shown));
    }
}

/// The controls for the chosen fence.
pub open spec fn detail_marks<S: Scalar>(t: Theme<S>, c: SceneConsole<S>, d: SceneFenceDetail<S>, shown: S) -> Seq<
    Paint<S, Seq<char>>,
> {
    let s = t.scale;
    let two = scalar::num::<S>(2).mul(s);
    draw_fence::one(
        paint::written(
            d.title@,
            Font::Label,
            Edges {
                left: d.rect.x.add(two),
                top: d.rect.y.add(two),
                right: d.rect.x.add(d.rect.w).sub(two),
                bottom: d.rect.y.add(scalar::num::<S>(20).mul(s)),
            },
            paint::dimmed(100, 100, 100, 75, shown),
            t,
        ),
    ) + layout_row(t, c, d, shown) + size_row(t, c, d, shown) + style_row(t, c, d, shown) + tint_row(t, c, d, shown)
        + last_rows(t, c, d, shown)
}

/// Draws the controls for the chosen fence.
fn draw_fence_detail<S: Scalar>(out: &mut Vec<Paint<S, String>>, t: &Theme<S>, c: &SceneConsole<S>, d: &SceneFenceDetail<S>, shown: S)
    ensures
        paint::marks(final(out)@) == paint::marks(old(out)@) + detail_marks(*t, *c, *d, shown),
{
    let ghost o = paint::marks(out@);
    let ghost pop = Paint::<S, Seq<char>>::PopClip;
    let s = t.scale;
    let two = whole_number::<S>(2).times(s);
    let e = Edges {
        left: d.rect.x.plus(two),
        top: d.rect.y.plus(two),
        right: d.rect.x.plus(d.rect.w).minus(two),
        bottom: d.rect.y.plus(whole_number::<S>(20).times(s)),
    };
    draw_text(out, d.title.as_str(), Font::Label, e, dim(100, 100, 100, 75, shown), t);
    let ghost m0 = draw_fence::one(
        paint::written(d.title@, Font::Label, e, paint::dimmed(100, 100, 100, 75, shown), *t),
    );
    proof {
        assert(paint::marks(out@) =~= o + m0);
    }
    draw_layout_row(out, t, c, d, shown);
    let ghost m1 = m0 + layout_row(*t, *c, *d, shown);
    proof {
        paint::lemma_strokes(o, m0, layout_row(*t, *c, *d, shown), pop);
    }
    draw_size_row(out, t, c, d, shown);
    let ghost m2 = m1 + size_row(*t, *c, *d, shown);
    proof {
        paint::lemma_strokes(o, m1, size_row(*t, *c, *d, shown), pop);
    }
    draw_style_row(out, t, c, d, shown);
    let ghost m3 = m2 + style_row(*t, *c, *d, shown);
    proof {
        paint::lemma_strokes(o, m2, style_row(*t, *c, *d, shown), pop);
    }
    draw_tint_row(out, t, c, d, shown);
    let ghost m4 = m3 + tint_row(*t, *c, *d, shown);
    proof {
        paint::lemma_strokes(o, m3, tint_row(*t, *c, *d, shown), pop);
    }
    draw_last_rows(out, t, c, d, shown);
    proof {
        paint::lemma_strokes(o, m4, last_rows(*t, *c, *d, shown), pop);
    }
}

/// The row of the `i`-th fence in the list.
pub open spec fn row_marks<S: Scalar>(t: Theme<S>, c: SceneConsole<S>, i: int, shown: S) -> Seq<Paint<S, Seq<char>>> {
    let s = t.scale;
    let r = c.fence_rows[i];
    let two = scalar::num::<S>(2).mul(s);
    let label_h = t.label.size.mul(S::lit(16, 10));
    let radius = scalar::num::<S>(8).mul(s);
    let hover = c.hover_zone matches Some(z) && z matches ConsoleZone::FenceSelect(j) && j == i;
    draw_fence::one(
        Paint::FillRounded {
            rect: r.rect.sides(),
            radius,
            color: if r.selected {
                paint::dimmed(23, 51, 96, 24, shown)
            } else if hover {
                paint::dimmed(100, 100, 100, 8, shown)
            } else {
                paint::dimmed(100, 100, 100, 4, shown)
            },
        },
    ) + (if r.selected {
        draw_fence::one(
            Paint::DrawRounded {
                rect: Edges {
                    left: r.rect.x.add(two),
                    top: r.rect.y.add(two),
                    right: r.rect.x.add(r.rect.w).sub(two),
                    bottom: r.rect.y.add(r.rect.h).sub(two),
                },
                radius,
                color: paint::dimmed(23, 51, 96, 70, shown),
                width: scalar::num(1),
            },
        )
    } else {
        draw_fence::none()
    }) + draw_fence::one(
        paint::centered(
            r.title@,
            Font::Label,
            Edges {
                left: r.rect.x.add(scalar::num::<S>(12).mul(s)),
                top: r.rect.y.add(r.rect.h.sub(label_h).div(scalar::num(2))),
                right: r.rect.x.add(r.rect.w).sub(scalar::num::<S>(30).mul(s)),
                bottom: r.rect.y.add(r.rect.h),
            },
            paint::dimmed(100, 100, 100, 90, shown),
            t,
        ),
    )
}

fn draw_row<S: Scalar>(out: &mut Vec<Paint<S, String>>, t: &Theme<S>, c: &SceneConsole<S>, i: usize, shown: S)
    requires
        i < c.fence_rows.len(),
    ensures
        paint::marks(final(out)@) == paint::marks(old(out)@) + row_marks(*t, *c, i as int, shown),
{
    let ghost o = paint::marks(out@);
    let s = t.scale;
    let r = &c.fence_rows[i];
    let two = whole_number::<S>(2).times(s);
    let label_h = t.label.size.times(S::ratio(16, 10));
    let radius = whole_number::<S>(8).times(s);
    let hover = match c.hover_zone {
        Some(ConsoleZone::FenceSelect(j)) => j == i,
        _ => false,
    };
    let color = if r.selected {
        dim(23, 51, 96, 24, shown)
    } else if hover {
        dim(100, 100, 100, 8, shown)
    } else {
        dim(100, 100, 100, 4, shown)
    };
    stroke(out, Paint::FillRounded { rect: r.rect.edges(), radius, color });
    if r.selected {
        stroke(
            out,
            Paint::DrawRounded {
                rect: Edges {
                    left: r.rect.x.plus(two),
                    top: r.rect.y.plus(two),
                    right: r.rect.x.plus(r.rect.w).minus(two),
                    bottom: r.rect.y.plus(r.rect.h).minus(two),
                },
                radius,
                color: dim(23, 51, 96, 70, shown),
                width: whole_number(1),
            },
        );
    }
    let e = Edges {
        left: r.rect.x.plus(whole_number::<S>(12).times(s)),
        top: r.rect.y.plus(r.rect.h.minus(label_h).over(whole_number(2))),
        right: r.rect.x.plus(r.rect.w).minus(whole_number::<S>(30).times(s)),
        bottom: r.rect.y.plus(r.rect.h),
    };
    draw_text_centered(out, r.title.as_str(), Font::Label, e, dim(100, 100, 100, 90, shown), t);
    proof {
        assert(paint::marks(out@) =~= o + row_marks(*t, *c, i as int, shown));
    }
}

/// The rows of the first `n` fences in the list.
pub open spec fn rows_marks<S: Scalar>(t: Theme<S>, c: SceneConsole<S>, shown: S, n: int) -> Seq<Paint<S, Seq<char>>>
    decreases n,
{
    if n <= 0 {
        draw_fence::none()
    } else {
        rows_marks(t, c, shown, n - 1) + row_marks(t, c, n - 1, shown)
    }
}

/// The list of fences, within the part of it that is seen.
pub open spec fn list_marks<S: Scalar>(t: Theme<S>, c: SceneConsole<S>, shown: S) -> Seq<Paint<S, Seq<char>>> {
    let view = c.fence_list_view.sides();
    let rows = rows_marks(t, c, shown, c.fence_rows.len() as int);
    if view.top.lt(view.bottom) {
        draw_fence::one(Paint::PushClip(view)) + rows + draw_fence::one(Paint::PopClip)
    } else {
        rows
    }
}

fn draw_list<S: Scalar>(out: &mut Vec<Paint<S, String>>, t: &Theme<S>, c: &SceneConsole<S>, shown: S)
    ensures
        paint::marks(final(out)@) == paint::marks(old(out)@) + list_marks(*t, *c, shown),
{
    let ghost o = paint::marks(out@);
    let view = c.fence_list_view.edges();
    let clipped = view.top.below(view.bottom);
    if clipped {
        stroke(out, Paint::PushClip(view));
    }
    let ghost m = paint::marks(out@);
    let mut i: usize = 0;
    proof {
        assert(m =~= m + rows_marks(*t, *c, shown, 0));
    }
    while i < c.fence_rows.len()
        invariant
            i <= c.fence_rows.len(),
            paint::marks(out@) == m + rows_marks(*t, *c, shown, i as int),
        decreases c.fence_rows.len() - i,
    {
        draw_row(out, t, c, i, shown);
        proof {
            paint::lemma_strokes(
                m,
                rows_marks(*t, *c, shown, i as int),
                row_marks(*t, *c, i as int, shown),
                Paint::PopClip,
            );
        }
        i += 1;
    }
    if clipped {
        stroke(out, Paint::PopClip);
    }
    proof {
        assert(paint::marks(out@) =~= o + list_marks(*t, *c, shown));
    }
}

/// The buttons below the controls: a new fence, one less, and the plain desktop.
pub open spec fn foot_marks<S: Scalar>(t: Theme<S>, c: SceneConsole<S>) -> Seq<Paint<S, Seq<char>>> {
    let on_remove = c.hover_zone matches Some(z) && z is RemoveFence;
    button_marks(
        t,
        c.add_fence,
        "＋ 添加栅栏"@,
        false,
        c.hover_zone matches Some(z) && z is AddFence,
        accent(),
    ) + button_marks(
        t,
        c.remove_btn,
        "删除栅栏"@,
        false,
        on_remove,
        if on_remove {
            alarm()
        } else {
            accent()
        },
    ) + button_marks(
        t,
        c.desktop_toggle,
        if c.desktop_mode {
            "回到栅栏"@
        } else {
            "切换桌面"@
        },
        c.desktop_mode,
        c.hover_zone matches Some(z) && z is DesktopToggle,
        accent(),
    )
}

fn draw_foot<S: Scalar>(out: &mut Vec<Paint<S, String>>, t: &Theme<S>, c: &SceneConsole<S>)
    ensures
        paint::marks(final(out)@) == paint::marks(old(out)@) + foot_marks(*t, *c),
{
    let ghost o = paint::marks(out@);
    let hue = percent::<S>(23, 51, 96, 92);
    let on_add = match c.hover_zone {
        Some(ConsoleZone::AddFence) => true,
        _ => false,
    };
    let on_remove = match c.hover_zone {
        Some(ConsoleZone::RemoveFence) => true,
        _ => false,
    };
    let on_toggle = match c.hover_zone {
        Some(ConsoleZone::DesktopToggle) => true,
        _ => false,
    };
    draw_segmented_button(out, t, &c.add_fence, "＋ 添加栅栏", false, on_add, hue);
    draw_segmented_button(
        out,
        t,
        &c.remove_btn,
        "删除栅栏",
        false,
        on_remove,
        if on_remove {
            percent(85, 28, 28, 90)
        } else {
            hue
        },
    );
    let label = if c.desktop_mode {
        "回到栅栏"
    } else {
        "切换桌面"
    };
    draw_segmented_button(out, t, &c.desktop_toggle, label, c.desktop_mode, on_toggle, hue);
    proof {
        assert(paint::marks(out@) =~= o + foot_marks(*t, *c));
    }
}

/// The controls for the chosen fence, if there is one.
pub open spec fn controls_marks<S: Scalar>(t: Theme<S>, c: SceneConsole<S>, shown: S) -> Seq<Paint<S, Seq<char>>> {
    match c.fence_detail {
        Some(d) => detail_marks(t, c, d, shown),
        None => draw_fence::none(),
    }
}

/// The page of fences.
pub open spec fn page_marks<S: Scalar>(t: Theme<S>, c: SceneConsole<S>, shown: S) -> Seq<Paint<S, Seq<char>>> {
    list_marks(t, c, shown) + controls_marks(t, c, shown) + foot_marks(t, c)
}

/// Draws the page of fences.
fn draw_fences_page<S: Scalar>(out: &mut Vec<Paint<S, String>>, t: &Theme<S>, c: &SceneConsole<S>, shown: S)
    ensures
        paint::marks(final(out)@) == paint::marks(old(out)@) + page_marks(*t, *c, shown),
{
    let ghost o = paint::marks(out@);
    let ghost pop = Paint::<S, Seq<char>>::PopClip;
    draw_list(out, t, c, shown);
    let ghost m1 = list_marks(*t, *c, shown);
    let ghost extra = controls_marks(*t, *c, shown);
    proof {
        paint::lemma_strokes(o + m1, draw_fence::none(), draw_fence::none(), pop);
    }
    if let Some(d) = &c.fence_detail {
        draw_fence_detail(out, t, c, d, shown);
    }
    proof {
        assert(paint::marks(out@) == (o + m1) + extra);
        paint::lemma_strokes(o, m1, extra, pop);
    }
    draw_foot(out, t, c);
    proof {
        paint::lemma_strokes(o, m1 + extra, foot_marks(*t, *c), pop);
    }
}

/// The panel, its title and the button that closes it.
pub open spec fn panel_marks<S: Scalar>(t: Theme<S>, c: SceneConsole<S>, a: S) -> Seq<Paint<S, Seq<char>>> {
    let s = t.scale;
    let two = scalar::num::<S>(2);
    let rect = c.area().sides();
    let radius = scalar::num::<S>(14).mul(s);
    let fill = draw_fence::color_of(c.fill_color);
    let edge = draw_fence::color_of(c.border_color);
    let title_h = c.title_h.max(scalar::num::<S>(34).mul(s));
    let line_h = t.title.size.mul(S::lit(16, 10));
    let x_w = text::width_of("✕"@, t.title.size);
    seq![
        Paint::FillRounded { rect, radius, color: Color { a: fill.a.mul(a), ..fill } },
        Paint::DrawRounded { rect, radius, color: Color { a: edge.a.mul(a), ..edge }, width: scalar::num(1) },
        paint::centered(
            "Sylva"@,
            Font::TitleBold,
            Edges {
                left: c.x,
                top: c.y.add(title_h.sub(line_h).div(two)),
                right: c.x.add(c.width),
                bottom: c.y.add(title_h),
            },
            t.title.color,
            t,
        ),
    ] + (if c.hover_zone matches Some(z) && z is Close {
        draw_fence::one(
            Paint::FillRounded {
                rect: c.close.sides(),
                radius: scalar::num::<S>(8).mul(s),
                color: paint::dimmed(85, 28, 28, 30, a),
            },
        )
    } else {
        draw_fence::none()
    }) + draw_fence::one(
        paint::written(
            "✕"@,
            Font::Title,
            Edges {
                left: c.close.x.add(c.close.w.sub(x_w).div(two)),
                top: c.close.y.add(c.close.h.sub(line_h).div(two)),
                right: c.close.x.add(c.close.w),
                bottom: c.close.y.add(c.close.h),
            },
            paint::dimmed(100, 100, 100, 62, a),
            t,
        ),
    )
}

fn draw_panel<S: Scalar>(out: &mut Vec<Paint<S, String>>, t: &Theme<S>, c: &SceneConsole<S>, a: S)
    ensures
        paint::marks(final(out)@) == paint::marks(old(out)@) + panel_marks(*t, *c, a),
{
    let ghost o = paint::marks(out@);
    let s = t.scale;
    let two = whole_number::<S>(2);
    let rect = RectF { x: c.x, y: c.y, w: c.width, h: c.height }.edges();
    let radius = whole_number::<S>(14).times(s);
    let fill = draw_fence::to_color(&c.fill_color);
    let edge = draw_fence::to_color(&c.border_color);
    stroke(out, Paint::FillRounded { rect, radius, color: Color { a: fill.a.times(a), ..fill } });
    stroke(
        out,
        Paint::DrawRounded { rect, radius, color: Color { a: edge.a.times(a), ..edge }, width: whole_number(1) },
    );
    let title_h = c.title_h.greatest(whole_number::<S>(34).times(s));
    let line_h = t.title.size.times(S::ratio(16, 10));
    draw_text_centered(
        out,
        "Sylva",
        Font::TitleBold,
        Edges {
            left: c.x,
            top: c.y.plus(title_h.minus(line_h).over(two)),
            right: c.x.plus(c.width),
            bottom: c.y.plus(title_h),
        },
        t.title.color,
        t,
    );
    let on_close = match c.hover_zone {
        Some(ConsoleZone::Close) => true,
        _ => false,
    };
    if on_close {
        stroke(
            out,
            Paint::FillRounded {
                rect: c.close.edges(),
                radius: whole_number::<S>(8).times(s),
                color: dim(85, 28, 28, 30, a),
            },
        );
    }
    let x_w = estimate_width("✕", t.title.size);
    let e = Edges {
        left: c.close.x.plus(c.close.w.minus(x_w).over(two)),
        top: c.close.y.plus(c.close.h.minus(line_h).over(two)),
        right: c.close.x.plus(c.close.w),
        bottom: c.close.y.plus(c.close.h),
    };
    draw_text(out, "✕", Font::Title, e, dim(100, 100, 100, 62, a), t);
    proof {
        assert(paint::marks(out@) =~= o + panel_marks(*t, *c, a));
    }
}

/// The console; one that is all but folded is not drawn.
pub open spec fn console_marks<S: Scalar>(t: Theme<S>, c: SceneConsole<S>) -> Seq<Paint<S, Seq<char>>> {
    let a = scalar::clamped(c.panel, scalar::num(0), scalar::num(1));
    if a.le(S::lit(1, 100)) {
        draw_fence::none()
    } else {
        panel_marks(t, c, a) + page_marks(t, c, a)
    }
}

/// Draws the console.
pub fn draw_console<S: Scalar>(out: &mut Vec<Paint<S, String>>, t: &Theme<S>, c: &SceneConsole<S>)
    ensures
        paint::marks(final(out)@) == paint::marks(old(out)@) + console_marks(*t, *c),
{
    let ghost o = paint::marks(out@);
    let a = clamp(c.panel, whole_number(0), whole_number(1));
    if a.at_most(S::ratio(1, 100)) {
        proof {
            assert(paint::marks(out@) =~= o + draw_fence::none());
        }
        return;
    }
    draw_panel(out, t, c, a);
    draw_fences_page(out, t, c, a);
    proof {
        paint::lemma_strokes(o, panel_marks(*t, *c, a), page_marks(*t, *c, a), Paint::PopClip);
    }
}

/// Among the strokes, one fills the place of `r` and the next writes `label` in it, from its
/// middle to its right and lower edges.
pub open spec fn labelled<S: Scalar>(m: Seq<Paint<S, Seq<char>>>, r: RectF<S>, label: Seq<char>, t: Theme<S>) -> bool {
    exists|i: int|
        {
            &&& 0 <= i < m.len() - 1
            &&& draw_fence::filled(#[trigger] m[i]) == Some(r.sides())
            &&& written_in(m[i + 1], r, label, t)
        }
}

/// `p` writes `label`, as far as it fits, against the right and lower edges of `r`.
pub open spec fn written_in<S: Scalar>(p: Paint<S, Seq<char>>, r: RectF<S>, label: Seq<char>, t: Theme<S>) -> bool {
    let shown = paint::fitted(label, r.sides().right.sub(r.x).max(scalar::num(0)), t.label.size);
    p matches Paint::Text { text, font, rect, color } && rect.right == r.sides().right && rect.bottom
        == r.sides().bottom && text == paint::fitted(shown, rect.right.sub(rect.left).max(scalar::num(0)), t.label.size)
}

proof fn lemma_labelled<S: Scalar>(
    a: Seq<Paint<S, Seq<char>>>,
    b: Seq<Paint<S, Seq<char>>>,
    r: RectF<S>,
    label: Seq<char>,
    t: Theme<S>,
)
    requires
        labelled(a, r, label, t) || labelled(b, r, label, t),
    ensures
        labelled(a + b, r, label, t),
{
    let m = a + b;
    if labelled(a, r, label, t) {
        let i = choose|i: int|
            {
                &&& 0 <= i < a.len() - 1
                &&& draw_fence::filled(#[trigger] a[i]) == Some(r.sides())
                &&& written_in(a[i + 1], r, label, t)
            };
        assert(m[i] == a[i] && m[i + 1] == a[i + 1]);
    } else {
        let i = choose|i: int|
            {
                &&& 0 <= i < b.len() - 1
                &&& draw_fence::filled(#[trigger] b[i]) == Some(r.sides())
                &&& written_in(b[i + 1], r, label, t)
            };
        let n = a.len() as int;
        assert(m[n + i] == b[i] && m[n + i + 1] == b[i + 1]);
    }
}

proof fn lemma_button<S: Scalar>(t: Theme<S>, r: RectF<S>, label: Seq<char>, active: bool, hover: bool, hue: Color<S>)
    ensures
        labelled(button_marks(t, r, label, active, hover, hue), r, label, t),
{
    let m = button_marks(t, r, label, active, hover, hue);
    let i: int = 0;
    assert(draw_fence::filled(m[i]) == Some(r.sides()));
    assert(written_in(m[i + 1], r, label, t));
}

proof fn lemma_layout_row<S: Scalar>(t: Theme<S>, c: SceneConsole<S>, d: SceneFenceDetail<S>, shown: S)
    ensures
        labelled(layout_row(t, c, d, shown), d.layout_grid, "网格"@, t),
        labelled(layout_row(t, c, d, shown), d.layout_list, "列表"@, t),
        labelled(layout_row(t, c, d, shown), d.layout_sidebar, "侧边栏"@, t),
{
    let a = draw_fence::one(row_name(t, d, 0, "布局"@, 24, 45, shown));
    let g = d.layout == FenceLayout::Grid;
    let l = d.layout == FenceLayout::List;
    let s = d.layout == FenceLayout::Sidebar;
    let hg = on_layout(c, FenceLayout::Grid);
    let hl = on_layout(c, FenceLayout::List);
    let hs = on_layout(c, FenceLayout::Sidebar);
    lemma_button(t, d.layout_grid, "网格"@, g, hg, accent());
    lemma_button(t, d.layout_list, "列表"@, l, hl, accent());
    lemma_button(t, d.layout_sidebar, "侧边栏"@, s, hs, accent());
    let b1 = button_marks(t, d.layout_grid, "网格"@, g, hg, accent());
    let b2 = button_marks(t, d.layout_list, "列表"@, l, hl, accent());
    let b3 = button_marks(t, d.layout_sidebar, "侧边栏"@, s, hs, accent());
    lemma_labelled(a, b1, d.layout_grid, "网格"@, t);
    lemma_labelled(a + b1, b2, d.layout_grid, "网格"@, t);
    lemma_labelled(a + b1, b2, d.layout_list, "列表"@, t);
    lemma_labelled(a + b1 + b2, b3, d.layout_grid, "网格"@, t);
    lemma_labelled(a + b1 + b2, b3, d.layout_list, "列表"@, t);
    lemma_labelled(a + b1 + b2, b3, d.layout_sidebar, "侧边栏"@, t);
}

proof fn lemma_size_row<S: Scalar>(t: Theme<S>, c: SceneConsole<S>, d: SceneFenceDetail<S>, shown: S)
    ensures
        labelled(size_row(t, c, d, shown), d.size_s, "小"@, t),
        labelled(size_row(t, c, d, shown), d.size_m, "中"@, t),
        labelled(size_row(t, c, d, shown), d.size_l, "大"@, t),
{
    let a = draw_fence::one(row_name(t, d, 1, "大小"@, 24, 45, shown));
    let i = d.icon_size;
    lemma_button(t, d.size_s, "小"@, near(i, 32), on_size(c, 32), accent());
    lemma_button(t, d.size_m, "中"@, near(i, 48), on_size(c, 48), accent());
    lemma_button(t, d.size_l, "大"@, near(i, 64), on_size(c, 64), accent());
    let b1 = button_marks(t, d.size_s, "小"@, near(i, 32), on_size(c, 32), accent());
    let b2 = button_marks(t, d.size_m, "中"@, near(i, 48), on_size(c, 48), accent());
    let b3 = button_marks(t, d.size_l, "大"@, near(i, 64), on_size(c, 64), accent());
    lemma_labelled(a, b1, d.size_s, "小"@, t);
    lemma_labelled(a + b1, b2, d.size_s, "小"@, t);
    lemma_labelled(a + b1, b2, d.size_m, "中"@, t);
    lemma_labelled(a + b1 + b2, b3, d.size_s, "小"@, t);
    lemma_labelled(a + b1 + b2, b3, d.size_m, "中"@, t);
    lemma_labelled(a + b1 + b2, b3, d.size_l, "大"@, t);
}

proof fn lemma_style_row<S: Scalar>(t: Theme<S>, c: SceneConsole<S>, d: SceneFenceDetail<S>, shown: S)
    ensures
        labelled(style_row(t, c, d, shown), d.style_glass, "玻璃"@, t),
        labelled(style_row(t, c, d, shown), d.style_outline, "描边"@, t),
        labelled(style_row(t, c, d, shown), d.style_filled, "纯色"@, t),
        labelled(style_row(t, c, d, shown), d.style_blur, "模糊"@, t),
{
    let a = draw_fence::one(row_name(t, d, 2, "风格"@, 24, 45, shown));
    lemma_button(t, d.style_glass, "玻璃"@, d.style == FenceStyle::Glass, on_style(c, FenceStyle::Glass), accent());
    lemma_button(
        t,
        d.style_outline,
        "描边"@,
        d.style == FenceStyle::Outline,
        on_style(c, FenceStyle::Outline),
        accent(),
    );
    lemma_button(t, d.style_filled, "纯色"@, d.style == FenceStyle::Filled, on_style(c, FenceStyle::Filled), accent());
    lemma_button(t, d.style_blur, "模糊"@, d.style == FenceStyle::Blur, on_style(c, FenceStyle::Blur), accent());
    let b1 = style_button(t, c, d, d.style_glass, "玻璃"@, FenceStyle::Glass);
    let b2 = style_button(t, c, d, d.style_outline, "描边"@, FenceStyle::Outline);
    let b3 = style_button(t, c, d, d.style_filled, "纯色"@, FenceStyle::Filled);
    let b4 = style_button(t, c, d, d.style_blur, "模糊"@, FenceStyle::Blur);
    lemma_labelled(a, b1, d.style_glass, "玻璃"@, t);
    lemma_labelled(a + b1, b2, d.style_glass, "玻璃"@, t);
    lemma_labelled(a + b1, b2, d.style_outline, "描边"@, t);
    lemma_labelled(a + b1 + b2, b3, d.style_glass, "玻璃"@, t);
    lemma_labelled(a + b1 + b2, b3, d.style_outline, "描边"@, t);
    lemma_labelled(a + b1 + b2, b3, d.style_filled, "纯色"@, t);
    lemma_labelled(a + b1 + b2 + b3, b4, d.style_glass, "玻璃"@, t);
    lemma_labelled(a + b1 + b2 + b3, b4, d.style_outline, "描边"@, t);
    lemma_labelled(a + b1 + b2 + b3, b4, d.style_filled, "纯色"@, t);
    lemma_labelled(a + b1 + b2 + b3, b4, d.style_blur, "模糊"@, t);
}

/// What is labelled in one of the rows of controls is labelled in the console.
proof fn lemma_row_shown<S: Scalar>(
    t: Theme<S>,
    c: SceneConsole<S>,
    d: SceneFenceDetail<S>,
    shown: S,
    r: RectF<S>,
    label: Seq<char>,
)
    requires
        c.fence_detail == Some(d),
        labelled(layout_row(t, c, d, shown), r, label, t) || labelled(size_row(t, c, d, shown), r, label, t)
            || labelled(style_row(t, c, d, shown), r, label, t) || labelled(last_rows(t, c, d, shown), r, label, t),
    ensures
        labelled(page_marks(t, c, shown), r, label, t),
{
    let m = detail_marks(t, c, d, shown);
    let a = m.take(1);
    let m1 = layout_row(t, c, d, shown);
    let m2 = size_row(t, c, d, shown);
    let m3 = style_row(t, c, d, shown);
    let m4 = tint_row(t, c, d, shown);
    let m5 = last_rows(t, c, d, shown);
    assert(m =~= a + m1 + m2 + m3 + m4 + m5);
    if labelled(m1, r, label, t) {
        lemma_labelled(a, m1, r, label, t);
    }
    if labelled(a + m1, r, label, t) || labelled(m2, r, label, t) {
        lemma_labelled(a + m1, m2, r, label, t);
    }
    if labelled(a + m1 + m2, r, label, t) || labelled(m3, r, label, t) {
        lemma_labelled(a + m1 + m2, m3, r, label, t);
        lemma_labelled(a + m1 + m2 + m3, m4, r, label, t);
    }
    lemma_labelled(a + m1 + m2 + m3 + m4, m5, r, label, t);
    lemma_labelled(list_marks(t, c, shown), m, r, label, t);
    lemma_labelled(list_marks(t, c, shown) + m, foot_marks(t, c), r, label, t);
}

/// Every control that changes the chosen fence stands where it reacts, under the name of what
/// it does.
pub proof fn law_controls_are_named<S: Scalar>(t: Theme<S>, c: SceneConsole<S>, d: SceneFenceDetail<S>, shown: S)
    requires
        c.fence_detail == Some(d),
    ensures
        ({
            let m = page_marks(t, c, shown);
            &&& labelled(m, d.layout_grid, "网格"@, t)
            &&& labelled(m, d.layout_list, "列表"@, t)
            &&& labelled(m, d.layout_sidebar, "侧边栏"@, t)
            &&& labelled(m, d.size_s, "小"@, t)
            &&& labelled(m, d.size_m, "中"@, t)
            &&& labelled(m, d.size_l, "大"@, t)
            &&& labelled(m, d.style_glass, "玻璃"@, t)
            &&& labelled(m, d.style_outline, "描边"@, t)
            &&& labelled(m, d.style_filled, "纯色"@, t)
            &&& labelled(m, d.style_blur, "模糊"@, t)
        }),
{
    lemma_layout_row(t, c, d, shown);
    lemma_size_row(t, c, d, shown);
    lemma_style_row(t, c, d, shown);
    lemma_row_shown(t, c, d, shown, d.layout_grid, "网格"@);
    lemma_row_shown(t, c, d, shown, d.layout_list, "列表"@);
    lemma_row_shown(t, c, d, shown, d.layout_sidebar, "侧边栏"@);
    lemma_row_shown(t, c, d, shown, d.size_s, "小"@);
    lemma_row_shown(t, c, d, shown, d.size_m, "中"@);
    lemma_row_shown(t, c, d, shown, d.size_l, "大"@);
    lemma_row_shown(t, c, d, shown, d.style_glass, "玻璃"@);
    lemma_row_shown(t, c, d, shown, d.style_outline, "描边"@);
    lemma_row_shown(t, c, d, shown, d.style_filled, "纯色"@);
    lemma_row_shown(t, c, d, shown, d.style_blur, "模糊"@);
}

/// The buttons at the foot of the console stand where they react; the one that switches to
/// the desktop says what it would switch to.
pub proof fn law_buttons_are_named<S: Scalar>(t: Theme<S>, c: SceneConsole<S>, shown: S)
    ensures
        ({
            let m = page_marks(t, c, shown);
            &&& labelled(m, c.add_fence, "＋ 添加栅栏"@, t)
            &&& labelled(m, c.remove_btn, "删除栅栏"@, t)
            &&& c.desktop_mode ==> labelled(m, c.desktop_toggle, "回到栅栏"@, t)
            &&& !c.desktop_mode ==> labelled(m, c.desktop_toggle, "切换桌面"@, t)
        }),
{
    let on_remove = c.hover_zone matches Some(z) && z is RemoveFence;
    let on_add = c.hover_zone matches Some(z) && z is AddFence;
    let on_desk = c.hover_zone matches Some(z) && z is DesktopToggle;
    let hue = if on_remove {
        alarm::<S>()
    } else {
        accent()
    };
    let word = if c.desktop_mode {
        "回到栅栏"@
    } else {
        "切换桌面"@
    };
    lemma_button(t, c.add_fence, "＋ 添加栅栏"@, false, on_add, accent());
    lemma_button(t, c.remove_btn, "删除栅栏"@, false, on_remove, hue);
    lemma_button(t, c.desktop_toggle, word, c.desktop_mode, on_desk, accent());
    let b1 = button_marks(t, c.add_fence, "＋ 添加栅栏"@, false, on_add, accent());
    let b2 = button_marks(t, c.remove_btn, "删除栅栏"@, false, on_remove, hue);
    let b3 = button_marks(t, c.desktop_toggle, word, c.desktop_mode, on_desk, accent());
    lemma_labelled(b1, b2, c.add_fence, "＋ 添加栅栏"@, t);
    lemma_labelled(b1, b2, c.remove_btn, "删除栅栏"@, t);
    lemma_labelled(b1 + b2, b3, c.add_fence, "＋ 添加栅栏"@, t);
    lemma_labelled(b1 + b2, b3, c.remove_btn, "删除栅栏"@, t);
    lemma_labelled(b1 + b2, b3, c.desktop_toggle, word, t);
    let rest = list_marks(t, c, shown) + controls_marks(t, c, shown);
    lemma_labelled(rest, foot_marks(t, c), c.add_fence, "＋ 添加栅栏"@, t);
    lemma_labelled(rest, foot_marks(t, c), c.remove_btn, "删除栅栏"@, t);
    lemma_labelled(rest, foot_marks(t, c), c.desktop_toggle, word, t);
}

/// Every fence of the list is shown by its title, as far as it fits, within its row, and only
/// a chosen one is outlined.
pub proof fn law_rows_are_named<S: Scalar>(t: Theme<S>, c: SceneConsole<S>, shown: S, i: int)
    requires
        0 <= i < c.fence_rows.len(),
    ensures
        ({
            let m = row_marks(t, c, i, shown);
            let r = c.fence_rows[i];
            let left = r.rect.x.add(scalar::num::<S>(12).mul(t.scale));
            let right = r.rect.sides().right.sub(scalar::num::<S>(30).mul(t.scale));
            let title = paint::fitted(r.title@, right.sub(left).max(scalar::num(0)), t.label.size);
            &&& draw_fence::filled(m[0]) == Some(r.rect.sides())
            &&& m[1] is DrawRounded <==> r.selected
            &&& m.last() matches Paint::Text { text, font, rect, color }
            &&& rect.right == right
            &&& rect.bottom == r.rect.sides().bottom
            &&& text == paint::fitted(title, rect.right.sub(rect.left).max(scalar::num(0)), t.label.size)
        }),
{
}

proof fn lemma_last_rows<S: Scalar>(t: Theme<S>, c: SceneConsole<S>, d: SceneFenceDetail<S>, shown: S)
    ensures
        labelled(last_rows(t, c, d, shown), d.storage_btn, "更改位置…"@, t),
        labelled(last_rows(t, c, d, shown), d.sidebar_left, "左"@, t),
        labelled(last_rows(t, c, d, shown), d.sidebar_top, "上"@, t),
        labelled(last_rows(t, c, d, shown), d.sidebar_right, "右"@, t),
{
    let side = d.layout == FenceLayout::Sidebar;
    let on = c.hover_zone matches Some(z) && z is ChangeStoragePath;
    let p = d.sidebar_pos;
    let a = draw_fence::one(row_name(t, d, 4, "存储"@, 24, 45, shown));
    let e = draw_fence::one(
        row_name(
            t,
            d,
            5,
            "位置"@,
            24,
            if side {
                45
            } else {
                20
            },
            shown,
        ),
    );
    let l = p == SidebarPosition::Left && side;
    let u = p == SidebarPosition::Top && side;
    let r = p == SidebarPosition::Right && side;
    let hl = on_edge(c, SidebarPosition::Left);
    let hu = on_edge(c, SidebarPosition::Top);
    let hr = on_edge(c, SidebarPosition::Right);
    lemma_button(t, d.storage_btn, "更改位置…"@, false, on, accent());
    lemma_button(t, d.sidebar_left, "左"@, l, hl, accent());
    lemma_button(t, d.sidebar_top, "上"@, u, hu, accent());
    lemma_button(t, d.sidebar_right, "右"@, r, hr, accent());
    let b1 = button_marks(t, d.storage_btn, "更改位置…"@, false, on, accent());
    let b2 = button_marks(t, d.sidebar_left, "左"@, l, hl, accent());
    let b3 = button_marks(t, d.sidebar_top, "上"@, u, hu, accent());
    let b4 = button_marks(t, d.sidebar_right, "右"@, r, hr, accent());
    lemma_labelled(a, b1, d.storage_btn, "更改位置…"@, t);
    lemma_labelled(a + b1, e, d.storage_btn, "更改位置…"@, t);
    lemma_labelled(a + b1 + e, b2, d.storage_btn, "更改位置…"@, t);
    lemma_labelled(a + b1 + e, b2, d.sidebar_left, "左"@, t);
    lemma_labelled(a + b1 + e + b2, b3, d.storage_btn, "更改位置…"@, t);
    lemma_labelled(a + b1 + e + b2, b3, d.sidebar_left, "左"@, t);
    lemma_labelled(a + b1 + e + b2, b3, d.sidebar_top, "上"@, t);
    lemma_labelled(a + b1 + e + b2 + b3, b4, d.storage_btn, "更改位置…"@, t);
    lemma_labelled(a + b1 + e + b2 + b3, b4, d.sidebar_left, "左"@, t);
    lemma_labelled(a + b1 + e + b2 + b3, b4, d.sidebar_top, "上"@, t);
    lemma_labelled(a + b1 + e + b2 + b3, b4, d.sidebar_right, "右"@, t);
}

/// The buttons for the folder and for the edge of a sidebar stand where they react.
pub proof fn law_edge_buttons_are_named<S: Scalar>(t: Theme<S>, c: SceneConsole<S>, d: SceneFenceDetail<S>, shown: S)
    requires
        c.fence_detail == Some(d),
    ensures
        ({
            let m = page_marks(t, c, shown);
            &&& labelled(m, d.storage_btn, "更改位置…"@, t)
            &&& labelled(m, d.sidebar_left, "左"@, t)
            &&& labelled(m, d.sidebar_top, "上"@, t)
            &&& labelled(m, d.sidebar_right, "右"@, t)
        }),
{
    lemma_last_rows(t, c, d, shown);
    lemma_row_shown(t, c, d, shown, d.storage_btn, "更改位置…"@);
    lemma_row_shown(t, c, d, shown, d.sidebar_left, "左"@);
    lemma_row_shown(t, c, d, shown, d.sidebar_top, "上"@);
    lemma_row_shown(t, c, d, shown, d.sidebar_right, "右"@);
}

} // verus!
