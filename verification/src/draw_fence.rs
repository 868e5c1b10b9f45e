//! Fences as strokes.

use vstd::prelude::*;
use vstd::string::*;

use crate::chars;
use crate::model::FenceLayout;
use crate::overlay::RectF;
use crate::paint;
use crate::paint::{draw_text, draw_text_centered, stroke, text_fits, Edges, Font, IconStore, Paint};
use crate::scalar;
use crate::scalar::{clamp, whole_number, Scalar};
use crate::scene::{ListColumns, SceneFence, SceneIcon};
use crate::text;
use crate::text::estimate_width;
use crate::theme;
use crate::theme::{percent, Color, Theme};

verus! {

/// A colour by its four channels.
pub open spec fn color_of<S>(c: [S; 4]) -> Color<S> {
    Color { r: c@[0], g: c@[1], b: c@[2], a: c@[3] }
}

pub fn to_color<S: Copy>(c: &[S; 4]) -> (r: Color<S>)
    ensures
        r == color_of(*c),
{
    Color { r: c[0], g: c[1], b: c[2], a: c[3] }
}

pub open spec fn one<S>(p: Paint<S, Seq<char>>) -> Seq<Paint<S, Seq<char>>> {
    seq![p]
}

pub open spec fn none<S>() -> Seq<Paint<S, Seq<char>>> {
    Seq::empty()
}

/// Where the content of a fence ends at the right.
pub open spec fn content_right<S: Scalar>(t: Theme<S>, f: SceneFence<S>) -> S {
    f.x.add(f.width).sub(t.fence_padding)
}

/// Where the rows of a fence begin.
pub open spec fn row_top<S: Scalar>(f: SceneFence<S>) -> S {
    match f.list_cols {
        Some(c) => f.content_top.add(c.header_h),
        None => f.content_top,
    }
}

/// By how much the picture of an icon stands out on every side.
pub open spec fn grown<S: Scalar>(ic: SceneIcon<S>) -> S {
    ic.size.mul(ic.scale.sub(scalar::num(1))).mul(S::lit(5, 10)).max(scalar::num(0))
}

fn growth<S: Scalar>(ic: &SceneIcon<S>) -> (r: S)
    ensures
        r == grown(*ic),
{
    ic.size.times(ic.scale.minus(whole_number(1))).times(S::ratio(5, 10)).greatest(whole_number(0))
}

/// The icon that is hovered, if there is one.
pub open spec fn hovered<S>(f: SceneFence<S>) -> Option<SceneIcon<S>> {
    match f.hover_icon {
        Some(k) => if k < f.icons.len() {
            Some(f.icons[k as int])
        } else {
            None
        },
        None => None,
    }
}

/// The head of a list: names of its columns.
pub open spec fn header_marks<S: Scalar>(t: Theme<S>, f: SceneFence<S>, c: ListColumns<S>) -> Seq<Paint<S, Seq<char>>> {
    let label_h = t.label.size.mul(S::lit(16, 10));
    let y = f.content_top.add(c.header_h.sub(label_h).div(scalar::num(2)));
    let b = y.add(label_h);
    let gap = t.list_label_gap;
    let ink = t.label.color;
    seq![
        Paint::FillRounded {
            rect: Edges {
                left: f.content_left,
                top: f.content_top,
                right: content_right(t, f),
                bottom: f.content_top.add(c.header_h),
            },
            radius: scalar::num(6),
            color: paint::white(5),
        },
        paint::written(
            "名称"@,
            Font::Label,
            Edges { left: f.content_left, top: y, right: c.type_x.sub(gap), bottom: b },
            ink,
            t,
        ),
        paint::written(
            "类型"@,
            Font::Label,
            Edges { left: c.type_x, top: y, right: c.modified_x.sub(gap), bottom: b },
            ink,
            t,
        ),
        paint::written(
            "修改日期"@,
            Font::Label,
            Edges { left: c.modified_x, top: y, right: c.size_x.sub(gap), bottom: b },
            ink,
            t,
        ),
        paint::written(
            "大小"@,
            Font::Label,
            Edges { left: c.size_x, top: y, right: content_right(t, f), bottom: b },
            ink,
            t,
        ),
    ]
}

/// Draws the head of a list.
fn draw_list_header<S: Scalar>(out: &mut Vec<Paint<S, String>>, t: &Theme<S>, f: &SceneFence<S>, c: &ListColumns<S>)
    ensures
        paint::marks(final(out)@) == paint::marks(old(out)@) + header_marks(*t, *f, *c),
{
    let ghost o = paint::marks(out@);
    let label_h = t.label.size.times(S::ratio(16, 10));
    let y = f.content_top.plus(c.header_h.minus(label_h).over(whole_number(2)));
    let b = y.plus(label_h);
    let gap = t.list_label_gap;
    let ink = t.label.color;
    let right = f.x.plus(f.width).minus(t.fence_padding);
    stroke(
        out,
        Paint::FillRounded {
            rect: Edges { left: f.content_left, top: f.content_top, right, bottom: f.content_top.plus(c.header_h) },
            radius: whole_number(6),
            color: percent(100, 100, 100, 5),
        },
    );
    draw_text(
        out,
        "名称",
        Font::Label,
        Edges { left: f.content_left, top: y, right: c.type_x.minus(gap), bottom: b },
        ink,
        t,
    );
    draw_text(
        out,
        "类型",
        Font::Label,
        Edges { left: c.type_x, top: y, right: c.modified_x.minus(gap), bottom: b },
        ink,
        t,
    );
    draw_text(
        out,
        "修改日期",
        Font::Label,
        Edges { left: c.modified_x, top: y, right: c.size_x.minus(gap), bottom: b },
        ink,
        t,
    );
    draw_text(out, "大小", Font::Label, Edges { left: c.size_x, top: y, right, bottom: b }, ink, t);
    proof {
        assert(paint::marks(out@) =~= o + header_marks(*t, *f, *c));
    }
}

/// What is lit up behind an icon: the icon, or its whole row in a list.
pub open spec fn backdrop<S: Scalar>(t: Theme<S>, f: SceneFence<S>, ic: SceneIcon<S>) -> Edges<S> {
    let four = scalar::num::<S>(4);
    if f.layout == FenceLayout::List {
        Edges {
            left: ic.x.sub(four),
            top: ic.y.sub(scalar::num(2)),
            right: content_right(t, f),
            bottom: ic.y.add(ic.size.max(t.label.size.mul(S::lit(16, 10))).add(t.list_row_gap)),
        }
    } else {
        Edges {
            left: ic.x.sub(four),
            top: ic.y.sub(four),
            right: ic.x.add(ic.size).add(four),
            bottom: ic.y.add(ic.size).add(four),
        }
    }
}

fn backdrop_of<S: Scalar>(t: &Theme<S>, f: &SceneFence<S>, ic: &SceneIcon<S>) -> (e: Edges<S>)
    ensures
        e == backdrop(*t, *f, *ic),
{
    let four = whole_number::<S>(4);
    if f.layout == FenceLayout::List {
        Edges {
            left: ic.x.minus(four),
            top: ic.y.minus(whole_number(2)),
            right: f.x.plus(f.width).minus(t.fence_padding),
            bottom: ic.y.plus(ic.size.greatest(t.label.size.times(S::ratio(16, 10))).plus(t.list_row_gap)),
        }
    } else {
        Edges {
            left: ic.x.minus(four),
            top: ic.y.minus(four),
            right: ic.x.plus(ic.size).plus(four),
            bottom: ic.y.plus(ic.size).plus(four),
        }
    }
}

/// A rounded rectangle filled and outlined.
pub open spec fn boxed<S: Scalar>(rect: Edges<S>, radius: S, fill: Color<S>, edge: Color<S>) -> Seq<Paint<S, Seq<char>>> {
    seq![
        Paint::FillRounded { rect, radius, color: fill },
        Paint::DrawRounded { rect, radius, color: edge, width: scalar::num(1) },
    ]
}

fn draw_box<S: Scalar>(out: &mut Vec<Paint<S, String>>, rect: Edges<S>, radius: S, fill: Color<S>, edge: Color<S>)
    ensures
        paint::marks(final(out)@) == paint::marks(old(out)@) + boxed(rect, radius, fill, edge),
{
    let ghost o = paint::marks(out@);
    stroke(out, Paint::FillRounded { rect, radius, color: fill });
    stroke(out, Paint::DrawRounded { rect, radius, color: edge, width: whole_number(1) });
    proof {
        assert(paint::marks(out@) =~= o + boxed(rect, radius, fill, edge));
    }
}

/// What is lit up behind the hovered icon.
pub open spec fn hover_marks<S: Scalar>(t: Theme<S>, f: SceneFence<S>) -> Seq<Paint<S, Seq<char>>> {
    match hovered(f) {
        Some(ic) => boxed(backdrop(t, f, ic), scalar::num(8), paint::white(12), paint::white(30)),
        None => none(),
    }
}

/// What is lit up behind the first `n` of the selected icons.
pub open spec fn selected_marks<S: Scalar>(t: Theme<S>, f: SceneFence<S>, n: int) -> Seq<Paint<S, Seq<char>>>
    decreases n,
{
    if n <= 0 {
        none()
    } else {
        let v = selected_marks(t, f, n - 1);
        let k = f.selected[n - 1];
        if k < f.icons.len() {
            v + boxed(
                backdrop(t, f, f.icons[k as int]),
                scalar::num(8),
                theme::color(26, 48, 79, 35),
                theme::color(26, 48, 79, 65),
            )
        } else {
            v
        }
    }
}

fn draw_selected<S: Scalar>(out: &mut Vec<Paint<S, String>>, t: &Theme<S>, f: &SceneFence<S>)
    ensures
        paint::marks(final(out)@) == paint::marks(old(out)@) + selected_marks(*t, *f, f.selected.len() as int),
{
    let ghost o = paint::marks(out@);
    let mut i: usize = 0;
    proof {
        assert(o =~= o + selected_marks(*t, *f, 0));
    }
    while i < f.selected.len()
        invariant
            i <= f.selected.len(),
            paint::marks(out@) == o + selected_marks(*t, *f, i as int),
        decreases f.selected.len() - i,
    {
        let k = f.selected[i];
        if k < f.icons.len() {
            let e = backdrop_of(t, f, &f.icons[k]);
            draw_box(out, e, whole_number(8), percent(26, 48, 79, 35), percent(26, 48, 79, 65));
            proof {
                assert(paint::marks(out@) =~= o + selected_marks(*t, *f, i + 1));
            }
        }
        i += 1;
    }
}

/// The picture of an icon, where there is one, with a glow behind it if it is hovered.
pub open spec fn bitmap_marks<S: Scalar>(f: SceneFence<S>, have: Seq<u64>, k: int) -> Seq<Paint<S, Seq<char>>> {
    let ic = f.icons[k];
    let g = grown(ic);
    let six = scalar::num::<S>(6);
    let dest = Edges {
        left: ic.x.sub(g),
        top: ic.y.sub(g),
        right: ic.x.add(ic.size).add(g),
        bottom: ic.y.add(ic.size).add(g),
    };
    if have.contains(ic.bitmap_id) {
        (if S::lit(5, 10).lt(g) && f.hover_icon == Some(k as usize) {
            one(
                Paint::FillRounded {
                    rect: Edges {
                        left: dest.left.sub(six),
                        top: dest.top.sub(six),
                        right: dest.right.add(six),
                        bottom: dest.bottom.add(six),
                    },
                    radius: scalar::num(10),
                    color: Color {
                        a: S::lit(10, 100).mul(g.div(scalar::num(2))).min(S::lit(25, 100)),
                        ..paint::white(100)
                    },
                },
            )
        } else {
            none()
        }) + one(
            Paint::Bitmap {
                id: ic.bitmap_id,
                rect: dest,
                opacity: ic.scale.sub(scalar::num(1)).mul(S::lit(5, 10)).add(scalar::num(1)).min(scalar::num(1)),
            },
        )
    } else {
        none()
    }
}

/// The texts of an icon: its label under it in a grid, its name and details in a list.
pub open spec fn caption_marks<S: Scalar>(t: Theme<S>, f: SceneFence<S>, k: int) -> Seq<Paint<S, Seq<char>>> {
    let ic = f.icons[k];
    let label_h = t.label.size.mul(S::lit(16, 10));
    let ink = t.label.color;
    if ic.label@.len() == 0 {
        none()
    } else {
        match f.layout {
            FenceLayout::Sidebar => none(),
            FenceLayout::Grid => one(
                paint::written(
                    ic.label@,
                    Font::Label,
                    Edges {
                        left: ic.x.sub(scalar::num(2)),
                        top: ic.y.add(ic.size).add(t.icon_caption_gap),
                        right: ic.x.add(ic.size).add(scalar::num(2)),
                        bottom: ic.y.add(ic.size).add(t.icon_caption_gap).add(label_h),
                    },
                    ink,
                    t,
                ),
            ),
            FenceLayout::List => {
                let y = ic.y.add(ic.size.sub(label_h).div(scalar::num(2)));
                let b = y.add(label_h);
                let left = ic.x.add(ic.size).add(t.list_label_gap);
                match f.list_cols {
                    Some(c) => seq![
                        paint::written(
                            ic.label@,
                            Font::Label,
                            Edges { left, top: y, right: c.type_x.sub(t.list_label_gap), bottom: b },
                            ink,
                            t,
                        ),
                        paint::written(
                            ic.col_type@,
                            Font::Label,
                            Edges { left: c.type_x, top: y, right: c.modified_x.sub(t.list_label_gap), bottom: b },
                            ink,
                            t,
                        ),
                        paint::written(
                            ic.col_modified@,
                            Font::Label,
                            Edges { left: c.modified_x, top: y, right: c.size_x.sub(t.list_label_gap), bottom: b },
                            ink,
                            t,
                        ),
                        paint::written(
                            ic.col_size@,
                            Font::Label,
                            Edges { left: c.size_x, top: y, right: content_right(t, f), bottom: b },
                            ink,
                            t,
                        ),
                    ],
                    None => one(
                        paint::written(
                            ic.label@,
                            Font::Label,
                            Edges { left, top: y, right: content_right(t, f), bottom: b },
                            ink,
                            t,
                        ),
                    ),
                }
            },
        }
    }
}

fn draw_bitmap<S: Scalar>(out: &mut Vec<Paint<S, String>>, f: &SceneFence<S>, store: &IconStore, k: usize)
    requires
        k < f.icons.len(),
    ensures
        paint::marks(final(out)@) == paint::marks(old(out)@) + bitmap_marks(*f, store.ids@, k as int),
{
    let ghost o = paint::marks(out@);
    let ic = &f.icons[k];
    let g = growth(ic);
    let six = whole_number::<S>(6);
    let dest = Edges {
        left: ic.x.minus(g),
        top: ic.y.minus(g),
        right: ic.x.plus(ic.size).plus(g),
        bottom: ic.y.plus(ic.size).plus(g),
    };
    if store.contains(ic.bitmap_id) {
        let lit = match f.hover_icon {
            Some(h) => h == k,
            None => false,
        };
        if S::ratio(5, 10).below(g) && lit {
            let a = S::ratio(10, 100).times(g.over(whole_number(2))).least(S::ratio(25, 100));
            stroke(
                out,
                Paint::FillRounded {
                    rect: Edges {
                        left: dest.left.minus(six),
                        top: dest.top.minus(six),
                        right: dest.right.plus(six),
                        bottom: dest.bottom.plus(six),
                    },
                    radius: whole_number(10),
                    color: Color { a, ..percent(100, 100, 100, 100) },
                },
            );
        }
        let opacity = ic.scale.minus(whole_number(1)).times(S::ratio(5, 10)).plus(whole_number(1)).least(
            whole_number(1),
        );
        stroke(out, Paint::Bitmap { id: ic.bitmap_id, rect: dest, opacity });
    }
    proof {
        assert(paint::marks(out@) =~= o + bitmap_marks(*f, store.ids@, k as int));
    }
}

fn draw_caption<S: Scalar>(out: &mut Vec<Paint<S, String>>, t: &Theme<S>, f: &SceneFence<S>, k: usize)
    requires
        k < f.icons.len(),
    ensures
        paint::marks(final(out)@) == paint::marks(old(out)@) + caption_marks(*t, *f, k as int),
{
    let ghost o = paint::marks(out@);
    let ic = &f.icons[k];
    let label_h = t.label.size.times(S::ratio(16, 10));
    let ink = t.label.color;
    if chars::chars_of(ic.label.as_str()).len() > 0 {
        match f.layout {
            FenceLayout::Sidebar => {},
            FenceLayout::Grid => {
                let top = ic.y.plus(ic.size).plus(t.icon_caption_gap);
                let e = Edges {
                    left: ic.x.minus(whole_number(2)),
                    top,
                    right: ic.x.plus(ic.size).plus(whole_number(2)),
                    bottom: top.plus(label_h),
                };
                draw_text(out, ic.label.as_str(), Font::Label, e, ink, t);
            },
            FenceLayout::List => {
                let y = ic.y.plus(ic.size.minus(label_h).over(whole_number(2)));
                let b = y.plus(label_h);
                let left = ic.x.plus(ic.size).plus(t.list_label_gap);
                let right = f.x.plus(f.width).minus(t.fence_padding);
                match &f.list_cols {
                    Some(c) => {
                        let gap = t.list_label_gap;
                        draw_text(
                            out,
                            ic.label.as_str(),
                            Font::Label,
                            Edges { left, top: y, right: c.type_x.minus(gap), bottom: b },
                            ink,
                            t,
                        );
                        draw_text(
                            out,
                            ic.col_type.as_str(),
                            Font::Label,
                            Edges { left: c.type_x, top: y, right: c.modified_x.minus(gap), bottom: b },
                            ink,
                            t,
                        );
                        draw_text(
                            out,
                            ic.col_modified.as_str(),
                            Font::Label,
                            Edges { left: c.modified_x, top: y, right: c.size_x.minus(gap), bottom: b },
                            ink,
                            t,
                        );
                        draw_text(
                            out,
                            ic.col_size.as_str(),
                            Font::Label,
                            Edges { left: c.size_x, top: y, right, bottom: b },
                            ink,
                            t,
                        );
                    },
                    None => {
                        draw_text(
                            out,
                            ic.label.as_str(),
                            Font::Label,
                            Edges { left, top: y, right, bottom: b },
                            ink,
                            t,
                        );
                    },
                }
            },
        }
    }
    proof {
        assert(paint::marks(out@) =~= o + caption_marks(*t, *f, k as int));
    }
}

/// The first `n` icons.
pub open spec fn icon_marks<S: Scalar>(t: Theme<S>, f: SceneFence<S>, have: Seq<u64>, n: int) -> Seq<Paint<S, Seq<char>>>
    decreases n,
{
    if n <= 0 {
        none()
    } else {
        icon_marks(t, f, have, n - 1) + bitmap_marks(f, have, n - 1) + caption_marks(t, f, n - 1)
    }
}

fn draw_icons<S: Scalar>(out: &mut Vec<Paint<S, String>>, t: &Theme<S>, f: &SceneFence<S>, store: &IconStore)
    ensures
        paint::marks(final(out)@) == paint::marks(old(out)@) + icon_marks(*t, *f, store.ids@, f.icons.len() as int),
{
    let ghost o = paint::marks(out@);
    let mut i: usize = 0;
    proof {
        assert(o =~= o + icon_marks(*t, *f, store.ids@, 0));
    }
    while i < f.icons.len()
        invariant
            i <= f.icons.len(),
            paint::marks(out@) == o + icon_marks(*t, *f, store.ids@, i as int),
        decreases f.icons.len() - i,
    {
        draw_bitmap(out, f, store, i);
        draw_caption(out, t, f, i);
        proof {
            assert(paint::marks(out@) =~= o + icon_marks(*t, *f, store.ids@, i + 1));
        }
        i += 1;
    }
}

/// The rubber band.
pub open spec fn band_marks<S: Scalar>(t: Theme<S>, f: SceneFence<S>) -> Seq<Paint<S, Seq<char>>> {
    match f.select_band {
        Some(b) => one(
            Paint::PushClip(
                Edges {
                    left: f.content_left,
                    top: row_top(f),
                    right: content_right(t, f),
                    bottom: row_top(f).add(f.scroll_view),
                },
            ),
        ) + boxed(b.sides(), scalar::num(2), theme::color(26, 48, 79, 16), theme::color(26, 48, 79, 72)) + one(
            Paint::PopClip,
        ),
        None => none(),
    }
}

/// How wide the label of an icon may be; 0 where it has none.
pub open spec fn label_room<S: Scalar>(t: Theme<S>, f: SceneFence<S>, ic: SceneIcon<S>) -> S {
    match f.layout {
        FenceLayout::Grid => ic.size.add(scalar::num(4)),
        FenceLayout::List => match f.list_cols {
            Some(c) => c.type_x.sub(t.list_label_gap).sub(ic.x.add(ic.size).add(t.list_label_gap)).max(
                scalar::num(0),
            ),
            None => scalar::num(0),
        },
        FenceLayout::Sidebar => scalar::num(0),
    }
}

/// How wide the label of an icon may be.
pub fn label_max_width<S: Scalar>(f: &SceneFence<S>, ic: &SceneIcon<S>, t: &Theme<S>) -> (r: S)
    ensures
        r == label_room(*t, *f, *ic),
{
    match f.layout {
        FenceLayout::Grid => ic.size.plus(whole_number(4)),
        FenceLayout::List => match &f.list_cols {
            Some(c) => c.type_x.minus(t.list_label_gap).minus(ic.x.plus(ic.size).plus(t.list_label_gap)).greatest(
                whole_number(0),
            ),
            None => whole_number(0),
        },
        FenceLayout::Sidebar => whole_number(0),
    }
}

/// The bubble with the full label of an icon: above it, or below where there is no room, and
/// within the fence.
pub open spec fn tooltip_marks<S: Scalar>(t: Theme<S>, f: SceneFence<S>, ic: SceneIcon<S>) -> Seq<Paint<S, Seq<char>>> {
    let s = t.scale;
    let font = t.label.size;
    let zero = scalar::num::<S>(0);
    let four = scalar::num::<S>(4);
    let two = scalar::num::<S>(2);
    let pad = scalar::num::<S>(7).mul(s);
    let w = text::width_of(ic.label@, font).add(pad.mul(two));
    let h = font.mul(S::lit(16, 10)).add(pad.mul(two));
    let gap = scalar::num::<S>(8).mul(s);
    let above = ic.y.sub(h).sub(gap);
    let y0 = if above.lt(f.y.add(four)) {
        ic.y.add(ic.size).add(gap)
    } else {
        above
    };
    let x = ic.x.add(ic.size.div(two)).sub(w.div(two)).max(f.x.add(four)).min(f.x.add(f.width).sub(w).sub(four));
    let y = y0.max(f.y.add(four)).min(f.y.add(f.height).sub(h).sub(four));
    if w.le(zero) || h.le(zero) {
        none()
    } else {
        bubble(t, RectF { x, y, w, h }, ic.label@)
    }
}

/// A dark bubble with a text.
pub open spec fn bubble<S: Scalar>(t: Theme<S>, r: RectF<S>, s: Seq<char>) -> Seq<Paint<S, Seq<char>>> {
    let pad = scalar::num::<S>(7).mul(t.scale);
    boxed(r.sides(), scalar::num::<S>(6).mul(t.scale), theme::color(10, 12, 16, 96), paint::white(35)) + one(
        paint::written(
            s,
            Font::Label,
            Edges {
                left: r.x.add(pad),
                top: r.y.add(pad),
                right: r.x.add(r.w).sub(pad),
                bottom: r.y.add(r.h).sub(pad),
            },
            t.label.color,
            t,
        ),
    )
}

fn draw_bubble<S: Scalar>(out: &mut Vec<Paint<S, String>>, t: &Theme<S>, r: &RectF<S>, s: &str)
    ensures
        paint::marks(final(out)@) == paint::marks(old(out)@) + bubble(*t, *r, s@),
{
    let ghost o = paint::marks(out@);
    let pad = whole_number::<S>(7).times(t.scale);
    draw_box(
        out,
        r.edges(),
        whole_number::<S>(6).times(t.scale),
        percent(10, 12, 16, 96),
        percent(100, 100, 100, 35),
    );
    let e = Edges {
        left: r.x.plus(pad),
        top: r.y.plus(pad),
        right: r.x.plus(r.w).minus(pad),
        bottom: r.y.plus(r.h).minus(pad),
    };
    draw_text(out, s, Font::Label, e, t.label.color, t);
    proof {
        assert(paint::marks(out@) =~= o + bubble(*t, *r, s@));
    }
}

/// Draws the bubble with the full label of an icon.
fn draw_tooltip<S: Scalar>(out: &mut Vec<Paint<S, String>>, t: &Theme<S>, f: &SceneFence<S>, ic: &SceneIcon<S>)
    ensures
        paint::marks(final(out)@) == paint::marks(old(out)@) + tooltip_marks(*t, *f, *ic),
{
    let s = t.scale;
    let font = t.label.size;
    let four = whole_number::<S>(4);
    let two = whole_number::<S>(2);
    let pad = whole_number::<S>(7).times(s);
    let w = estimate_width(ic.label.as_str(), font).plus(pad.times(two));
    let h = font.times(S::ratio(16, 10)).plus(pad.times(two));
    if w.at_most(whole_number(0)) || h.at_most(whole_number(0)) {
        proof {
            assert(paint::marks(out@) =~= paint::marks(old(out)@) + none());
        }
        return;
    }
    let gap = whole_number::<S>(8).times(s);
    let above = ic.y.minus(h).minus(gap);
    let y0 = if above.below(f.y.plus(four)) {
        ic.y.plus(ic.size).plus(gap)
    } else {
        above
    };
    let x = ic.x.plus(ic.size.over(two)).minus(w.over(two)).greatest(f.x.plus(four)).least(
        f.x.plus(f.width).minus(w).minus(four),
    );
    let y = y0.greatest(f.y.plus(four)).least(f.y.plus(f.height).minus(h).minus(four));
    draw_bubble(out, t, &RectF { x, y, w, h }, ic.label.as_str());
}

/// The bubbles of the hovered icon: its full label where that is cut off, and beside a
/// sidebar.
pub open spec fn hint_marks<S: Scalar>(t: Theme<S>, f: SceneFence<S>) -> Seq<Paint<S, Seq<char>>> {
    match hovered(f) {
        Some(ic) => {
            let room = label_room(t, f, ic);
            (if ic.label@.len() > 0 && scalar::num::<S>(0).lt(room) && !text::width_of(
                ic.label@,
                t.label.size,
            ).le(room) {
                tooltip_marks(t, f, ic)
            } else {
                none()
            }) + (if f.layout == FenceLayout::Sidebar && ic.label@.len() > 0 && f.tooltip_rect is Some {
                bubble(t, f.tooltip_rect->0, ic.label@)
            } else {
                none()
            })
        },
        None => none(),
    }
}

fn draw_hints<S: Scalar>(out: &mut Vec<Paint<S, String>>, t: &Theme<S>, f: &SceneFence<S>)
    ensures
        paint::marks(final(out)@) == paint::marks(old(out)@) + hint_marks(*t, *f),
{
    let ghost o = paint::marks(out@);
    if let Some(k) = f.hover_icon {
        if k < f.icons.len() {
            let ic = &f.icons[k];
            if chars::chars_of(ic.label.as_str()).len() > 0 {
                let room = label_max_width(f, ic, t);
                if whole_number::<S>(0).below(room) && !text_fits(ic.label.as_str(), room, t.label.size) {
                    draw_tooltip(out, t, f, ic);
                }
                if f.layout == FenceLayout::Sidebar {
                    if let Some(r) = &f.tooltip_rect {
                        draw_bubble(out, t, r, ic.label.as_str());
                    }
                }
            }
        }
    }
    proof {
        assert(paint::marks(out@) =~= o + hint_marks(*t, *f));
    }
}

/// The bar that shows how far a fence is scrolled.
pub open spec fn scrollbar<S: Scalar>(t: Theme<S>, f: SceneFence<S>) -> Paint<S, Seq<char>> {
    let zero = scalar::num::<S>(0);
    let track = f.scroll_view;
    let thumb = if f.layout == FenceLayout::Sidebar {
        scalar::clamped(track.mul(S::lit(2, 10)), scalar::num(24), scalar::num(64)).min(track)
    } else {
        track.mul(track).div(track.add(f.scroll_max)).max(scalar::num(24)).min(track)
    };
    let room = track.sub(thumb).max(zero);
    let off = if zero.lt(f.scroll_max) {
        f.scroll.div(f.scroll_max).mul(room)
    } else {
        zero
    };
    Paint::FillRounded {
        rect: Edges {
            left: content_right(t, f).sub(scalar::num(5)),
            top: row_top(f).add(off),
            right: content_right(t, f).sub(scalar::num(1)),
            bottom: row_top(f).add(off).add(thumb),
        },
        radius: scalar::num(2),
        color: paint::white(22),
    }
}

fn draw_scrollbar<S: Scalar>(out: &mut Vec<Paint<S, String>>, t: &Theme<S>, f: &SceneFence<S>, top: S)
    requires
        top == row_top(*f),
    ensures
        paint::marks(final(out)@) == paint::marks(old(out)@).push(scrollbar(*t, *f)),
{
    let zero = whole_number::<S>(0);
    let track = f.scroll_view;
    let thumb = if f.layout == FenceLayout::Sidebar {
        clamp(track.times(S::ratio(2, 10)), whole_number(24), whole_number(64)).least(track)
    } else {
        track.times(track).over(track.plus(f.scroll_max)).greatest(whole_number(24)).least(track)
    };
    let room = track.minus(thumb).greatest(zero);
    let off = if zero.below(f.scroll_max) {
        f.scroll.over(f.scroll_max).times(room)
    } else {
        zero
    };
    let right = f.x.plus(f.width).minus(t.fence_padding);
    stroke(
        out,
        Paint::FillRounded {
            rect: Edges {
                left: right.minus(whole_number(5)),
                top: top.plus(off),
                right: right.minus(whole_number(1)),
                bottom: top.plus(off).plus(thumb),
            },
            radius: whole_number(2),
            color: percent(100, 100, 100, 22),
        },
    );
}

/// The ground, the outline, the title and the head of a fence.
pub open spec fn frame_marks<S: Scalar>(t: Theme<S>, f: SceneFence<S>) -> Seq<Paint<S, Seq<char>>> {
    let rect = f.area().sides();
    let radius = t.fence_corner_radius;
    (match f.fill_color {
        Some(c) => one(Paint::FillRounded { rect, radius, color: color_of(c) }),
        None => none(),
    }) + (if scalar::num::<S>(0).lt(f.border_width) {
        one(Paint::DrawRounded { rect, radius, color: color_of(f.border_color), width: f.border_width })
    } else {
        none()
    }) + (if f.title@.len() > 0 {
        one(
            paint::centered(
                f.title@,
                Font::Title,
                Edges {
                    left: f.x.add(t.fence_padding),
                    top: f.y.add(t.fence_padding),
                    right: content_right(t, f),
                    bottom: f.y.add(t.fence_padding).add(t.title.size.mul(S::lit(16, 10))),
                },
                t.title.color,
                t,
            ),
        )
    } else {
        none()
    }) + (match f.list_cols {
        Some(c) => header_marks(t, f, c),
        None => none(),
    })
}

fn draw_frame<S: Scalar>(out: &mut Vec<Paint<S, String>>, t: &Theme<S>, f: &SceneFence<S>)
    ensures
        paint::marks(final(out)@) == paint::marks(old(out)@) + frame_marks(*t, *f),
{
    let ghost o = paint::marks(out@);
    let rect = RectF { x: f.x, y: f.y, w: f.width, h: f.height }.edges();
    let radius = t.fence_corner_radius;
    if let Some(c) = &f.fill_color {
        stroke(out, Paint::FillRounded { rect, radius, color: to_color(c) });
    }
    if whole_number::<S>(0).below(f.border_width) {
        stroke(
            out,
            Paint::DrawRounded { rect, radius, color: to_color(&f.border_color), width: f.border_width },
        );
    }
    if chars::chars_of(f.title.as_str()).len() > 0 {
        let e = Edges {
            left: f.x.plus(t.fence_padding),
            top: f.y.plus(t.fence_padding),
            right: f.x.plus(f.width).minus(t.fence_padding),
            bottom: f.y.plus(t.fence_padding).plus(t.title.size.times(S::ratio(16, 10))),
        };
        draw_text_centered(out, f.title.as_str(), Font::Title, e, t.title.color, t);
    }
    if let Some(c) = &f.list_cols {
        draw_list_header(out, t, f, c);
    }
    proof {
        assert(paint::marks(out@) =~= o + frame_marks(*t, *f));
    }
}

/// The place that icons are drawn in; an enlarged icon may stand out of it.
pub open spec fn icon_clip<S: Scalar>(t: Theme<S>, f: SceneFence<S>) -> Edges<S> {
    let g = match hovered(f) {
        Some(ic) => grown(ic),
        None => scalar::num(0),
    };
    Edges {
        left: f.content_left.sub(g),
        top: row_top(f).sub(g),
        right: content_right(t, f).add(g),
        bottom: row_top(f).add(f.scroll_view).add(g),
    }
}

/// A fence, from its ground to its scroll bar; `have` are the pictures there are.
pub open spec fn inner_marks<S: Scalar>(t: Theme<S>, f: SceneFence<S>, have: Seq<u64>) -> Seq<Paint<S, Seq<char>>> {
    frame_marks(t, f) + one(Paint::PushClip(icon_clip(t, f))) + hover_marks(t, f) + selected_marks(
        t,
        f,
        f.selected.len() as int,
    ) + icon_marks(t, f, have, f.icons.len() as int) + one(Paint::PopClip) + band_marks(t, f) + hint_marks(t, f)
        + (if scalar::num::<S>(0).lt(f.scroll_max) {
        one(scrollbar(t, f))
    } else {
        none()
    })
}

fn draw_hover<S: Scalar>(out: &mut Vec<Paint<S, String>>, t: &Theme<S>, f: &SceneFence<S>)
    ensures
        paint::marks(final(out)@) == paint::marks(old(out)@) + hover_marks(*t, *f),
{
    let ghost o = paint::marks(out@);
    if let Some(k) = f.hover_icon {
        if k < f.icons.len() {
            let e = backdrop_of(t, f, &f.icons[k]);
            draw_box(out, e, whole_number(8), percent(100, 100, 100, 12), percent(100, 100, 100, 30));
            return;
        }
    }
    proof {
        assert(paint::marks(out@) =~= o + none());
    }
}

fn draw_band<S: Scalar>(out: &mut Vec<Paint<S, String>>, t: &Theme<S>, f: &SceneFence<S>, top: S)
    requires
        top == row_top(*f),
    ensures
        paint::marks(final(out)@) == paint::marks(old(out)@) + band_marks(*t, *f),
{
    let ghost o = paint::marks(out@);
    if let Some(b) = &f.select_band {
        let right = f.x.plus(f.width).minus(t.fence_padding);
        stroke(
            out,
            Paint::PushClip(Edges { left: f.content_left, top, right, bottom: top.plus(f.scroll_view) }),
        );
        draw_box(out, b.edges(), whole_number(2), percent(26, 48, 79, 16), percent(26, 48, 79, 72));
        stroke(out, Paint::PopClip);
    }
    proof {
        assert(paint::marks(out@) =~= o + band_marks(*t, *f));
    }
}

fn clip_icons<S: Scalar>(out: &mut Vec<Paint<S, String>>, t: &Theme<S>, f: &SceneFence<S>, top: S)
    requires
        top == row_top(*f),
    ensures
        paint::marks(final(out)@) == paint::marks(old(out)@).push(Paint::PushClip(icon_clip(*t, *f))),
{
    let right = f.x.plus(f.width).minus(t.fence_padding);
    let g = match f.hover_icon {
        Some(k) => if k < f.icons.len() {
            growth(&f.icons[k])
        } else {
            whole_number(0)
        },
        None => whole_number(0),
    };
    stroke(
        out,
        Paint::PushClip(
            Edges {
                left: f.content_left.minus(g),
                top: top.minus(g),
                right: right.plus(g),
                bottom: top.plus(f.scroll_view).plus(g),
            },
        ),
    );
}

fn draw_fence_inner<S: Scalar>(out: &mut Vec<Paint<S, String>>, t: &Theme<S>, f: &SceneFence<S>, store: &IconStore)
    ensures
        paint::marks(final(out)@) == paint::marks(old(out)@) + inner_marks(*t, *f, store.ids@),
{
    let ghost o = paint::marks(out@);
    let ghost clip = Paint::<S, Seq<char>>::PushClip(icon_clip(*t, *f));
    let ghost pop = Paint::<S, Seq<char>>::PopClip;
    let top = match &f.list_cols {
        Some(c) => f.content_top.plus(c.header_h),
        None => f.content_top,
    };
    draw_frame(out, t, f);
    clip_icons(out, t, f, top);
    let ghost m2 = frame_marks(*t, *f) + one(clip);
    proof {
        paint::lemma_strokes(o, frame_marks(*t, *f), none(), clip);
        assert(paint::marks(out@) == o + m2);
    }
    draw_hover(out, t, f);
    let ghost m3 = m2 + hover_marks(*t, *f);
    proof {
        paint::lemma_strokes(o, m2, hover_marks(*t, *f), pop);
        assert(paint::marks(out@) == o + m3);
    }
    draw_selected(out, t, f);
    let ghost sel = selected_marks(*t, *f, f.selected.len() as int);
    let ghost m4 = m3 + sel;
    proof {
        paint::lemma_strokes(o, m3, sel, pop);
        assert(paint::marks(out@) == o + m4);
    }
    draw_icons(out, t, f, store);
    let ghost ics = icon_marks(*t, *f, store.ids@, f.icons.len() as int);
    let ghost m5 = m4 + ics;
    proof {
        paint::lemma_strokes(o, m4, ics, pop);
        assert(paint::marks(out@) == o + m5);
    }
    stroke(out, Paint::PopClip);
    let ghost m6 = m5 + one(pop);
    proof {
        paint::lemma_strokes(o, m5, none(), pop);
        assert(paint::marks(out@) == o + m6);
    }
    draw_band(out, t, f, top);
    let ghost m7 = m6 + band_marks(*t, *f);
    proof {
        paint::lemma_strokes(o, m6, band_marks(*t, *f), pop);
        assert(paint::marks(out@) == o + m7);
    }
    draw_hints(out, t, f);
    let ghost m8 = m7 + hint_marks(*t, *f);
    proof {
        paint::lemma_strokes(o, m7, hint_marks(*t, *f), scrollbar(*t, *f));
        paint::lemma_strokes(o, m8, none(), scrollbar(*t, *f));
        paint::lemma_strokes(m8, none(), none(), pop);
        assert(paint::marks(out@) == o + m8);
    }
    if whole_number::<S>(0).below(f.scroll_max) {
        draw_scrollbar(out, t, f, top);
    }
}

/// A fence; one that is not fully opaque is drawn as one picture.
pub open spec fn fence_marks<S: Scalar>(t: Theme<S>, f: SceneFence<S>, have: Seq<u64>) -> Seq<Paint<S, Seq<char>>> {
    if S::lit(999, 1000).le(f.alpha) {
        inner_marks(t, f, have)
    } else {
        one(
            Paint::PushLayer(f.area().sides(), scalar::clamped(f.alpha, scalar::num(0), scalar::num(1))),
        ) + inner_marks(t, f, have) + one(Paint::PopLayer)
    }
}

/// Draws a fence.
pub fn draw_fence<S: Scalar>(out: &mut Vec<Paint<S, String>>, t: &Theme<S>, f: &SceneFence<S>, store: &IconStore)
    ensures
        paint::marks(final(out)@) == paint::marks(old(out)@) + fence_marks(*t, *f, store.ids@),
{
    if S::ratio(999, 1000).at_most(f.alpha) {
        draw_fence_inner(out, t, f, store);
        return;
    }
    let ghost o = paint::marks(out@);
    let rect = RectF { x: f.x, y: f.y, w: f.width, h: f.height }.edges();
    stroke(out, Paint::PushLayer(rect, clamp(f.alpha, whole_number(0), whole_number(1))));
    draw_fence_inner(out, t, f, store);
    stroke(out, Paint::PopLayer);
    proof {
        assert(paint::marks(out@) =~= o + fence_marks(*t, *f, store.ids@));
    }
}

proof fn lemma_among<S>(a: Seq<Paint<S, Seq<char>>>, b: Seq<Paint<S, Seq<char>>>, p: Paint<S, Seq<char>>)
    requires
        a.contains(p) || b.contains(p),
    ensures
        (a + b).contains(p),
{
    if a.contains(p) {
        let i = choose|i: int| 0 <= i < a.len() && a[i] == p;
        assert((a + b)[i] == p);
    } else {
        let i = choose|i: int| 0 <= i < b.len() && b[i] == p;
        assert((a + b)[a.len() + i] == p);
    }
}

/// What is drawn of one icon is drawn in the fence.
proof fn lemma_icon_drawn<S: Scalar>(
    t: Theme<S>,
    f: SceneFence<S>,
    have: Seq<u64>,
    k: int,
    n: int,
    p: Paint<S, Seq<char>>,
)
    requires
        0 <= k < n,
        bitmap_marks(f, have, k).contains(p) || caption_marks(t, f, k).contains(p),
    ensures
        icon_marks(t, f, have, n).contains(p),
    decreases n,
{
    let a = icon_marks(t, f, have, n - 1);
    if k < n - 1 {
        lemma_icon_drawn(t, f, have, k, n - 1, p);
    }
    if k < n - 1 || bitmap_marks(f, have, k).contains(p) {
        lemma_among(a, bitmap_marks(f, have, n - 1), p);
    }
    lemma_among(a + bitmap_marks(f, have, n - 1), caption_marks(t, f, n - 1), p);
}

/// What is drawn in a part of a fence is drawn in the fence.
proof fn lemma_part_drawn<S: Scalar>(t: Theme<S>, f: SceneFence<S>, have: Seq<u64>, p: Paint<S, Seq<char>>)
    requires
        frame_marks(t, f).contains(p) || hover_marks(t, f).contains(p) || selected_marks(
            t,
            f,
            f.selected.len() as int,
        ).contains(p) || icon_marks(t, f, have, f.icons.len() as int).contains(p) || band_marks(t, f).contains(p),
    ensures
        inner_marks(t, f, have).contains(p),
        fence_marks(t, f, have).contains(p),
{
    let m1 = frame_marks(t, f);
    let clip = one(Paint::PushClip(icon_clip(t, f)));
    let m2 = hover_marks(t, f);
    let m3 = selected_marks(t, f, f.selected.len() as int);
    let m4 = icon_marks(t, f, have, f.icons.len() as int);
    let pop = one(Paint::<S, Seq<char>>::PopClip);
    let m5 = band_marks(t, f);
    let m6 = hint_marks(t, f);
    let m7 = if scalar::num::<S>(0).lt(f.scroll_max) {
        one(scrollbar(t, f))
    } else {
        none()
    };
    if m1.contains(p) {
        lemma_among(m1, clip, p);
    }
    if m1.contains(p) || m2.contains(p) {
        lemma_among(m1 + clip, m2, p);
    }
    if m1.contains(p) || m2.contains(p) || m3.contains(p) {
        lemma_among(m1 + clip + m2, m3, p);
    }
    if m1.contains(p) || m2.contains(p) || m3.contains(p) || m4.contains(p) {
        lemma_among(m1 + clip + m2 + m3, m4, p);
        lemma_among(m1 + clip + m2 + m3 + m4, pop, p);
    }
    lemma_among(m1 + clip + m2 + m3 + m4 + pop, m5, p);
    lemma_among(m1 + clip + m2 + m3 + m4 + pop + m5, m6, p);
    lemma_among(m1 + clip + m2 + m3 + m4 + pop + m5 + m6, m7, p);
    let inner = inner_marks(t, f, have);
    let push = one(
        Paint::<S, Seq<char>>::PushLayer(
            f.area().sides(),
            scalar::clamped(f.alpha, scalar::num(0), scalar::num(1)),
        ),
    );
    lemma_among(push, inner, p);
    lemma_among(push + inner, one(Paint::PopLayer), p);
}

/// Measures of an icon that leave room for sums.
pub open spec fn moderate_icon(ic: SceneIcon<i64>) -> bool {
    &&& -0x1000_0000 <= ic.x <= 0x1000_0000
    &&& -0x1000_0000 <= ic.y <= 0x1000_0000
    &&& 0 <= ic.size <= 0x1000_0000
}

/// `e` is the square that the icon is laid out in.
pub open spec fn covers_exactly(e: Edges<i64>, ic: SceneIcon<i64>) -> bool {
    e.left == ic.x && e.top == ic.y && e.right == ic.x + ic.size && e.bottom == ic.y + ic.size
}

/// `e` holds the square that the icon is laid out in.
pub open spec fn surrounds(e: Edges<i64>, ic: SceneIcon<i64>) -> bool {
    e.left <= ic.x && e.top <= ic.y && ic.x + ic.size <= e.right && ic.y + ic.size <= e.bottom
}

/// Every icon whose picture is there is drawn by that picture, in the square that it is laid
/// out in while it has its usual size.
pub proof fn law_icon_is_drawn_in_its_place(t: Theme<i64>, f: SceneFence<i64>, have: Seq<u64>, k: int)
    requires
        0 <= k < f.icons.len(),
        moderate_icon(f.icons[k]),
        f.icons[k].scale == 1,
        have.contains(f.icons[k].bitmap_id),
    ensures
        exists|p: Paint<i64, Seq<char>>|
            {
                &&& #[trigger] fence_marks(t, f, have).contains(p)
                &&& p matches Paint::Bitmap { id, rect, opacity }
                &&& id == f.icons[k].bitmap_id
                &&& covers_exactly(rect, f.icons[k])
                &&& opacity == 1
            },
{
    assert(scalar::num::<i64>(1) == 1);
    assert(scalar::num::<i64>(0) == 0);
    assert(<i64 as Scalar>::lit(5, 10) == 0);
    let ic = f.icons[k];
    assert(ic.size * 0 == 0);
    assert(grown(ic) == 0);
    let m = bitmap_marks(f, have, k);
    let p = m.last();
    assert(m[m.len() - 1] == p);
    lemma_icon_drawn(t, f, have, k, f.icons.len() as int, p);
    lemma_part_drawn(t, f, have, p);
}

/// In a grid the label of an icon stands below it, over its whole width.
pub proof fn law_label_stands_below(t: Theme<i64>, f: SceneFence<i64>, have: Seq<u64>, k: int)
    requires
        0 <= k < f.icons.len(),
        moderate_icon(f.icons[k]),
        f.layout == FenceLayout::Grid,
        f.icons[k].label@.len() > 0,
        0 <= t.icon_caption_gap <= 0x1000_0000,
        0 <= t.label.size <= 0x1000_0000,
    ensures
        exists|p: Paint<i64, Seq<char>>|
            {
                &&& #[trigger] fence_marks(t, f, have).contains(p)
                &&& p matches Paint::Text { text, font, rect, color }
                &&& text == paint::fitted(f.icons[k].label@, (rect.right - rect.left) as i64, t.label.size)
                &&& rect.top == f.icons[k].y + f.icons[k].size + t.icon_caption_gap
                &&& rect.top <= rect.bottom
                &&& rect.left <= f.icons[k].x
                &&& f.icons[k].x + f.icons[k].size <= rect.right
                &&& f.icons[k].x - rect.left == rect.right - (f.icons[k].x + f.icons[k].size)
            },
{
    assert(scalar::num::<i64>(2) == 2);
    assert(scalar::num::<i64>(0) == 0);
    assert(<i64 as Scalar>::lit(16, 10) == 1);
    assert(t.label.size * 1 == t.label.size);
    let m = caption_marks(t, f, k);
    let p = m[0];
    assert(m.contains(p));
    lemma_icon_drawn(t, f, have, k, f.icons.len() as int, p);
    lemma_part_drawn(t, f, have, p);
}

/// `p` is the text `s` from `left` to no further than `right`.
pub open spec fn stands_between<S: Scalar>(p: Paint<S, Seq<char>>, s: Seq<char>, left: S, right: S, t: Theme<S>) -> bool {
    p matches Paint::Text { text, font, rect, color } && rect.left == left && rect.right == right && text
        == paint::fitted(s, right.sub(left).max(scalar::num(0)), t.label.size)
}

/// Among the strokes is the text `s` from `left` to no further than `right`.
pub open spec fn reads<S: Scalar>(m: Seq<Paint<S, Seq<char>>>, s: Seq<char>, left: S, right: S, t: Theme<S>) -> bool {
    exists|p: Paint<S, Seq<char>>| #[trigger] m.contains(p) && stands_between(p, s, left, right, t)
}

/// The names of the columns are written in the head of a list.
proof fn lemma_head_reads<S: Scalar>(t: Theme<S>, f: SceneFence<S>, have: Seq<u64>, c: ListColumns<S>, i: int)
    requires
        f.list_cols == Some(c),
        0 <= i < 5,
    ensures
        fence_marks(t, f, have).contains(header_marks(t, f, c)[i]),
{
    let h = header_marks(t, f, c);
    let fm = frame_marks(t, f);
    assert(fm[fm.len() - 5 + i] == h[i]);
    assert(fm.contains(h[i]));
    lemma_part_drawn(t, f, have, h[i]);
}

/// The labels and details of an icon are written in the fence.
proof fn lemma_caption_reads<S: Scalar>(t: Theme<S>, f: SceneFence<S>, have: Seq<u64>, k: int, i: int)
    requires
        0 <= k < f.icons.len(),
        0 <= i < caption_marks(t, f, k).len(),
    ensures
        fence_marks(t, f, have).contains(caption_marks(t, f, k)[i]),
{
    let m = caption_marks(t, f, k);
    assert(m.contains(m[i]));
    lemma_icon_drawn(t, f, have, k, f.icons.len() as int, m[i]);
    lemma_part_drawn(t, f, have, m[i]);
}

/// In a list, what an icon shows in a column begins where the name of the column does, and
/// ends before the next column begins.
pub proof fn law_columns_stand_under_their_names<S: Scalar>(
    t: Theme<S>,
    f: SceneFence<S>,
    have: Seq<u64>,
    c: ListColumns<S>,
    k: int,
)
    requires
        0 <= k < f.icons.len(),
        f.layout == FenceLayout::List,
        f.list_cols == Some(c),
        f.icons[k].label@.len() > 0,
    ensures
        ({
            let m = fence_marks(t, f, have);
            let ic = f.icons[k];
            let end = f.x.add(f.width).sub(t.fence_padding);
            let gap = t.list_label_gap;
            &&& reads(m, "名称"@, f.content_left, c.type_x.sub(gap), t)
            &&& reads(m, ic.label@, ic.x.add(ic.size).add(gap), c.type_x.sub(gap), t)
            &&& reads(m, "类型"@, c.type_x, c.modified_x.sub(gap), t)
            &&& reads(m, ic.col_type@, c.type_x, c.modified_x.sub(gap), t)
            &&& reads(m, "修改日期"@, c.modified_x, c.size_x.sub(gap), t)
            &&& reads(m, ic.col_modified@, c.modified_x, c.size_x.sub(gap), t)
            &&& reads(m, "大小"@, c.size_x, end, t)
            &&& reads(m, ic.col_size@, c.size_x, end, t)
        }),
{
    let d = fence_marks(t, f, have);
    let h = header_marks(t, f, c);
    let m = caption_marks(t, f, k);
    let gap = t.list_label_gap;
    let ic = f.icons[k];
    let end = f.x.add(f.width).sub(t.fence_padding);
    assert(reads(d, "名称"@, f.content_left, c.type_x.sub(gap), t)) by {
        lemma_head_reads(t, f, have, c, 1);
        assert(stands_between(h[1], "名称"@, f.content_left, c.type_x.sub(gap), t));
    }
    assert(reads(d, "类型"@, c.type_x, c.modified_x.sub(gap), t)) by {
        lemma_head_reads(t, f, have, c, 2);
        assert(stands_between(h[2], "类型"@, c.type_x, c.modified_x.sub(gap), t));
    }
    assert(reads(d, "修改日期"@, c.modified_x, c.size_x.sub(gap), t)) by {
        lemma_head_reads(t, f, have, c, 3);
        assert(stands_between(h[3], "修改日期"@, c.modified_x, c.size_x.sub(gap), t));
    }
    assert(reads(d, "大小"@, c.size_x, end, t)) by {
        lemma_head_reads(t, f, have, c, 4);
        assert(stands_between(h[4], "大小"@, c.size_x, end, t));
    }
    assert(reads(d, ic.label@, ic.x.add(ic.size).add(gap), c.type_x.sub(gap), t)) by {
        lemma_caption_reads(t, f, have, k, 0);
        assert(stands_between(m[0], ic.label@, ic.x.add(ic.size).add(gap), c.type_x.sub(gap), t));
    }
    assert(reads(d, ic.col_type@, c.type_x, c.modified_x.sub(gap), t)) by {
        lemma_caption_reads(t, f, have, k, 1);
        assert(stands_between(m[1], ic.col_type@, c.type_x, c.modified_x.sub(gap), t));
    }
    assert(reads(d, ic.col_modified@, c.modified_x, c.size_x.sub(gap), t)) by {
        lemma_caption_reads(t, f, have, k, 2);
        assert(stands_between(m[2], ic.col_modified@, c.modified_x, c.size_x.sub(gap), t));
    }
    assert(reads(d, ic.col_size@, c.size_x, end, t)) by {
        lemma_caption_reads(t, f, have, k, 3);
        assert(stands_between(m[3], ic.col_size@, c.size_x, end, t));
    }
}

/// The place that a stroke fills, if it fills one.
pub open spec fn filled<S>(p: Paint<S, Seq<char>>) -> Option<Edges<S>> {
    match p {
        Paint::FillRounded { rect, .. } => Some(rect),
        _ => None,
    }
}

proof fn lemma_selected_drawn<S: Scalar>(t: Theme<S>, f: SceneFence<S>, j: int, n: int)
    requires
        0 <= j < n,
        f.selected[j] < f.icons.len(),
    ensures
        exists|p: Paint<S, Seq<char>>| #[trigger]
            selected_marks(t, f, n).contains(p) && filled(p) == Some(backdrop(t, f, f.icons[f.selected[j] as int])),
    decreases n,
{
    let v = selected_marks(t, f, n - 1);
    let w = selected_marks(t, f, n);
    if j < n - 1 {
        lemma_selected_drawn(t, f, j, n - 1);
        let p = choose|p: Paint<S, Seq<char>>| #[trigger]
            v.contains(p) && filled(p) == Some(backdrop(t, f, f.icons[f.selected[j] as int]));
        let i = choose|i: int| 0 <= i < v.len() && v[i] == p;
        assert(w[i] == p);
        assert(w.contains(p));
    } else {
        let p = w[v.len() as int];
        assert(w.contains(p));
    }
}

/// A selected icon is seen to be selected, and the one under the pointer to be under it: what
/// is lit up behind an icon holds all of it.
pub proof fn law_selected_icons_are_lit(t: Theme<i64>, f: SceneFence<i64>, have: Seq<u64>, k: usize)
    requires
        k < f.icons.len(),
        f.selected@.contains(k) || f.hover_icon == Some(k),
        moderate_icon(f.icons[k as int]),
        f.layout != FenceLayout::List,
    ensures
        exists|p: Paint<i64, Seq<char>>| #[trigger]
            fence_marks(t, f, have).contains(p) && filled(p) is Some && surrounds(filled(p)->0, f.icons[k as int]),
{
    assert(scalar::num::<i64>(4) == 4);
    let ic = f.icons[k as int];
    let n = f.selected.len() as int;
    let p = if f.hover_icon == Some(k) {
        let p = hover_marks(t, f)[0];
        assert(hover_marks(t, f).contains(p));
        p
    } else {
        let j = choose|j: int| 0 <= j < f.selected@.len() && f.selected@[j] == k;
        lemma_selected_drawn(t, f, j, n);
        choose|p: Paint<i64, Seq<char>>| #[trigger]
            selected_marks(t, f, n).contains(p) && filled(p) == Some(backdrop(t, f, ic))
    };
    lemma_part_drawn(t, f, have, p);
}

/// The bar shows what part of the content is seen: it stays beside the rows, at their top
/// while nothing is scrolled and at their end when all is.
pub proof fn law_scrollbar_stays_in_track(t: Theme<i64>, f: SceneFence<i64>)
    requires
        0 < f.scroll_max <= 0x1000_0000,
        0 <= f.scroll <= f.scroll_max,
        0 <= f.scroll_view <= 0x1000_0000,
        -0x1000_0000 <= row_top(f) <= 0x1000_0000,
    ensures
        ({
            let top = row_top(f);
            &&& scrollbar(t, f) matches Paint::FillRounded { rect, radius, color }
            &&& top <= rect.top
            &&& rect.top <= rect.bottom
            &&& rect.bottom <= top + f.scroll_view
            &&& f.scroll == 0 ==> rect.top == top
            &&& f.scroll == f.scroll_max ==> rect.bottom == top + f.scroll_view
        }),
{
    assert(scalar::num::<i64>(0) == 0);
    assert(scalar::num::<i64>(24) == 24);
    assert(scalar::num::<i64>(64) == 64);
    assert(<i64 as Scalar>::lit(2, 10) == 0);
    let track = f.scroll_view;
    let thumb = if f.layout == FenceLayout::Sidebar {
        Scalar::min(scalar::clamped(track.mul(<i64 as Scalar>::lit(2, 10)), scalar::num(24), scalar::num(64)), track)
    } else {
        Scalar::min(Scalar::max(track.mul(track).div(track.add(f.scroll_max)), scalar::num(24)), track)
    };
    assert(track * 0 == 0) by (nonlinear_arith);
    assert(0 <= thumb <= track);
    let room = (track - thumb) as i64;
    let part = f.scroll.div(f.scroll_max);
    assert(part == 0 || part == 1) by {
        assert(0 <= f.scroll as int / (f.scroll_max as int) <= 1) by (nonlinear_arith)
            requires
                0 < f.scroll_max,
                0 <= f.scroll <= f.scroll_max,
        ;
    }
    if f.scroll == f.scroll_max {
        assert(f.scroll as int / (f.scroll_max as int) == 1) by (nonlinear_arith)
            requires
                0 < f.scroll_max,
                f.scroll == f.scroll_max,
        ;
    }
    if f.scroll == 0 {
        assert(0int / (f.scroll_max as int) == 0) by (nonlinear_arith)
            requires
                0 < f.scroll_max,
        ;
    }
    assert(0 * room == 0 && 1 * room == room);
}

/// The bubble with the full label of an icon stays within a fence that is large enough for
/// it.
pub proof fn law_bubble_stays_in_fence(t: Theme<i64>, f: SceneFence<i64>, ic: SceneIcon<i64>)
    requires
        moderate_icon(ic),
        ic.label@.len() <= 0x1_0000,
        0 < t.label.size <= 0x1_0000,
        0 < t.scale <= 0x1_0000,
        -0x1000_0000 <= f.x <= 0x1000_0000,
        -0x1000_0000 <= f.y <= 0x1000_0000,
        text::units::<i64>(ic.label@) * t.label.size + 14 * t.scale + 8 <= f.width <= 0x1000_0000_0000,
        t.label.size + 14 * t.scale + 8 <= f.height <= 0x1000_0000_0000,
    ensures
        ({
            let m = tooltip_marks(t, f, ic);
            &&& m.len() > 0
            &&& filled(m[0]) matches Some(e)
            &&& f.x < e.left
            &&& e.right < f.x + f.width
            &&& f.y < e.top
            &&& e.bottom < f.y + f.height
            &&& e.right - e.left == text::units::<i64>(ic.label@) * t.label.size + 14 * t.scale
        }),
{
    assert(scalar::num::<i64>(0) == 0);
    assert(scalar::num::<i64>(2) == 2);
    assert(scalar::num::<i64>(4) == 4);
    assert(scalar::num::<i64>(7) == 7);
    assert(scalar::num::<i64>(8) == 8);
    assert(<i64 as Scalar>::lit(16, 10) == 1);
    text::law_widths_add_up(ic.label@, Seq::empty());
    let u = text::units::<i64>(ic.label@);
    assert(0 <= u * t.label.size <= 0x1_0000 * 0x1_0000) by (nonlinear_arith)
        requires
            0 <= u <= 0x1_0000,
            0 < t.label.size <= 0x1_0000,
    ;
    let s = t.scale;
    let pad = scalar::num::<i64>(7).mul(s);
    assert(pad == 7 * s);
    assert(pad.mul(scalar::num(2)) == 14 * s);
    let w = text::width_of(ic.label@, t.label.size).add(pad.mul(scalar::num(2)));
    assert(w == u * t.label.size + 14 * s);
    let font = t.label.size;
    assert(font.mul(<i64 as Scalar>::lit(16, 10)) == font);
    let h = font.mul(<i64 as Scalar>::lit(16, 10)).add(pad.mul(scalar::num(2)));
    assert(h == font + 14 * s);
}

} // verus!
