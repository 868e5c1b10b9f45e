//! The text being edited, and the whole picture, as strokes.

use vstd::prelude::*;
use vstd::string::*;

use crate::chars::{chars_of, string_of};
use crate::draw_console;
use crate::draw_console::draw_console as draw_whole_console;
use crate::draw_fence;
use crate::draw_fence::draw_fence as draw_one_fence;
use crate::editing;
use crate::paint;
use crate::paint::{draw_text, stroke, Edges, Font, IconStore, Paint};
use crate::scalar;
use crate::scalar::{count, whole_number, Scalar};
use crate::scene::{Scene, SceneEdit};
use crate::text;
use crate::text::estimate_width;
use crate::theme;
use crate::theme::{percent, Theme};

verus! {

/// Whether nothing has been written yet.
pub open spec fn blank<S>(e: SceneEdit<S>) -> bool {
    !e.composing && forall|i: int| 0 <= i < e.lines.len() ==> (#[trigger] e.lines[i])@.len() == 0
}

fn is_blank<S>(e: &SceneEdit<S>) -> (r: bool)
    ensures
        r == blank(*e),
{
    if e.composing {
        return false;
    }
    let mut i: usize = 0;
    while i < e.lines.len()
        invariant
            i <= e.lines.len(),
            forall|j: int| 0 <= j < i ==> (#[trigger] e.lines[j])@.len() == 0,
        decreases e.lines.len() - i,
    {
        if chars_of(e.lines[i].as_str()).len() > 0 {
            return false;
        }
        i += 1;
    }
    true
}

/// The first line starts here.
pub open spec fn first_top<S: Scalar>(t: Theme<S>, e: SceneEdit<S>) -> S {
    if e.single_line {
        e.rect.y.add(e.rect.h.sub(t.label.size.mul(S::lit(16, 10))).div(scalar::num(2)))
    } else {
        e.rect.y.add(scalar::num::<S>(10).mul(t.scale).div(scalar::num(2)))
    }
}

/// The characters of the `i`-th line before the caret, as far as there are any.
pub open spec fn before_caret<S>(e: SceneEdit<S>, i: int) -> Seq<char> {
    e.lines[i]@.take(editing::least(e.col as int, e.lines[i]@.len() as int))
}

/// The `i`-th line as it is shown: in the line of the caret, with what is being composed.
pub open spec fn line_shown<S>(e: SceneEdit<S>, i: int) -> Seq<char> {
    let l = e.lines[i]@;
    if i == e.line {
        before_caret(e, i) + e.comp@ + l.skip(editing::least(e.col as int, l.len() as int))
    } else {
        l
    }
}

/// The `i`-th line, and the caret if it is in it and lit.
pub open spec fn line_marks<S: Scalar>(t: Theme<S>, e: SceneEdit<S>, i: int, lit: bool) -> Seq<Paint<S, Seq<char>>> {
    let font = t.label.size;
    let pad = scalar::num::<S>(10).mul(t.scale);
    let top = first_top(t, e).add(scalar::num::<S>(i).mul(font.mul(S::lit(15, 10))));
    let x = e.rect.x.add(pad).add(text::width_of(before_caret(e, i), font).add(text::width_of(e.comp@, font)));
    let y = if e.single_line {
        first_top(t, e)
    } else {
        top
    };
    draw_fence::one(
        paint::written(
            line_shown(e, i),
            Font::Label,
            Edges {
                left: e.rect.x.add(pad),
                top,
                right: e.rect.x.add(e.rect.w).sub(pad),
                bottom: top.add(font.mul(S::lit(16, 10))),
            },
            paint::white(92),
            t,
        ),
    ) + (if e.focused && i == e.line && lit {
        draw_fence::one(
            Paint::Line {
                x1: x,
                y1: y,
                x2: x,
                y2: y.add(font.mul(S::lit(14, 10))),
                color: paint::white(95),
                width: S::lit(14, 10),
            },
        )
    } else {
        draw_fence::none()
    })
}

fn draw_line<S: Scalar>(out: &mut Vec<Paint<S, String>>, t: &Theme<S>, e: &SceneEdit<S>, i: usize, lit: bool)
    requires
        i < e.lines.len(),
        i <= i64::MAX,
    ensures
        paint::marks(final(out)@) == paint::marks(old(out)@) + line_marks(*t, *e, i as int, lit),
{
    let ghost o = paint::marks(out@);
    let font = t.label.size;
    let pad = whole_number::<S>(10).times(t.scale);
    let first = if e.single_line {
        e.rect.y.plus(e.rect.h.minus(font.times(S::ratio(16, 10))).over(whole_number(2)))
    } else {
        e.rect.y.plus(pad.over(whole_number(2)))
    };
    let top = first.plus(count::<S>(i).times(font.times(S::ratio(15, 10))));
    let v = chars_of(e.lines[i].as_str());
    let k: usize = if e.col < v.len() {
        e.col
    } else {
        v.len()
    };
    proof {
        assert(v@.subrange(0, k as int) =~= v@.take(k as int));
        assert(v@.subrange(k as int, v.len() as int) =~= v@.skip(k as int));
    }
    let before = string_of(&v, 0, k);
    let mut shown = before.clone();
    if i == e.line {
        shown.append(e.comp.as_str());
    }
    shown.append(string_of(&v, k, v.len()).as_str());
    proof {
        assert(shown@ =~= line_shown(*e, i as int));
    }
    let r = Edges {
        left: e.rect.x.plus(pad),
        top,
        right: e.rect.x.plus(e.rect.w).minus(pad),
        bottom: top.plus(font.times(S::ratio(16, 10))),
    };
    draw_text(out, shown.as_str(), Font::Label, r, percent(100, 100, 100, 92), t);
    if e.focused && i == e.line && lit {
        let x = e.rect.x.plus(pad).plus(
            estimate_width(before.as_str(), font).plus(estimate_width(e.comp.as_str(), font)),
        );
        let y = if e.single_line {
            first
        } else {
            top
        };
        stroke(
            out,
            Paint::Line {
                x1: x,
                y1: y,
                x2: x,
                y2: y.plus(font.times(S::ratio(14, 10))),
                color: percent(100, 100, 100, 95),
                width: S::ratio(14, 10),
            },
        );
    }
    proof {
        assert(paint::marks(out@) =~= o + line_marks(*t, *e, i as int, lit));
    }
}

/// The first `n` lines.
pub open spec fn lines_marks<S: Scalar>(t: Theme<S>, e: SceneEdit<S>, lit: bool, n: int) -> Seq<Paint<S, Seq<char>>>
    decreases n,
{
    if n <= 0 {
        draw_fence::none()
    } else {
        lines_marks(t, e, lit, n - 1) + line_marks(t, e, n - 1, lit)
    }
}

/// What stands in the field: its lines, or the words that stand for them while there are
/// none.
pub open spec fn content_marks<S: Scalar>(t: Theme<S>, e: SceneEdit<S>, lit: bool) -> Seq<Paint<S, Seq<char>>> {
    let pad = scalar::num::<S>(10).mul(t.scale);
    if blank(e) && e.placeholder@.len() > 0 {
        draw_fence::one(
            paint::written(
                e.placeholder@,
                Font::Detail,
                Edges {
                    left: e.rect.x.add(pad),
                    top: e.rect.y.add(e.rect.h.sub(t.label.size.mul(S::lit(16, 10))).div(scalar::num(2))),
                    right: e.rect.x.add(e.rect.w).sub(pad),
                    bottom: e.rect.y.add(e.rect.h),
                },
                paint::white(36),
                t,
            ),
        )
    } else {
        lines_marks(t, e, lit, e.lines.len() as int)
    }
}

fn draw_content<S: Scalar>(out: &mut Vec<Paint<S, String>>, t: &Theme<S>, e: &SceneEdit<S>, lit: bool)
    requires
        e.lines.len() <= i64::MAX,
    ensures
        paint::marks(final(out)@) == paint::marks(old(out)@) + content_marks(*t, *e, lit),
{
    let ghost o = paint::marks(out@);
    if is_blank(e) && chars_of(e.placeholder.as_str()).len() > 0 {
        let pad = whole_number::<S>(10).times(t.scale);
        let r = Edges {
            left: e.rect.x.plus(pad),
            top: e.rect.y.plus(e.rect.h.minus(t.label.size.times(S::ratio(16, 10))).over(whole_number(2))),
            right: e.rect.x.plus(e.rect.w).minus(pad),
            bottom: e.rect.y.plus(e.rect.h),
        };
        draw_text(out, e.placeholder.as_str(), Font::Detail, r, percent(100, 100, 100, 36), t);
        proof {
            assert(paint::marks(out@) =~= o + content_marks(*t, *e, lit));
        }
        return;
    }
    let mut i: usize = 0;
    proof {
        assert(o =~= o + lines_marks(*t, *e, lit, 0));
    }
    while i < e.lines.len()
        invariant
            i <= e.lines.len() <= i64::MAX,
            paint::marks(out@) == o + lines_marks(*t, *e, lit, i as int),
        decreases e.lines.len() - i,
    {
        draw_line(out, t, e, i, lit);
        proof {
            paint::lemma_strokes(
                o,
                lines_marks(*t, *e, lit, i as int),
                line_marks(*t, *e, i as int, lit),
                Paint::PopClip,
            );
        }
        i += 1;
    }
}

/// The text being edited, in its field; `lit` is whether the caret is shown.
pub open spec fn edit_marks<S: Scalar>(t: Theme<S>, e: SceneEdit<S>, lit: bool) -> Seq<Paint<S, Seq<char>>> {
    let s = t.scale;
    let rect = e.rect.sides();
    let radius = scalar::num::<S>(7).mul(s);
    let six = scalar::num::<S>(6).mul(s);
    let four = scalar::num::<S>(4).mul(s);
    seq![
        Paint::FillRounded {
            rect,
            radius,
            color: paint::white(
                if e.focused {
                    10
                } else {
                    6
                },
            ),
        },
        if e.focused {
            Paint::DrawRounded { rect, radius, color: theme::color(35, 62, 100, 90), width: S::lit(12, 10) }
        } else {
            Paint::DrawRounded { rect, radius, color: paint::white(14), width: scalar::num(1) }
        },
        Paint::PushClip(
            Edges {
                left: e.rect.x.add(six),
                top: e.rect.y.add(four),
                right: e.rect.x.add(e.rect.w).sub(six),
                bottom: e.rect.y.add(e.rect.h).sub(four),
            },
        ),
    ] + content_marks(t, e, lit) + draw_fence::one(Paint::PopClip)
}

/// Draws the text being edited.
pub fn draw_inline_edit<S: Scalar>(out: &mut Vec<Paint<S, String>>, t: &Theme<S>, e: &SceneEdit<S>, lit: bool)
    requires
        e.lines.len() <= i64::MAX,
    ensures
        paint::marks(final(out)@) == paint::marks(old(out)@) + edit_marks(*t, *e, lit),
{
    let ghost o = paint::marks(out@);
    let s = t.scale;
    let rect = e.rect.edges();
    let radius = whole_number::<S>(7).times(s);
    let six = whole_number::<S>(6).times(s);
    let four = whole_number::<S>(4).times(s);
    let ground: i64 = if e.focused {
        10
    } else {
        6
    };
    stroke(out, Paint::FillRounded { rect, radius, color: percent(100, 100, 100, ground) });
    if e.focused {
        stroke(
            out,
            Paint::DrawRounded { rect, radius, color: percent(35, 62, 100, 90), width: S::ratio(12, 10) },
        );
    } else {
        stroke(
            out,
            Paint::DrawRounded { rect, radius, color: percent(100, 100, 100, 14), width: whole_number(1) },
        );
    }
    stroke(
        out,
        Paint::PushClip(
            Edges {
                left: e.rect.x.plus(six),
                top: e.rect.y.plus(four),
                right: e.rect.x.plus(e.rect.w).minus(six),
                bottom: e.rect.y.plus(e.rect.h).minus(four),
            },
        ),
    );
    draw_content(out, t, e, lit);
    stroke(out, Paint::PopClip);
    proof {
        assert(paint::marks(out@) =~= o + edit_marks(*t, *e, lit));
    }
}

/// The first `n` fences.
pub open spec fn fences_marks<S: Scalar>(t: Theme<S>, s: Scene<S>, have: Seq<u64>, n: int) -> Seq<Paint<S, Seq<char>>>
    decreases n,
{
    if n <= 0 {
        draw_fence::none()
    } else {
        fences_marks(t, s, have, n - 1) + draw_fence::fence_marks(t, s.fences[n - 1], have)
    }
}

pub open spec fn console_part<S: Scalar>(t: Theme<S>, s: Scene<S>) -> Seq<Paint<S, Seq<char>>> {
    match s.console {
        Some(c) => draw_console::console_marks(t, c),
        None => draw_fence::none(),
    }
}

pub open spec fn edit_part<S: Scalar>(t: Theme<S>, s: Scene<S>, lit: bool) -> Seq<Paint<S, Seq<char>>> {
    match s.edit {
        Some(e) => edit_marks(t, e, lit),
        None => draw_fence::none(),
    }
}

/// The whole picture: the fences, the console above them, and the text being edited above
/// all.
pub open spec fn scene_marks<S: Scalar>(t: Theme<S>, s: Scene<S>, have: Seq<u64>, lit: bool) -> Seq<Paint<S, Seq<char>>> {
    fences_marks(t, s, have, s.fences.len() as int) + console_part(t, s) + edit_part(t, s, lit)
}

/// Draws the whole picture; `lit` is whether the caret is shown.
pub fn draw_scene<S: Scalar>(theme: &Theme<S>, scene: &Scene<S>, store: &IconStore, lit: bool) -> (out: Vec<Paint<S, String>>)
    requires
        scene.edit matches Some(e) ==> e.lines.len() <= i64::MAX,
    ensures
        paint::marks(out@) == scene_marks(*theme, *scene, store.ids@, lit),
{
    let ghost pop = Paint::<S, Seq<char>>::PopClip;
    let mut out: Vec<Paint<S, String>> = Vec::new();
    let mut i: usize = 0;
    proof {
        assert(paint::marks(out@) =~= fences_marks(*theme, *scene, store.ids@, 0));
    }
    while i < scene.fences.len()
        invariant
            i <= scene.fences.len(),
            paint::marks(out@) == fences_marks(*theme, *scene, store.ids@, i as int),
        decreases scene.fences.len() - i,
    {
        draw_one_fence(&mut out, theme, &scene.fences[i], store);
        i += 1;
    }
    let ghost m = paint::marks(out@);
    proof {
        paint::lemma_strokes(m, draw_fence::none(), draw_fence::none(), pop);
    }
    if let Some(c) = &scene.console {
        draw_whole_console(&mut out, theme, c);
    }
    let ghost m2 = paint::marks(out@);
    proof {
        paint::lemma_strokes(m2, draw_fence::none(), draw_fence::none(), pop);
    }
    if let Some(e) = &scene.edit {
        draw_inline_edit(&mut out, theme, e, lit);
    }
    out
}

/// Whether the caret is shown at a time in milliseconds: it goes on and off every half
/// second.
pub fn caret_lit(millis: u64) -> (r: bool)
    ensures
        r == ((millis / 500) % 2 == 0),
{
    (millis / 500) % 2 == 0
}

/// A line that nothing is being composed in is shown as it is, whatever the caret; what is
/// being composed stands at the caret, between what is before it and what is behind it.
pub proof fn law_line_is_shown_in_full<S>(e: SceneEdit<S>, i: int)
    requires
        0 <= i < e.lines.len(),
    ensures
        i != e.line || e.comp@.len() == 0 ==> line_shown(e, i) == e.lines[i]@,
        i == e.line && e.col <= e.lines[i]@.len() ==> {
            let l = e.lines[i]@;
            &&& line_shown(e, i).take(e.col as int) == l.take(e.col as int)
            &&& line_shown(e, i).subrange(e.col as int, e.col + e.comp@.len()) == e.comp@
            &&& line_shown(e, i).skip(e.col + e.comp@.len()) == l.skip(e.col as int)
        },
{
    let l = e.lines[i]@;
    if e.comp@.len() == 0 {
        assert(line_shown(e, i) =~= l);
    }
    if i == e.line && e.col <= l.len() {
        assert(line_shown(e, i).take(e.col as int) =~= l.take(e.col as int));
        assert(line_shown(e, i).subrange(e.col as int, e.col + e.comp@.len()) =~= e.comp@);
        assert(line_shown(e, i).skip(e.col + e.comp@.len()) =~= l.skip(e.col as int));
    }
}

/// The caret stands in its line behind the characters before it: as far from where the text
/// begins as these and what is being composed are wide, and only while the field has the
/// focus and the caret is lit.
pub proof fn law_caret_stands_behind_its_text(t: Theme<i64>, e: SceneEdit<i64>, i: int, lit: bool)
    requires
        0 <= i < e.lines.len(),
        e.lines.len() <= 0x1_0000,
        e.lines[i]@.len() <= 0x1_0000,
        e.comp@.len() <= 0x1_0000,
        e.col <= e.lines[i]@.len(),
        0 < t.label.size <= 0x1_0000,
        0 < t.scale <= 0x1_0000,
        -0x1000_0000 <= e.rect.x <= 0x1000_0000,
    ensures
        ({
            let m = line_marks(t, e, i, lit);
            let size = t.label.size;
            &&& m.len() == if e.focused && i == e.line && lit {
                2
            } else {
                1nat
            }
            &&& m[0] matches Paint::Text { text, font, rect, color }
            &&& m.len() == 2 ==> (m[1] matches Paint::Line { x1, y1, x2, y2, color, width } && x1 == x2 && x1 - rect.left
                == text::units::<i64>(e.lines[i]@.take(e.col as int) + e.comp@) * size)
        }),
{
    assert(scalar::num::<i64>(10) == 10);
    let a = before_caret(e, i);
    assert(a == e.lines[i]@.take(e.col as int));
    text::law_widths_add_up(a, e.comp@);
    text::law_widths_add_up(e.comp@, Seq::empty());
    let u = text::units::<i64>(a);
    let v = text::units::<i64>(e.comp@);
    let size = t.label.size;
    assert(0 <= u * size <= 0x1_0000 * 0x1_0000 && 0 <= v * size <= 0x1_0000 * 0x1_0000 && (u + v) * size == u * size + v
        * size) by (nonlinear_arith)
        requires
            0 <= u <= 0x1_0000,
            0 <= v <= 0x1_0000,
            0 < size <= 0x1_0000,
    ;
    let pad = scalar::num::<i64>(10).mul(t.scale);
    assert(pad == 10 * t.scale);
}

} // verus!
