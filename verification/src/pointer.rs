//! What the pointer's presses, moves and releases amount to.
//!
//! A drag reports where its target would be if nothing stood in the way: the rectangle as
//! it was when the button went down, moved by the pointer's whole way since then. So a
//! target never drifts, however often it was held up on the way.

use vstd::prelude::*;

use crate::overlay::{
    console_resize_zone_at, console_zone_at, hover_key, rect_overlap, resize_zone_at, zone_cursor, ConsoleHit,
    ConsoleZone, CursorShape, FenceHit, HitModel, IconHit, RectF, ResizeZone,
};
use crate::overlay;
use crate::scalar;
use crate::scalar::{whole_number, Scalar};
use crate::search;

verus! {

/// What happens on the overlay.
#[allow(inconsistent_fields)]
#[derive(Debug, PartialEq)]
pub enum OverlayEvent<S> {
    /// A fence is dragged; its upper left corner would be at `pos`.
    FenceMove { fence: usize, pos: (S, S) },
    /// A fence is resized; it would be `rect` (left, top, width, height).
    FenceResize { fence: usize, zone: ResizeZone, rect: (S, S, S, S) },
    /// A fence's drag is over.
    FenceDragEnd { fence: usize },
    IconDoubleClicked { fence: usize, icon: usize },
    IconClicked { fence: usize, icon: usize, ctrl: bool },
    /// A rubber band is drawn over a fence; `selected` are the icons in it.
    SelectDrag { fence: usize, rect: (S, S, S, S), selected: Vec<(usize, usize)> },
    SelectEnd,
    /// An edit has been carried out; only the picture is to be renewed.
    EditCommitted,
    /// The right button went down on a fence, and perhaps on an icon of it.
    ContextMenu { fence: usize, icon: Option<usize>, pos: (S, S) },
    HoverEnter { fence: usize, icon: usize },
    HoverLeave,
    FilesDropped { fence: usize, paths: Vec<String> },
    /// The wheel was turned over a fence, by `delta` of 120 to the notch.
    FenceScroll { fence: usize, delta: i32 },
    ConsoleHover { zone: Option<ConsoleZone<S>> },
    ConsoleClick { zone: ConsoleZone<S> },
    ConsoleScroll { delta: i32 },
    ConsoleMove { pos: (S, S) },
    ConsoleDragEnd,
    ConsoleResize { rect: (S, S, S, S) },
    ConsoleResizeEnd,
    ConsoleToggle,
    SyncLibrary,
    AnimTick,
    CursorMove { x: S, y: S },
    CursorLeave,
    KeyDown { vk: u32, ctrl: bool },
    /// A unit of UTF-16 was typed.
    Char { ch: u16 },
    /// A click into the field being edited, at the horizontal place `x`.
    EditCaret { x: S },
    ImeStart,
    ImeCompose { text: String, caret: usize },
    ImeResult { text: String },
    ImeEnd,
    OverlayFocusLost,
    TrayToggle,
    TrayMenu,
    DpiChanged { dpi: u32 },
    DisplayChange,
    SidebarReorderDrag { fence: usize, icon: usize, mx: S, my: S },
    SidebarReorderEnd { fence: usize, from: usize, to: usize },
}

/// What a drag does.
#[derive(Debug, Clone, Copy, PartialEq, Eq, Structural)]
pub enum DragKind {
    /// Moves a fence.
    Move,
    /// Draws a rubber band.
    Select,
    /// Resizes a fence.
    Resize(ResizeZone),
    ConsoleMove,
    ConsoleResize(ResizeZone),
}

/// A drag, from the press of the button to its release.
#[derive(Debug, PartialEq)]
pub struct DragState<S> {
    pub kind: DragKind,
    pub fence: usize,
    /// Where the button went down.
    pub start: (S, S),
    /// The rectangle of the target when the button went down.
    pub orig: RectF<S>,
    /// The icon on which the button went down.
    pub pressed_icon: Option<usize>,
    /// Whether the control key was held then.
    pub ctrl: bool,
}

impl<S: Copy> Clone for DragState<S> {
    fn clone(&self) -> (r: Self)
        ensures
            r == *self,
    {
        *self
    }
}

impl<S: Copy> Copy for DragState<S> {

}

/// What a press of the left button leads to.
#[derive(Debug, PartialEq)]
pub enum Press<S> {
    /// Nothing is there, or nothing that reacts.
    Nothing,
    /// A control of the console is used.
    Click(ConsoleZone<S>),
    /// A drag begins, the pointer taking the given shape if there is one.
    Drag(DragState<S>, Option<CursorShape>),
}

pub open spec fn drag<S>(
    kind: DragKind,
    fence: usize,
    mx: S,
    my: S,
    orig: RectF<S>,
    pressed_icon: Option<usize>,
    ctrl: bool,
) -> DragState<S> {
    DragState { kind, fence, start: (mx, my), orig, pressed_icon, ctrl }
}

/// A press on the console: a control is used; else an edge resizes and the title moves.
pub open spec fn console_press<S: Scalar>(c: ConsoleHit<S>, mx: S, my: S) -> Press<S> {
    match overlay::zone_at(c, mx, my) {
        Some(zone) => Press::Click(zone),
        None => match overlay::console_grip_at(c.rect, mx, my) {
            Some(zone) => Press::Drag(
                drag(DragKind::ConsoleResize(zone), usize::MAX, mx, my, c.rect, None, false),
                Some(zone.shape()),
            ),
            None => if c.title.holds(mx, my) {
                Press::Drag(
                    drag(DragKind::ConsoleMove, usize::MAX, mx, my, c.rect, None, false),
                    Some(CursorShape::Move),
                )
            } else {
                Press::Nothing
            },
        },
    }
}

/// The resizing part at the point of the first fence whose body holds it.
pub open spec fn grip_of<S: Scalar>(m: HitModel<S>, mx: S, my: S) -> Option<(FenceHit<S>, ResizeZone)> {
    match search::first(m.fences@, overlay::body_holds(mx, my)) {
        Some(f) => match overlay::fence_grip_at(f.body, mx, my) {
            Some(zone) => Some((f, zone)),
            None => None,
        },
        None => None,
    }
}

/// A press on the fences: an edge resizes, a title moves, an icon moves its fence, and an
/// empty place starts a rubber band.
pub open spec fn fence_press<S: Scalar>(m: HitModel<S>, mx: S, my: S, ctrl: bool) -> Press<S> {
    match grip_of(m, mx, my) {
        Some((f, zone)) => Press::Drag(
            drag(DragKind::Resize(zone), f.id, mx, my, f.body, None, false),
            Some(zone.shape()),
        ),
        None => match search::first(m.fences@, overlay::title_holds(mx, my)) {
            Some(f) => Press::Drag(
                drag(DragKind::Move, f.id, mx, my, f.body, None, false),
                Some(CursorShape::Move),
            ),
            None => match search::first(m.fences@, overlay::body_holds(mx, my)) {
                Some(f) => match overlay::pressed_icon(m, f.id, mx, my) {
                    Some(icon) => Press::Drag(
                        drag(DragKind::Move, f.id, mx, my, f.body, Some(icon), ctrl),
                        Some(CursorShape::Move),
                    ),
                    None => Press::Drag(drag(DragKind::Select, f.id, mx, my, f.body, None, ctrl), None),
                },
                None => Press::Nothing,
            },
        },
    }
}

/// A press of the left button at a point.
pub open spec fn press_at<S: Scalar>(m: HitModel<S>, mx: S, my: S, ctrl: bool) -> Press<S> {
    if overlay::on_console(m, mx, my) {
        console_press(m.console->0, mx, my)
    } else {
        fence_press(m, mx, my, ctrl)
    }
}

/// A press of the left button. What is reported of it at once says [`press_event`].
pub fn on_button_down<S: Scalar>(model: &HitModel<S>, mx: S, my: S, ctrl: bool) -> (p: Press<S>)
    ensures
        p == press_at(*model, mx, my, ctrl),
{
    match &model.console {
        Some(c) => {
            if c.rect.contains(mx, my) {
                return press_console(c, mx, my);
            }
        },
        None => {},
    }
    press_fences(model, mx, my, ctrl)
}

/// What a press at a point is reported as: a control of the console as used, and a rubber
/// band as empty, which clears the selection. Other presses are not reported.
pub open spec fn press_reports<S: Scalar>(p: Press<S>, mx: S, my: S, ev: Option<OverlayEvent<S>>) -> bool {
    match p {
        Press::Nothing => ev is None,
        Press::Click(zone) => ev == Some(OverlayEvent::ConsoleClick { zone }),
        Press::Drag(d, _) => if d.kind is Select {
            ev matches Some(OverlayEvent::SelectDrag { fence, rect, selected }) && fence == d.fence && rect == (
                mx,
                my,
                scalar::num::<S>(0),
                scalar::num::<S>(0),
            ) && selected@ == Seq::<(usize, usize)>::empty()
        } else {
            ev is None
        },
    }
}

/// The event of a press at a point, if it is one at once.
pub fn press_event<S: Scalar>(p: &Press<S>, mx: S, my: S) -> (r: Option<OverlayEvent<S>>)
    ensures
        press_reports(*p, mx, my, r),
{
    match p {
        Press::Nothing => None,
        Press::Click(zone) => Some(OverlayEvent::ConsoleClick { zone: *zone }),
        Press::Drag(d, _) => if d.kind == DragKind::Select {
            Some(
                OverlayEvent::SelectDrag {
                    fence: d.fence,
                    rect: (mx, my, whole_number(0), whole_number(0)),
                    selected: Vec::new(),
                },
            )
        } else {
            None
        },
    }
}

fn press_console<S: Scalar>(c: &ConsoleHit<S>, mx: S, my: S) -> (p: Press<S>)
    ensures
        p == console_press(*c, mx, my),
{
    match console_zone_at(c, mx, my) {
        Some(zone) => {
            return Press::Click(zone);
        },
        None => {},
    }
    match console_resize_zone_at(c, mx, my) {
        Some(zone) => {
            return Press::Drag(
                DragState {
                    kind: DragKind::ConsoleResize(zone),
                    fence: usize::MAX,
                    start: (mx, my),
                    orig: c.rect,
                    pressed_icon: None,
                    ctrl: false,
                },
                Some(zone_cursor(zone)),
            );
        },
        None => {},
    }
    if c.title.contains(mx, my) {
        return Press::Drag(
            DragState {
                kind: DragKind::ConsoleMove,
                fence: usize::MAX,
                start: (mx, my),
                orig: c.rect,
                pressed_icon: None,
                ctrl: false,
            },
            Some(CursorShape::Move),
        );
    }
    Press::Nothing
}

fn press_fences<S: Scalar>(m: &HitModel<S>, mx: S, my: S, ctrl: bool) -> (p: Press<S>)
    ensures
        p == fence_press(*m, mx, my, ctrl),
{
    let k = overlay::fence_with_body(m, mx, my);
    if k < m.fences.len() {
        match resize_zone_at(&m.fences[k], mx, my) {
            Some(zone) => {
                return Press::Drag(
                    DragState {
                        kind: DragKind::Resize(zone),
                        fence: m.fences[k].id,
                        start: (mx, my),
                        orig: m.fences[k].body,
                        pressed_icon: None,
                        ctrl: false,
                    },
                    Some(zone_cursor(zone)),
                );
            },
            None => {},
        }
    }
    let t = overlay::fence_with_title(m, mx, my);
    if t < m.fences.len() {
        return Press::Drag(
            DragState {
                kind: DragKind::Move,
                fence: m.fences[t].id,
                start: (mx, my),
                orig: m.fences[t].body,
                pressed_icon: None,
                ctrl: false,
            },
            Some(CursorShape::Move),
        );
    }
    if k < m.fences.len() {
        let icon = overlay::icon_of_fence_at(m, m.fences[k].id, mx, my);
        let kind = if icon.is_some() {
            DragKind::Move
        } else {
            DragKind::Select
        };
        let shape = if icon.is_some() {
            Some(CursorShape::Move)
        } else {
            None
        };
        return Press::Drag(
            DragState {
                kind,
                fence: m.fences[k].id,
                start: (mx, my),
                orig: m.fences[k].body,
                pressed_icon: icon,
                ctrl,
            },
            shape,
        );
    }
    Press::Nothing
}

/// The icon is one of the fence `fence` that the band meets.
pub open spec fn in_band<S: Scalar>(fence: usize, band: RectF<S>) -> spec_fn(IconHit<S>) -> bool {
    |i: IconHit<S>| i.fence == fence && i.rect.meets(band)
}

/// The icons of the fence `fence` that the band meets, in order.
pub open spec fn banded<S: Scalar>(icons: Seq<IconHit<S>>, fence: usize, band: RectF<S>) -> Seq<(usize, usize)> {
    icons.filter(in_band(fence, band)).map_values(|i: IconHit<S>| (i.fence, i.icon))
}

/// The icons of the fence `fence` that the band meets.
pub fn band_selection<S: Scalar>(model: &HitModel<S>, fence: usize, band: RectF<S>) -> (r: Vec<(usize, usize)>)
    ensures
        r@ == banded(model.icons@, fence, band),
{
    let mut out: Vec<(usize, usize)> = Vec::new();
    let ghost s = model.icons@;
    let mut i: usize = 0;
    proof {
        reveal(Seq::filter);
        assert(out@ =~= banded(s.take(0), fence, band));
    }
    while i < model.icons.len()
        invariant
            i <= model.icons.len(),
            s == model.icons@,
            out@ == banded(s.take(i as int), fence, band),
        decreases model.icons.len() - i,
    {
        let h = model.icons[i];
        let ghost o = out@;
        proof {
            reveal(Seq::filter);
            assert(s.take(i + 1).drop_last() =~= s.take(i as int));
        }
        if h.fence == fence && rect_overlap(h.rect, band) {
            out.push((h.fence, h.icon));
        }
        proof {
            assert(out@ =~= banded(s.take(i + 1), fence, band));
        }
        i += 1;
    }
    proof {
        assert(s.take(i as int) =~= s);
    }
    out
}

/// The rectangle between two points.
pub open spec fn between<S: Scalar>(a: (S, S), b: (S, S)) -> RectF<S> {
    RectF { x: a.0.min(b.0), y: a.1.min(b.1), w: b.0.sub(a.0).abs(), h: b.1.sub(a.1).abs() }
}

/// `r` with the edges of `zone` moved by (`dx`, `dy`), the opposite edges staying.
pub open spec fn stretched<S: Scalar>(r: RectF<S>, zone: ResizeZone, dx: S, dy: S) -> RectF<S> {
    match zone {
        ResizeZone::Right => RectF { w: r.w.add(dx), ..r },
        ResizeZone::Bottom => RectF { h: r.h.add(dy), ..r },
        ResizeZone::BottomRight => RectF { w: r.w.add(dx), h: r.h.add(dy), ..r },
        ResizeZone::Left => RectF { x: r.x.add(dx), w: r.w.sub(dx), ..r },
        ResizeZone::BottomLeft => RectF { x: r.x.add(dx), w: r.w.sub(dx), h: r.h.add(dy), ..r },
        ResizeZone::TopRight => RectF { y: r.y.add(dy), w: r.w.add(dx), h: r.h.sub(dy), ..r },
    }
}

/// As [`stretched`], for a panel anchored at its upper left: other edges do nothing.
pub open spec fn stretched_panel<S: Scalar>(r: RectF<S>, zone: ResizeZone, dx: S, dy: S) -> RectF<S> {
    match zone {
        ResizeZone::Right | ResizeZone::Bottom | ResizeZone::BottomRight => stretched(r, zone, dx, dy),
        _ => r,
    }
}

/// `r` as left, top, width and height.
pub open spec fn parts<S>(r: RectF<S>) -> (S, S, S, S) {
    (r.x, r.y, r.w, r.h)
}

/// `ev` is what moving the pointer to (`mx`, `my`) in the course of `d` reports.
pub open spec fn reports<S: Scalar>(m: HitModel<S>, d: DragState<S>, mx: S, my: S, ev: OverlayEvent<S>) -> bool {
    let dx = mx.sub(d.start.0);
    let dy = my.sub(d.start.1);
    match d.kind {
        DragKind::Move => ev == OverlayEvent::FenceMove {
            fence: d.fence,
            pos: (d.orig.x.add(dx), d.orig.y.add(dy)),
        },
        DragKind::Select => {
            let band = between(d.start, (mx, my));
            ev matches OverlayEvent::SelectDrag { fence, rect, selected } && fence == d.fence && rect == parts(band)
                && selected@ == banded(m.icons@, d.fence, band)
        },
        DragKind::ConsoleMove => ev == (OverlayEvent::ConsoleMove {
            pos: (d.orig.x.add(dx), d.orig.y.add(dy)),
        }),
        DragKind::ConsoleResize(zone) => ev == (OverlayEvent::ConsoleResize {
            rect: parts(stretched_panel(d.orig, zone, dx, dy)),
        }),
        DragKind::Resize(zone) => ev == (OverlayEvent::FenceResize {
            fence: d.fence,
            zone,
            rect: parts(stretched(d.orig, zone, dx, dy)),
        }),
    }
}

fn stretch<S: Scalar>(r: RectF<S>, zone: ResizeZone, dx: S, dy: S) -> (q: RectF<S>)
    ensures
        q == stretched(r, zone, dx, dy),
{
    match zone {
        ResizeZone::Right => RectF { x: r.x, y: r.y, w: r.w.plus(dx), h: r.h },
        ResizeZone::Bottom => RectF { x: r.x, y: r.y, w: r.w, h: r.h.plus(dy) },
        ResizeZone::BottomRight => RectF { x: r.x, y: r.y, w: r.w.plus(dx), h: r.h.plus(dy) },
        ResizeZone::Left => RectF { x: r.x.plus(dx), y: r.y, w: r.w.minus(dx), h: r.h },
        ResizeZone::BottomLeft => RectF { x: r.x.plus(dx), y: r.y, w: r.w.minus(dx), h: r.h.plus(dy) },
        ResizeZone::TopRight => RectF { x: r.x, y: r.y.plus(dy), w: r.w.plus(dx), h: r.h.minus(dy) },
    }
}

/// What moving the pointer reports while a drag is under way; nothing otherwise.
pub fn on_mouse_move<S: Scalar>(
    model: &HitModel<S>,
    drag: Option<DragState<S>>,
    mx: S,
    my: S,
) -> (r: Option<OverlayEvent<S>>)
    ensures
        match drag {
            Some(d) => r matches Some(ev) && reports(*model, d, mx, my, ev),
            None => r is None,
        },
{
    let d = match drag {
        Some(d) => d,
        None => {
            return None;
        },
    };
    let dx = mx.minus(d.start.0);
    let dy = my.minus(d.start.1);
    Some(
        match d.kind {
            DragKind::Move => OverlayEvent::FenceMove {
                fence: d.fence,
                pos: (d.orig.x.plus(dx), d.orig.y.plus(dy)),
            },
            DragKind::Select => {
                let band = RectF {
                    x: d.start.0.least(mx),
                    y: d.start.1.least(my),
                    w: dx.size(),
                    h: dy.size(),
                };
                let selected = band_selection(model, d.fence, band);
                OverlayEvent::SelectDrag {
                    fence: d.fence,
                    rect: (band.x, band.y, band.w, band.h),
                    selected,
                }
            },
            DragKind::ConsoleMove => OverlayEvent::ConsoleMove {
                pos: (d.orig.x.plus(dx), d.orig.y.plus(dy)),
            },
            DragKind::ConsoleResize(zone) => {
                let r = match zone {
                    ResizeZone::Right | ResizeZone::Bottom | ResizeZone::BottomRight => stretch(
                        d.orig,
                        zone,
                        dx,
                        dy,
                    ),
                    _ => d.orig,
                };
                OverlayEvent::ConsoleResize { rect: (r.x, r.y, r.w, r.h) }
            },
            DragKind::Resize(zone) => {
                let r = stretch(d.orig, zone, dx, dy);
                OverlayEvent::FenceResize { fence: d.fence, zone, rect: (r.x, r.y, r.w, r.h) }
            },
        },
    )
}

/// The release is so close to the press that it makes a click.
pub open spec fn is_click<S: Scalar>(d: DragState<S>, mx: S, my: S) -> bool {
    let dx = mx.sub(d.start.0);
    let dy = my.sub(d.start.1);
    let t = scalar::num::<S>(5);
    dx.mul(dx).add(dy.mul(dy)).lt(t.mul(t))
}

/// What releasing the button at the end of `d` reports.
pub open spec fn released<S: Scalar>(d: DragState<S>, mx: S, my: S) -> Seq<OverlayEvent<S>> {
    let end = OverlayEvent::FenceDragEnd { fence: d.fence };
    match d.kind {
        DragKind::Move => if is_click(d, mx, my) && d.pressed_icon is Some {
            seq![
                OverlayEvent::IconClicked { fence: d.fence, icon: d.pressed_icon->0, ctrl: d.ctrl },
                end,
            ]
        } else {
            seq![end]
        },
        DragKind::Resize(_) => seq![end],
        DragKind::Select => seq![OverlayEvent::SelectEnd],
        DragKind::ConsoleMove => seq![OverlayEvent::ConsoleDragEnd],
        DragKind::ConsoleResize(_) => seq![OverlayEvent::ConsoleResizeEnd],
    }
}

/// What releasing the button reports: a click where the pointer hardly moved since it went
/// down on an icon, and the end of the drag.
pub fn on_button_up<S: Scalar>(drag: Option<DragState<S>>, mx: S, my: S) -> (r: Vec<OverlayEvent<S>>)
    ensures
        r@ == match drag {
            Some(d) => released(d, mx, my),
            None => Seq::<OverlayEvent<S>>::empty(),
        },
{
    let mut out: Vec<OverlayEvent<S>> = Vec::new();
    let d = match drag {
        Some(d) => d,
        None => {
            return out;
        },
    };
    match d.kind {
        DragKind::Move => {
            let dx = mx.minus(d.start.0);
            let dy = my.minus(d.start.1);
            let t = whole_number::<S>(overlay::CLICK_DRAG_THRESHOLD);
            if dx.times(dx).plus(dy.times(dy)).below(t.times(t)) {
                match d.pressed_icon {
                    Some(icon) => {
                        out.push(OverlayEvent::IconClicked { fence: d.fence, icon, ctrl: d.ctrl });
                    },
                    None => {},
                }
            }
            out.push(OverlayEvent::FenceDragEnd { fence: d.fence });
        },
        DragKind::Resize(_) => {
            out.push(OverlayEvent::FenceDragEnd { fence: d.fence });
        },
        DragKind::Select => {
            out.push(OverlayEvent::SelectEnd);
        },
        DragKind::ConsoleMove => {
            out.push(OverlayEvent::ConsoleDragEnd);
        },
        DragKind::ConsoleResize(_) => {
            out.push(OverlayEvent::ConsoleResizeEnd);
        },
    }
    proof {
        assert(out@ =~= released(d, mx, my));
    }
    out
}

/// What a double click reports: the first icon under the point.
pub fn on_double_click<S: Scalar>(model: &HitModel<S>, mx: S, my: S) -> (r: Option<OverlayEvent<S>>)
    ensures
        r == match search::first(model.icons@, overlay::icon_holds(mx, my)) {
            Some(i) => Some(OverlayEvent::<S>::IconDoubleClicked { fence: i.fence, icon: i.icon }),
            None => None,
        },
{
    let i = overlay::icon_at(model, mx, my);
    if i < model.icons.len() {
        Some(OverlayEvent::IconDoubleClicked { fence: model.icons[i].fence, icon: model.icons[i].icon })
    } else {
        None
    }
}

/// What a press of the right button reports: the icon under the point with its fence, else
/// the fence.
pub open spec fn menu_at<S: Scalar>(m: HitModel<S>, mx: S, my: S) -> Option<OverlayEvent<S>> {
    match search::first(m.icons@, overlay::icon_holds(mx, my)) {
        Some(i) => Some(OverlayEvent::ContextMenu { fence: i.fence, icon: Some(i.icon), pos: (mx, my) }),
        None => match search::first(m.fences@, overlay::body_holds(mx, my)) {
            Some(f) => Some(OverlayEvent::ContextMenu { fence: f.id, icon: None, pos: (mx, my) }),
            None => None,
        },
    }
}

/// What a press of the right button reports.
pub fn on_right_button<S: Scalar>(model: &HitModel<S>, mx: S, my: S) -> (r: Option<OverlayEvent<S>>)
    ensures
        r == menu_at(*model, mx, my),
{
    let i = overlay::icon_at(model, mx, my);
    if i < model.icons.len() {
        return Some(
            OverlayEvent::ContextMenu {
                fence: model.icons[i].fence,
                icon: Some(model.icons[i].icon),
                pos: (mx, my),
            },
        );
    }
    let k = overlay::fence_with_body(model, mx, my);
    if k < model.fences.len() {
        return Some(OverlayEvent::ContextMenu { fence: model.fences[k].id, icon: None, pos: (mx, my) });
    }
    None
}

/// What a turn of the wheel reports: the console scrolls if the point is on it, else the
/// fence under the point. A turn by nothing reports nothing.
pub open spec fn wheel_at<S: Scalar>(m: HitModel<S>, mx: S, my: S, delta: i32) -> Option<OverlayEvent<S>> {
    if delta == 0 {
        None
    } else if overlay::on_console(m, mx, my) {
        Some(OverlayEvent::ConsoleScroll { delta })
    } else {
        match search::first(m.fences@, overlay::body_holds(mx, my)) {
            Some(f) => Some(OverlayEvent::FenceScroll { fence: f.id, delta }),
            None => None,
        }
    }
}

/// What a turn of the wheel reports.
pub fn on_wheel<S: Scalar>(model: &HitModel<S>, mx: S, my: S, delta: i32) -> (r: Option<OverlayEvent<S>>)
    ensures
        r == wheel_at(*model, mx, my, delta),
{
    if delta == 0 {
        return None;
    }
    match &model.console {
        Some(c) => {
            if c.rect.contains(mx, my) {
                return Some(OverlayEvent::ConsoleScroll { delta });
            }
        },
        None => {},
    }
    let k = overlay::fence_with_body(model, mx, my);
    if k < model.fences.len() {
        return Some(OverlayEvent::FenceScroll { fence: model.fences[k].id, delta });
    }
    None
}

/// The fence that files dropped at a point go to: the one under the point, by any of its
/// parts, else the first.
pub open spec fn drop_target<S: Scalar>(m: HitModel<S>, mx: S, my: S) -> Option<usize> {
    match search::first(m.fences@, overlay::any_part_holds(mx, my)) {
        Some(f) => Some(f.id),
        None => if m.fences.len() > 0 {
            Some(m.fences[0].id)
        } else {
            None
        },
    }
}

/// The fence that files dropped at a point go to.
pub fn drop_fence<S: Scalar>(model: &HitModel<S>, mx: S, my: S) -> (r: Option<usize>)
    ensures
        r == drop_target(*model, mx, my),
{
    let mut i: usize = 0;
    while i < model.fences.len()
        invariant
            i <= model.fences.len(),
            search::first_from(model.fences@, overlay::any_part_holds(mx, my), i as int) == search::first_from(
                model.fences@,
                overlay::any_part_holds(mx, my),
                0,
            ),
        decreases model.fences.len() - i,
    {
        let f = &model.fences[i];
        if f.body.contains(mx, my) || f.title.contains(mx, my) || f.grip.contains(mx, my) {
            return Some(f.id);
        }
        i += 1;
    }
    if model.fences.len() > 0 {
        Some(model.fences[0].id)
    } else {
        None
    }
}

/// What dropping files reports; nothing where there are no files or no fences.
pub fn on_drop<S: Scalar>(model: &HitModel<S>, mx: S, my: S, paths: Vec<String>) -> (r: Option<OverlayEvent<S>>)
    ensures
        match drop_target(*model, mx, my) {
            Some(fence) => if paths.len() == 0 {
                r is None
            } else {
                r == Some(OverlayEvent::<S>::FilesDropped { fence, paths })
            },
            None => r is None,
        },
{
    if paths.len() == 0 {
        return None;
    }
    match drop_fence(model, mx, my) {
        Some(fence) => Some(OverlayEvent::FilesDropped { fence, paths }),
        None => None,
    }
}

/// What the pointer is over, as last reported.
#[derive(Debug, Clone, Copy, PartialEq)]
pub struct Hover<S> {
    pub target: Option<(usize, Option<usize>)>,
    pub zone: Option<ConsoleZone<S>>,
}

/// What a change of the hovered target to `key` reports.
pub open spec fn hover_event<S>(key: Option<(usize, Option<usize>)>) -> OverlayEvent<S> {
    match key {
        Some((fence, Some(icon))) => OverlayEvent::HoverEnter { fence, icon },
        _ => OverlayEvent::HoverLeave,
    }
}

/// The hovered control of the console.
pub open spec fn zone_under<S: Scalar>(m: HitModel<S>, mx: S, my: S) -> Option<ConsoleZone<S>> {
    if overlay::on_console(m, mx, my) {
        overlay::zone_at(m.console->0, mx, my)
    } else {
        None
    }
}

/// Both are the same control, or both are none.
pub open spec fn same_zone<S: Scalar>(a: Option<ConsoleZone<S>>, b: Option<ConsoleZone<S>>) -> bool {
    match (a, b) {
        (Some(x), Some(y)) => x.same(y),
        (None, None) => true,
        _ => false,
    }
}

fn same_target(a: Option<(usize, Option<usize>)>, b: Option<(usize, Option<usize>)>) -> (r: bool)
    ensures
        r == (a == b),
{
    match (a, b) {
        (Some((f, Some(i))), Some((g, Some(j)))) => f == g && i == j,
        (Some((f, None)), Some((g, None))) => f == g,
        (None, None) => true,
        _ => false,
    }
}

impl<S: Scalar> Hover<S> {
    pub fn new() -> (h: Self)
        ensures
            h.target is None,
            h.zone is None,
    {
        Hover { target: None, zone: None }
    }

    /// Follows the pointer over fences and icons; reports only a change.
    pub fn follow(&mut self, model: &HitModel<S>, mx: S, my: S) -> (r: Option<OverlayEvent<S>>)
        ensures
            final(self).target == overlay::hover_of(*model, mx, my),
            final(self).zone == old(self).zone,
            r == if old(self).target == overlay::hover_of(*model, mx, my) {
                None
            } else {
                Some(hover_event::<S>(overlay::hover_of(*model, mx, my)))
            },
    {
        let key = hover_key(model, mx, my);
        if same_target(key, self.target) {
            return None;
        }
        self.target = key;
        Some(
            match key {
                Some((fence, Some(icon))) => OverlayEvent::HoverEnter { fence, icon },
                _ => OverlayEvent::HoverLeave,
            },
        )
    }

    /// Follows the pointer over the controls of the console; reports only a change.
    pub fn follow_zone(&mut self, model: &HitModel<S>, mx: S, my: S) -> (r: Option<OverlayEvent<S>>)
        ensures
            final(self).target == old(self).target,
            same_zone(zone_under(*model, mx, my), old(self).zone) ==> final(self).zone == old(self).zone && r is None,
            !same_zone(zone_under(*model, mx, my), old(self).zone) ==> final(self).zone == zone_under(*model, mx, my)
                && r == Some(OverlayEvent::ConsoleHover { zone: zone_under(*model, mx, my) }),
    {
        let z = match &model.console {
            Some(c) => if c.rect.contains(mx, my) {
                console_zone_at(c, mx, my)
            } else {
                None
            },
            None => None,
        };
        let unchanged = match (&z, &self.zone) {
            (Some(x), Some(y)) => x.is_same(y),
            (None, None) => true,
            _ => false,
        };
        if unchanged {
            return None;
        }
        self.zone = z;
        Some(OverlayEvent::ConsoleHover { zone: z })
    }
}

/// Dragging reports the same target for the same pointer, whatever was reported before, and
/// a drag that has not moved reports the rectangle it started from.
pub proof fn law_drag_starts_at_origin(m: HitModel<i64>, d: DragState<i64>, ev: OverlayEvent<i64>)
    requires
        reports(m, d, d.start.0, d.start.1, ev),
    ensures
        d.kind is Move ==> ev == (OverlayEvent::<i64>::FenceMove { fence: d.fence, pos: (d.orig.x, d.orig.y) }),
        d.kind matches DragKind::Resize(zone) ==> ev == (OverlayEvent::<i64>::FenceResize {
            fence: d.fence,
            zone,
            rect: parts(d.orig),
        }),
        d.kind is ConsoleMove ==> ev == (OverlayEvent::<i64>::ConsoleMove { pos: (d.orig.x, d.orig.y) }),
        d.kind is ConsoleResize ==> ev == (OverlayEvent::<i64>::ConsoleResize { rect: parts(d.orig) }),
{
}

/// A resize keeps the edges that are not dragged where they are.
pub proof fn law_stretch_keeps_other_edges(r: RectF<i64>, zone: ResizeZone, dx: i64, dy: i64)
    requires
        -0x100_0000_0000 <= r.x <= 0x100_0000_0000,
        -0x100_0000_0000 <= r.y <= 0x100_0000_0000,
        -0x100_0000_0000 <= r.w <= 0x100_0000_0000,
        -0x100_0000_0000 <= r.h <= 0x100_0000_0000,
        -0x100_0000_0000 <= dx <= 0x100_0000_0000,
        -0x100_0000_0000 <= dy <= 0x100_0000_0000,
    ensures
        zone is Left || zone is BottomLeft ==> stretched(r, zone, dx, dy).right_edge() == r.right_edge(),
        zone is TopRight ==> stretched(r, zone, dx, dy).bottom_edge() == r.bottom_edge(),
        !(zone is Left || zone is BottomLeft) ==> stretched(r, zone, dx, dy).x == r.x,
        !(zone is TopRight) ==> stretched(r, zone, dx, dy).y == r.y,
{
}

/// Over the console nothing else reacts: neither fences nor icons are hovered, pressed or
/// scrolled there.
pub proof fn law_console_comes_first<S: Scalar>(m: HitModel<S>, mx: S, my: S, ctrl: bool, delta: i32)
    requires
        overlay::on_console(m, mx, my),
    ensures
        overlay::hover_of(m, mx, my) is None,
        press_at(m, mx, my, ctrl) matches Press::Drag(d, _) ==> d.kind is ConsoleMove || d.kind is ConsoleResize,
        delta != 0 ==> wheel_at(m, mx, my, delta) == Some(OverlayEvent::<S>::ConsoleScroll { delta }),
{
}

/// A coordinate or a length of a moderate size.
pub open spec fn moderate(v: i64) -> bool {
    -0x100_0000_0000 <= v <= 0x100_0000_0000
}

/// A rectangle of moderate coordinates.
pub open spec fn moderate_rect(r: RectF<i64>) -> bool {
    moderate(r.x) && moderate(r.y) && moderate(r.w) && moderate(r.h)
}

/// The point (`x`, `y`) lies in `r`, edges included.
pub open spec fn within(r: RectF<i64>, x: i64, y: i64) -> bool {
    r.x <= x <= r.x + r.w && r.y <= y <= r.y + r.h
}

/// What is dragged follows the pointer: a moved fence or console by exactly the pointer's way
/// since the press, and of a resized one every edge that the zone takes hold of, while every
/// other edge stays. The console is held at its upper left.
pub proof fn law_dragged_follows_pointer(m: HitModel<i64>, d: DragState<i64>, mx: i64, my: i64, ev: OverlayEvent<i64>)
    requires
        reports(m, d, mx, my, ev),
        moderate_rect(d.orig),
        moderate(d.start.0) && moderate(d.start.1) && moderate(mx) && moderate(my),
    ensures
        d.kind is Move ==> (ev matches OverlayEvent::FenceMove { fence, pos } && fence == d.fence && pos.0 - d.orig.x
            == mx - d.start.0 && pos.1 - d.orig.y == my - d.start.1),
        d.kind is ConsoleMove ==> (ev matches OverlayEvent::ConsoleMove { pos } && pos.0 - d.orig.x == mx - d.start.0
            && pos.1 - d.orig.y == my - d.start.1),
        d.kind matches DragKind::Resize(held) ==> (ev matches OverlayEvent::FenceResize { fence, zone, rect } && fence
            == d.fence && zone == held && edges_follow(
            d.orig,
            rect,
            held is Left || held is BottomLeft,
            held is TopRight,
            held is Right || held is BottomRight || held is TopRight,
            held is Bottom || held is BottomRight || held is BottomLeft,
            mx - d.start.0,
            my - d.start.1,
        )),
        d.kind matches DragKind::ConsoleResize(held) ==> (ev matches OverlayEvent::ConsoleResize { rect }
            && edges_follow(
            d.orig,
            rect,
            false,
            false,
            held is Right || held is BottomRight,
            held is Bottom || held is BottomRight,
            mx - d.start.0,
            my - d.start.1,
        )),
{
}

/// Of the edges of `r` those that are held are moved by (`dx`, `dy`) in `q` and the others
/// are where they were.
pub open spec fn edges_follow(
    r: RectF<i64>,
    q: (i64, i64, i64, i64),
    left: bool,
    top: bool,
    right: bool,
    bottom: bool,
    dx: int,
    dy: int,
) -> bool {
    &&& left ==> q.0 == r.x + dx
    &&& !left ==> q.0 == r.x
    &&& top ==> q.1 == r.y + dy
    &&& !top ==> q.1 == r.y
    &&& right ==> q.0 + q.2 == r.x + r.w + dx
    &&& !right ==> q.0 + q.2 == r.x + r.w
    &&& bottom ==> q.1 + q.3 == r.y + r.h + dy
    &&& !bottom ==> q.1 + q.3 == r.y + r.h
}

/// A rubber band spans from the press to the pointer: it holds both points and nothing beyond
/// them, wherever the pointer went. With the two changing places it is the same.
pub proof fn law_band_spans_press_and_pointer(
    m: HitModel<i64>,
    d: DragState<i64>,
    mx: i64,
    my: i64,
    ev: OverlayEvent<i64>,
)
    requires
        d.kind is Select,
        reports(m, d, mx, my, ev),
        moderate(d.start.0) && moderate(d.start.1) && moderate(mx) && moderate(my),
    ensures
        ev matches OverlayEvent::SelectDrag { fence, rect, .. } && {
            &&& fence == d.fence
            &&& rect.0 <= d.start.0 && rect.0 <= mx && (rect.0 == d.start.0 || rect.0 == mx)
            &&& rect.1 <= d.start.1 && rect.1 <= my && (rect.1 == d.start.1 || rect.1 == my)
            &&& d.start.0 <= rect.0 + rect.2 && mx <= rect.0 + rect.2
            &&& rect.0 + rect.2 == d.start.0 || rect.0 + rect.2 == mx
            &&& d.start.1 <= rect.1 + rect.3 && my <= rect.1 + rect.3
            &&& rect.1 + rect.3 == d.start.1 || rect.1 + rect.3 == my
        },
        between(d.start, (mx, my)) == between((mx, my), d.start),
{
}

/// The icon `h` reaches between the two points: it shares a point with the rectangle that
/// they span.
pub open spec fn reaches_between(h: IconHit<i64>, a: (i64, i64), x: i64, y: i64) -> bool {
    &&& h.rect.x <= a.0 || h.rect.x <= x
    &&& a.0 <= h.rect.x + h.rect.w || x <= h.rect.x + h.rect.w
    &&& h.rect.y <= a.1 || h.rect.y <= y
    &&& a.1 <= h.rect.y + h.rect.h || y <= h.rect.y + h.rect.h
}

/// A rubber band selects exactly the icons of its fence that reach between the press and the
/// pointer.
pub proof fn law_band_selects_what_it_meets(
    m: HitModel<i64>,
    d: DragState<i64>,
    mx: i64,
    my: i64,
    ev: OverlayEvent<i64>,
    key: (usize, usize),
)
    requires
        d.kind is Select,
        reports(m, d, mx, my, ev),
        moderate(d.start.0) && moderate(d.start.1) && moderate(mx) && moderate(my),
        forall|k: int| 0 <= k < m.icons.len() ==> moderate_rect((#[trigger] m.icons@[k]).rect),
    ensures
        ev matches OverlayEvent::SelectDrag { selected, .. } && (selected@.contains(key) <==> key.0 == d.fence
            && exists|k: int|
            0 <= k < m.icons.len() && (#[trigger] m.icons@[k]).fence == key.0 && m.icons@[k].icon == key.1
                && reaches_between(m.icons@[k], d.start, mx, my)),
{
    let band = between(d.start, (mx, my));
    let p = in_band(d.fence, band);
    let f = m.icons@.filter(p);
    let s = banded(m.icons@, d.fence, band);
    assert forall|k: int| 0 <= k < m.icons.len() && (#[trigger] m.icons@[k]).fence == d.fence implies p(m.icons@[k])
        == reaches_between(m.icons@[k], d.start, mx, my) by {
        assert(moderate_rect(m.icons@[k].rect));
    }
    if s.contains(key) {
        let j = choose|j: int| 0 <= j < s.len() && s[j] == key;
        assert(f.contains(f[j]));
        search::lemma_filtered(m.icons@, p, f[j]);
        let k = choose|k: int| 0 <= k < m.icons.len() && m.icons@[k] == f[j];
        assert(reaches_between(m.icons@[k], d.start, mx, my));
    }
    if key.0 == d.fence && exists|k: int|
        0 <= k < m.icons.len() && (#[trigger] m.icons@[k]).fence == key.0 && m.icons@[k].icon == key.1
            && reaches_between(m.icons@[k], d.start, mx, my) {
        let k = choose|k: int|
            0 <= k < m.icons.len() && (#[trigger] m.icons@[k]).fence == key.0 && m.icons@[k].icon == key.1
                && reaches_between(m.icons@[k], d.start, mx, my);
        assert(p(m.icons@[k]));
        search::lemma_filtered(m.icons@, p, m.icons@[k]);
        let j = choose|j: int| 0 <= j < f.len() && f[j] == m.icons@[k];
        assert(s[j] == key);
    }
}

/// Releasing the button ends what was dragged, and nothing else; a fence that was pressed on
/// an icon also reports a click on that icon if the pointer is less than five pixels away
/// from where it was pressed, and only then.
pub proof fn law_short_drag_is_a_click(d: DragState<i64>, mx: i64, my: i64)
    requires
        moderate(d.start.0) && moderate(d.start.1) && moderate(mx) && moderate(my),
    ensures
        ({
            let dx = mx - d.start.0;
            let dy = my - d.start.1;
            let s = released(d, mx, my);
            &&& s.len() > 0
            &&& s.len() > 1 <==> d.kind is Move && d.pressed_icon is Some && dx * dx + dy * dy < 25
            &&& s.len() > 1 ==> s.len() == 2 && s[0] == (OverlayEvent::<i64>::IconClicked {
                fence: d.fence,
                icon: d.pressed_icon->0,
                ctrl: d.ctrl,
            })
            &&& d.kind is Move || d.kind is Resize ==> s.last() == (OverlayEvent::<i64>::FenceDragEnd { fence: d.fence })
            &&& d.kind is Select ==> s.last() is SelectEnd
            &&& d.kind is ConsoleMove ==> s.last() is ConsoleDragEnd
            &&& d.kind is ConsoleResize ==> s.last() is ConsoleResizeEnd
        }),
{
    let dx = mx - d.start.0;
    let dy = my - d.start.1;
    assert(0 <= dx * dx <= 0x200_0000_0000 * 0x200_0000_0000) by (nonlinear_arith)
        requires
            -0x200_0000_0000 <= dx <= 0x200_0000_0000,
    ;
    assert(0 <= dy * dy <= 0x200_0000_0000 * 0x200_0000_0000) by (nonlinear_arith)
        requires
            -0x200_0000_0000 <= dy <= 0x200_0000_0000,
    ;
    let sx = Scalar::sub(mx, d.start.0);
    let sy = Scalar::sub(my, d.start.1);
    assert(sx == dx && sy == dy);
    assert(sx * sx == dx * dx && sy * sy == dy * dy);
    let five = scalar::num::<i64>(5);
    assert(five == 5 && Scalar::mul(five, five) == 25);
    assert(is_click(d, mx, my) <==> dx * dx + dy * dy < 25);
}

/// A drag that a press on the fences begins takes hold of a fence that is under the pointer,
/// as it is at the press; an edge is taken only where the pointer is near to it, the body of
/// an icon only where the icon is, and where no fence is nothing happens.
pub proof fn law_press_takes_what_is_there(m: HitModel<i64>, mx: i64, my: i64, ctrl: bool)
    requires
        !overlay::on_console(m, mx, my),
        moderate(mx) && moderate(my),
        forall|k: int|
            0 <= k < m.fences.len() ==> moderate_rect((#[trigger] m.fences@[k]).body) && moderate_rect(
                m.fences@[k].title,
            ),
        forall|k: int| 0 <= k < m.icons.len() ==> moderate_rect((#[trigger] m.icons@[k]).rect),
    ensures
        match press_at(m, mx, my, ctrl) {
            Press::Nothing => forall|k: int|
                0 <= k < m.fences.len() ==> !within((#[trigger] m.fences@[k]).body, mx, my) && !within(
                    m.fences@[k].title,
                    mx,
                    my,
                ),
            Press::Click(_) => false,
            Press::Drag(d, _) => {
                &&& d.start == (mx, my)
                &&& exists|k: int|
                    0 <= k < m.fences.len() && (#[trigger] m.fences@[k]).id == d.fence && m.fences@[k].body == d.orig
                        && (within(m.fences@[k].body, mx, my) || (d.kind is Move && within(m.fences@[k].title, mx, my)))
                &&& d.kind is Move || d.kind is Select || d.kind is Resize
                &&& d.kind matches DragKind::Resize(zone) ==> near_held_edges(d.orig, zone, mx, my)
                &&& d.pressed_icon matches Some(i) ==> exists|k: int|
                    0 <= k < m.icons.len() && (#[trigger] m.icons@[k]).fence == d.fence && m.icons@[k].icon == i && within(
                        m.icons@[k].rect,
                        mx,
                        my,
                    )
                &&& d.kind is Select ==> forall|k: int|
                    0 <= k < m.icons.len() && (#[trigger] m.icons@[k]).fence == d.fence ==> !within(
                        m.icons@[k].rect,
                        mx,
                        my,
                    )
            },
        },
{
    search::lemma_first_from(m.fences@, overlay::body_holds(mx, my), 0);
    search::lemma_first_from(m.fences@, overlay::title_holds(mx, my), 0);
    let b = search::first_from(m.fences@, overlay::body_holds(mx, my), 0);
    let t = search::first_from(m.fences@, overlay::title_holds(mx, my), 0);
    assert forall|k: int| 0 <= k < m.fences.len() implies (#[trigger] overlay::body_holds(mx, my)(m.fences@[k])
        == within(m.fences@[k].body, mx, my)) by {
        assert(moderate_rect(m.fences@[k].body));
    }
    assert forall|k: int| 0 <= k < m.fences.len() implies (#[trigger] overlay::title_holds(mx, my)(m.fences@[k])
        == within(m.fences@[k].title, mx, my)) by {
        assert(moderate_rect(m.fences@[k].title));
    }
    if b < m.fences.len() {
        let id = m.fences@[b].id;
        search::lemma_first_from(m.icons@, overlay::icon_of_holds(id, mx, my), 0);
        assert forall|k: int|
            0 <= k < m.icons.len() && (#[trigger] m.icons@[k]).fence == id implies overlay::icon_of_holds(id, mx, my)(
            m.icons@[k],
        ) == within(m.icons@[k].rect, mx, my) by {
            assert(moderate_rect(m.icons@[k].rect));
        }
        assert(m.fences@[b].body.holds(mx, my));
    }
    if t < m.fences.len() {
        assert(m.fences@[t].title.holds(mx, my));
    }
}

/// The pointer is within twelve pixels of each edge that the zone holds.
pub open spec fn near_held_edges(r: RectF<i64>, zone: ResizeZone, mx: i64, my: i64) -> bool {
    &&& zone is Left || zone is BottomLeft ==> mx <= r.x + 12
    &&& zone is Right || zone is BottomRight || zone is TopRight ==> r.x + r.w - 12 <= mx
    &&& zone is TopRight ==> my <= r.y + 12
    &&& zone is Bottom || zone is BottomRight || zone is BottomLeft ==> r.y + r.h - 12 <= my
}

/// Every edge of a fence but the upper one can be taken hold of, along all of its length.
pub proof fn law_edges_can_be_held(f: FenceHit<i64>, mx: i64, my: i64)
    requires
        moderate(mx) && moderate(my),
        moderate_rect(f.body),
        within(f.body, mx, my),
        mx <= f.body.x + 9 || f.body.x + f.body.w - 9 <= mx || f.body.y + f.body.h - 9 <= my,
    ensures
        overlay::fence_grip_at(f.body, mx, my) is Some,
{
}

/// What hovering, a double click, the right button, the wheel and dropped files are for lies
/// under the pointer: it is an icon or a fence that holds the point, and nothing where none
/// does. Only files that are dropped beside every fence go to the first one.
pub proof fn law_pointing_finds_what_is_there(m: HitModel<i64>, mx: i64, my: i64, delta: i32)
    requires
        moderate(mx) && moderate(my),
        forall|k: int|
            0 <= k < m.fences.len() ==> moderate_rect((#[trigger] m.fences@[k]).body) && moderate_rect(
                m.fences@[k].title,
            ) && moderate_rect(m.fences@[k].grip),
        forall|k: int| 0 <= k < m.icons.len() ==> moderate_rect((#[trigger] m.icons@[k]).rect),
    ensures
        match search::first(m.icons@, overlay::icon_holds(mx, my)) {
            Some(i) => m.icons@.contains(i) && within(i.rect, mx, my),
            None => forall|k: int| 0 <= k < m.icons.len() ==> !within((#[trigger] m.icons@[k]).rect, mx, my),
        },
        match menu_at(m, mx, my) {
            Some(ev) => ev matches OverlayEvent::ContextMenu { fence, icon, pos } && pos == (mx, my) && (icon matches Some(
                i,
            ) ==> exists|k: int|
                0 <= k < m.icons.len() && (#[trigger] m.icons@[k]).fence == fence && m.icons@[k].icon == i && within(
                    m.icons@[k].rect,
                    mx,
                    my,
                )) && (icon is None ==> exists|k: int|
                0 <= k < m.fences.len() && (#[trigger] m.fences@[k]).id == fence && within(m.fences@[k].body, mx, my)),
            None => (forall|k: int| 0 <= k < m.fences.len() ==> !within((#[trigger] m.fences@[k]).body, mx, my)) && (
            forall|k: int| 0 <= k < m.icons.len() ==> !within((#[trigger] m.icons@[k]).rect, mx, my)),
        },
        !overlay::on_console(m, mx, my) && delta != 0 ==> match wheel_at(m, mx, my, delta) {
            Some(ev) => ev matches OverlayEvent::FenceScroll { fence, delta: turned } && turned == delta && exists|k: int|
                0 <= k < m.fences.len() && (#[trigger] m.fences@[k]).id == fence && within(m.fences@[k].body, mx, my),
            None => forall|k: int| 0 <= k < m.fences.len() ==> !within((#[trigger] m.fences@[k]).body, mx, my),
        },
        !overlay::on_console(m, mx, my) ==> match overlay::hover_of(m, mx, my) {
            Some((fence, Some(i))) => exists|k: int|
                0 <= k < m.icons.len() && (#[trigger] m.icons@[k]).fence == fence && m.icons@[k].icon == i && within(
                    m.icons@[k].rect,
                    mx,
                    my,
                ),
            Some((fence, None)) => exists|k: int|
                0 <= k < m.fences.len() && (#[trigger] m.fences@[k]).id == fence && within(m.fences@[k].body, mx, my),
            None => (forall|k: int| 0 <= k < m.fences.len() ==> !within((#[trigger] m.fences@[k]).body, mx, my)) && (
            forall|k: int| 0 <= k < m.icons.len() ==> !within((#[trigger] m.icons@[k]).rect, mx, my)),
        },
        match drop_target(m, mx, my) {
            Some(fence) => exists|k: int|
                0 <= k < m.fences.len() && (#[trigger] m.fences@[k]).id == fence && (part_within(m.fences@[k], mx, my) || (k
                    == 0 && forall|j: int| 0 <= j < m.fences.len() ==> !part_within(#[trigger] m.fences@[j], mx, my))),
            None => m.fences.len() == 0,
        },
{
    search::lemma_first_from(m.icons@, overlay::icon_holds(mx, my), 0);
    search::lemma_first_from(m.fences@, overlay::body_holds(mx, my), 0);
    search::lemma_first_from(m.fences@, overlay::any_part_holds(mx, my), 0);
    assert forall|k: int| 0 <= k < m.icons.len() implies (#[trigger] overlay::icon_holds(mx, my)(m.icons@[k]) == within(
        m.icons@[k].rect,
        mx,
        my,
    )) by {
        assert(moderate_rect(m.icons@[k].rect));
    }
    assert forall|k: int| 0 <= k < m.fences.len() implies (#[trigger] overlay::body_holds(mx, my)(m.fences@[k])
        == within(m.fences@[k].body, mx, my)) by {
        assert(moderate_rect(m.fences@[k].body));
    }
    assert forall|k: int| 0 <= k < m.fences.len() implies (#[trigger] overlay::any_part_holds(mx, my)(m.fences@[k])
        == part_within(m.fences@[k], mx, my)) by {
        assert(moderate_rect(m.fences@[k].body));
    }
    if search::first_from(m.fences@, overlay::any_part_holds(mx, my), 0) >= m.fences.len() && m.fences.len() > 0 {
        assert(m.fences@[0].id == drop_target(m, mx, my)->0);
        assert forall|j: int| 0 <= j < m.fences.len() implies !part_within(#[trigger] m.fences@[j], mx, my) by {
            assert(!overlay::any_part_holds(mx, my)(m.fences@[j]));
        }
    }
}

/// The point lies in the fence, its title or its handle.
pub open spec fn part_within(f: FenceHit<i64>, x: i64, y: i64) -> bool {
    within(f.body, x, y) || within(f.title, x, y) || within(f.grip, x, y)
}

/// A control of the console that is used or hovered lies under the pointer, and so does the
/// console.
pub proof fn law_used_control_is_there(m: HitModel<i64>, mx: i64, my: i64, ctrl: bool)
    requires
        m.console is Some,
        moderate(mx) && moderate(my),
        moderate_rect(m.console->0.rect),
        forall|k: int| 0 <= k < m.console->0.zones.len() ==> moderate_rect((#[trigger] m.console->0.zones@[k]).1),
    ensures
        press_at(m, mx, my, ctrl) matches Press::Click(zone) ==> within(m.console->0.rect, mx, my) && exists|k: int|
            0 <= k < m.console->0.zones.len() && (#[trigger] m.console->0.zones@[k]).0 == zone && within(
                m.console->0.zones@[k].1,
                mx,
                my,
            ),
        zone_under(m, mx, my) matches Some(zone) ==> press_at(m, mx, my, ctrl) == Press::Click(zone),
        within(m.console->0.rect, mx, my) && zone_under(m, mx, my) is None ==> forall|k: int|
            0 <= k < m.console->0.zones.len() ==> !within((#[trigger] m.console->0.zones@[k]).1, mx, my),
{
    let c = m.console->0;
    search::lemma_first_from(c.zones@, overlay::zone_holds(mx, my), 0);
    assert forall|k: int| 0 <= k < c.zones.len() implies (#[trigger] overlay::zone_holds(mx, my)(c.zones@[k]) == within(
        c.zones@[k].1,
        mx,
        my,
    )) by {
        assert(moderate_rect(c.zones@[k].1));
    }
}

/// The shape of the pointer tells what a resize will change: sideways arrows the width alone,
/// upright ones the height alone, and slanted ones both, in one sense where they fall to the
/// right and in opposite senses where they rise.
pub proof fn law_pointer_tells_the_resize(r: RectF<i64>, zone: ResizeZone, dx: i64, dy: i64)
    requires
        moderate_rect(r),
        moderate(dx),
        moderate(dy),
    ensures
        ({
            let q = stretched(r, zone, dx, dy);
            match zone.shape() {
                CursorShape::Horizontal => q.h == r.h && (q.w == r.w + dx || q.w == r.w - dx),
                CursorShape::Vertical => q.w == r.w && q.h == r.h + dy,
                CursorShape::FallingDiagonal => q.w == r.w + dx && q.h == r.h + dy,
                CursorShape::RisingDiagonal => (q.w == r.w + dx && q.h == r.h - dy) || (q.w == r.w - dx && q.h == r.h
                    + dy),
                _ => false,
            }
        }),
{
}

/// The pointer shows what a press would do: a drag that a press begins beside icons has the
/// shape that the pointer had before it, unless a control of the console or another fence is
/// in the way.
pub proof fn law_pointer_shows_the_press<S: Scalar>(m: HitModel<S>, mx: S, my: S, ctrl: bool)
    requires
        overlay::on_console(m, mx, my) ==> overlay::zone_at(m.console->0, mx, my) is None,
        !overlay::on_console(m, mx, my) ==> search::first(m.fences@, overlay::body_or_title_holds(mx, my))
            == search::first(m.fences@, overlay::body_holds(mx, my)) && search::first(
            m.fences@,
            overlay::body_or_title_holds(mx, my),
        ) is Some && (search::first(m.fences@, overlay::title_holds(mx, my)) is Some ==> search::first(
            m.fences@,
            overlay::title_holds(mx, my),
        ) == search::first(m.fences@, overlay::body_or_title_holds(mx, my))),
    ensures
        press_at(m, mx, my, ctrl) matches Press::Drag(d, Some(c)) ==> d.pressed_icon is Some
            || overlay::shape_at(m, mx, my) == c,
        press_at(m, mx, my, ctrl) is Nothing ==> overlay::shape_at(m, mx, my) == CursorShape::Arrow,
{
    let p = overlay::title_holds::<S>(mx, my);
    search::lemma_first_from(m.fences@, p, 0);
}

/// An icon that the pointer comes on is told with its fence; where there is none under the
/// pointer, it is told to have left.
pub proof fn law_hover_tells_the_icon<S>(fence: usize, icon: usize)
    ensures
        hover_event::<S>(Some((fence, Some(icon)))) == (OverlayEvent::<S>::HoverEnter { fence, icon }),
        hover_event::<S>(Some((fence, None))) == OverlayEvent::<S>::HoverLeave,
        hover_event::<S>(None) == OverlayEvent::<S>::HoverLeave,
{
}

} // verus!
