//! The transparent window over the desktop: what lies under the pointer, and what the
//! pointer's presses and moves amount to.
//!
//! Coordinates are those of the virtual screen. A press on the console goes to the console
//! before anything else; on a fence, edges come before the title and the title before the
//! body.

use vstd::prelude::*;

use crate::model::{FenceLayout, FenceStyle, SidebarPosition};
use crate::scalar;
use crate::scalar::{whole_number, Scalar};
use crate::search;

verus! {

/// Width of the strip along an edge that resizes.
pub const EDGE_RESIZE: i64 = 9;

/// Size of the area at a corner that resizes.
pub const CORNER_RESIZE: i64 = 12;

/// Size of the handle at the lower right corner of a fence.
pub const GRIP_SIZE: i64 = 26;

/// A press and release closer together than this is a click.
pub const CLICK_DRAG_THRESHOLD: i64 = 5;

/// A rectangle of the virtual screen.
#[derive(Debug, Clone, Copy, PartialEq)]
pub struct RectF<S> {
    pub x: S,
    pub y: S,
    pub w: S,
    pub h: S,
}

impl<S: Scalar> RectF<S> {
    pub open spec fn right_edge(self) -> S {
        self.x.add(self.w)
    }

    pub open spec fn bottom_edge(self) -> S {
        self.y.add(self.h)
    }

    /// The point is inside, edges included.
    pub open spec fn holds(self, px: S, py: S) -> bool {
        self.x.le(px) && px.le(self.right_edge()) && self.y.le(py) && py.le(self.bottom_edge())
    }

    /// Whether the point is inside, edges included.
    pub fn contains(&self, px: S, py: S) -> (r: bool)
        ensures
            r == self.holds(px, py),
    {
        self.x.at_most(px) && px.at_most(self.x.plus(self.w)) && self.y.at_most(py) && py.at_most(
            self.y.plus(self.h),
        )
    }

    /// The two rectangles share a point; a shared edge counts.
    pub open spec fn meets(self, o: RectF<S>) -> bool {
        self.x.le(o.right_edge()) && o.x.le(self.right_edge()) && self.y.le(o.bottom_edge()) && o.y.le(
            self.bottom_edge(),
        )
    }

    /// The empty rectangle at the origin.
    pub open spec fn none() -> RectF<S> {
        RectF { x: scalar::num(0), y: scalar::num(0), w: scalar::num(0), h: scalar::num(0) }
    }

    /// The empty rectangle at the origin.
    pub fn nothing() -> (r: Self)
        ensures
            r == Self::none(),
    {
        RectF { x: whole_number(0), y: whole_number(0), w: whole_number(0), h: whole_number(0) }
    }
}

/// Whether two rectangles meet; a shared edge counts.
pub fn rect_overlap<S: Scalar>(a: RectF<S>, b: RectF<S>) -> (r: bool)
    ensures
        r == a.meets(b),
{
    a.x.at_most(b.x.plus(b.w)) && b.x.at_most(a.x.plus(a.w)) && a.y.at_most(b.y.plus(b.h)) && b.y.at_most(
        a.y.plus(a.h),
    )
}

/// The areas of a fence that react to the pointer.
#[derive(Debug, Clone, Copy, PartialEq)]
pub struct FenceHit<S> {
    pub body: RectF<S>,
    /// The title bar, by which the fence is moved.
    pub title: RectF<S>,
    /// The handle at the lower right corner.
    pub grip: RectF<S>,
    /// The label shown beside a sidebar's icon.
    pub tooltip: Option<RectF<S>>,
    pub is_sidebar: bool,
    /// Index of the fence.
    pub id: usize,
}

/// The area of an icon.
#[derive(Debug, Clone, Copy, PartialEq)]
pub struct IconHit<S> {
    pub rect: RectF<S>,
    /// Index of the fence.
    pub fence: usize,
    /// Index of the icon in the fence.
    pub icon: usize,
}

/// The controls of the console.
#[derive(Debug, Clone, Copy, PartialEq)]
pub enum ConsoleZone<S> {
    /// Folds the console into its pill.
    Close,
    /// Unfolds the console.
    Expand,
    Tab(usize),
    /// Shows the plain desktop in place of the fences, or the fences again.
    DesktopToggle,
    FenceSelect(usize),
    FenceLayout(FenceLayout),
    FenceIconSize(S),
    FenceStyle(FenceStyle),
    FenceTint(Option<[S; 3]>),
    FenceSidebarPos(SidebarPosition),
    AddFence,
    RemoveFence,
    ChangeStoragePath,
    /// Takes the text of the name field as a new thing to do.
    Add,
    /// Ticks a thing to do, or takes its tick away.
    Toggle(usize),
    /// Deletes a thing to do.
    Delete(usize),
    /// The field for the name of a thing to do.
    Input,
    /// The field for the details of a thing to do.
    DetailInput,
    /// Switches a plugin on or off.
    PluginToggle(usize),
    OpenPluginDir,
    /// The field in which a note is written.
    NotesEdit,
}

/// Two colours are the same, channel by channel.
pub open spec fn same_color<S: Scalar>(a: [S; 3], b: [S; 3]) -> bool {
    a@[0].same_as(b@[0]) && a@[1].same_as(b@[1]) && a@[2].same_as(b@[2])
}

impl<S: Scalar> ConsoleZone<S> {
    /// The same control.
    pub open spec fn same(self, o: ConsoleZone<S>) -> bool {
        match (self, o) {
            (ConsoleZone::FenceIconSize(a), ConsoleZone::FenceIconSize(b)) => a.same_as(b),
            (ConsoleZone::FenceTint(Some(a)), ConsoleZone::FenceTint(Some(b))) => same_color(a, b),
            _ => self == o,
        }
    }

    /// Whether it is the same control.
    pub fn is_same(&self, o: &ConsoleZone<S>) -> (r: bool)
        ensures
            r == self.same(*o),
    {
        match (*self, *o) {
            (ConsoleZone::Close, ConsoleZone::Close) => true,
            (ConsoleZone::Expand, ConsoleZone::Expand) => true,
            (ConsoleZone::Tab(a), ConsoleZone::Tab(b)) => a == b,
            (ConsoleZone::DesktopToggle, ConsoleZone::DesktopToggle) => true,
            (ConsoleZone::FenceSelect(a), ConsoleZone::FenceSelect(b)) => a == b,
            (ConsoleZone::FenceLayout(a), ConsoleZone::FenceLayout(b)) => a == b,
            (ConsoleZone::FenceIconSize(a), ConsoleZone::FenceIconSize(b)) => a.equals(b),
            (ConsoleZone::FenceStyle(a), ConsoleZone::FenceStyle(b)) => a == b,
            (ConsoleZone::FenceTint(Some(a)), ConsoleZone::FenceTint(Some(b))) => a[0].equals(b[0])
                && a[1].equals(b[1]) && a[2].equals(b[2]),
            (ConsoleZone::FenceTint(None), ConsoleZone::FenceTint(None)) => true,
            (ConsoleZone::FenceSidebarPos(a), ConsoleZone::FenceSidebarPos(b)) => a == b,
            (ConsoleZone::AddFence, ConsoleZone::AddFence) => true,
            (ConsoleZone::RemoveFence, ConsoleZone::RemoveFence) => true,
            (ConsoleZone::ChangeStoragePath, ConsoleZone::ChangeStoragePath) => true,
            (ConsoleZone::Add, ConsoleZone::Add) => true,
            (ConsoleZone::Toggle(a), ConsoleZone::Toggle(b)) => a == b,
            (ConsoleZone::Delete(a), ConsoleZone::Delete(b)) => a == b,
            (ConsoleZone::Input, ConsoleZone::Input) => true,
            (ConsoleZone::DetailInput, ConsoleZone::DetailInput) => true,
            (ConsoleZone::PluginToggle(a), ConsoleZone::PluginToggle(b)) => a == b,
            (ConsoleZone::OpenPluginDir, ConsoleZone::OpenPluginDir) => true,
            (ConsoleZone::NotesEdit, ConsoleZone::NotesEdit) => true,
            _ => false,
        }
    }
}

/// The areas of the console.
#[derive(Debug, Clone, PartialEq)]
pub struct ConsoleHit<S> {
    pub rect: RectF<S>,
    /// The title bar, by which the console is moved.
    pub title: RectF<S>,
    /// The controls; of controls that overlap, the earlier one counts.
    pub zones: Vec<(ConsoleZone<S>, RectF<S>)>,
}

/// Everything that reacts to the pointer.
#[derive(Debug, Clone, PartialEq)]
pub struct HitModel<S> {
    pub fences: Vec<FenceHit<S>>,
    pub icons: Vec<IconHit<S>>,
    pub console: Option<ConsoleHit<S>>,
    /// The field in which text is being edited.
    pub edit_rect: Option<RectF<S>>,
}

impl<S> HitModel<S> {
    /// A model in which nothing reacts.
    pub fn empty() -> (m: Self)
        ensures
            m.fences.len() == 0,
            m.icons.len() == 0,
            m.console is None,
            m.edit_rect is None,
    {
        HitModel { fences: Vec::new(), icons: Vec::new(), console: None, edit_rect: None }
    }
}

/// The part of a fence or of the console that a resize takes hold of.
#[derive(Debug, Clone, Copy, PartialEq, Eq, Structural)]
pub enum ResizeZone {
    Right,
    Bottom,
    BottomRight,
    Left,
    BottomLeft,
    TopRight,
}

/// The shape of the pointer.
#[derive(Debug, Clone, Copy, PartialEq, Eq, Structural)]
pub enum CursorShape {
    Arrow,
    Move,
    Horizontal,
    Vertical,
    /// Along the diagonal from the upper left to the lower right.
    FallingDiagonal,
    /// Along the diagonal from the lower left to the upper right.
    RisingDiagonal,
}

impl ResizeZone {
    pub open spec fn shape(self) -> CursorShape {
        match self {
            ResizeZone::Left | ResizeZone::Right => CursorShape::Horizontal,
            ResizeZone::Bottom => CursorShape::Vertical,
            ResizeZone::BottomRight => CursorShape::FallingDiagonal,
            ResizeZone::BottomLeft | ResizeZone::TopRight => CursorShape::RisingDiagonal,
        }
    }
}

/// The pointer over a resizing part.
pub fn zone_cursor(zone: ResizeZone) -> (c: CursorShape)
    ensures
        c == zone.shape(),
{
    match zone {
        ResizeZone::Left | ResizeZone::Right => CursorShape::Horizontal,
        ResizeZone::Bottom => CursorShape::Vertical,
        ResizeZone::BottomRight => CursorShape::FallingDiagonal,
        ResizeZone::BottomLeft | ResizeZone::TopRight => CursorShape::RisingDiagonal,
    }
}

/// The control of the console at the point.
pub open spec fn zone_at<S: Scalar>(c: ConsoleHit<S>, mx: S, my: S) -> Option<ConsoleZone<S>> {
    match search::first(c.zones@, zone_holds(mx, my)) {
        Some(z) => Some(z.0),
        None => None,
    }
}

pub open spec fn zone_holds<S: Scalar>(mx: S, my: S) -> spec_fn((ConsoleZone<S>, RectF<S>)) -> bool {
    |z: (ConsoleZone<S>, RectF<S>)| z.1.holds(mx, my)
}

/// The resizing part of the console at the point: the console is anchored at its upper
/// left.
pub open spec fn console_grip_at<S: Scalar>(r: RectF<S>, mx: S, my: S) -> Option<ResizeZone> {
    let corner = scalar::num::<S>(12);
    let edge = scalar::num::<S>(9);
    if r.right_edge().sub(corner).le(mx) && r.bottom_edge().sub(corner).le(my) {
        Some(ResizeZone::BottomRight)
    } else if r.right_edge().sub(edge).le(mx) {
        Some(ResizeZone::Right)
    } else if r.bottom_edge().sub(edge).le(my) {
        Some(ResizeZone::Bottom)
    } else {
        None
    }
}

/// The resizing part of a fence at the point: corners come before edges.
pub open spec fn fence_grip_at<S: Scalar>(r: RectF<S>, mx: S, my: S) -> Option<ResizeZone> {
    let corner = scalar::num::<S>(12);
    let edge = scalar::num::<S>(9);
    if r.right_edge().sub(corner).le(mx) && r.bottom_edge().sub(corner).le(my) {
        Some(ResizeZone::BottomRight)
    } else if mx.le(r.x.add(corner)) && r.bottom_edge().sub(corner).le(my) {
        Some(ResizeZone::BottomLeft)
    } else if r.right_edge().sub(corner).le(mx) && my.le(r.y.add(corner)) {
        Some(ResizeZone::TopRight)
    } else if r.right_edge().sub(edge).le(mx) {
        Some(ResizeZone::Right)
    } else if mx.le(r.x.add(edge)) {
        Some(ResizeZone::Left)
    } else if r.bottom_edge().sub(edge).le(my) {
        Some(ResizeZone::Bottom)
    } else {
        None
    }
}

pub fn console_zone_at<S: Scalar>(c: &ConsoleHit<S>, mx: S, my: S) -> (r: Option<ConsoleZone<S>>)
    ensures
        r == zone_at(*c, mx, my),
{
    let mut i: usize = 0;
    while i < c.zones.len()
        invariant
            i <= c.zones.len(),
            search::first_from(c.zones@, zone_holds(mx, my), i as int) == search::first_from(
                c.zones@,
                zone_holds(mx, my),
                0,
            ),
        decreases c.zones.len() - i,
    {
        if c.zones[i].1.contains(mx, my) {
            return Some(c.zones[i].0);
        }
        i += 1;
    }
    None
}

pub fn console_resize_zone_at<S: Scalar>(c: &ConsoleHit<S>, mx: S, my: S) -> (r: Option<ResizeZone>)
    ensures
        r == console_grip_at(c.rect, mx, my),
{
    let right = c.rect.x.plus(c.rect.w);
    let bottom = c.rect.y.plus(c.rect.h);
    let corner = whole_number::<S>(CORNER_RESIZE);
    let edge = whole_number::<S>(EDGE_RESIZE);
    if right.minus(corner).at_most(mx) && bottom.minus(corner).at_most(my) {
        Some(ResizeZone::BottomRight)
    } else if right.minus(edge).at_most(mx) {
        Some(ResizeZone::Right)
    } else if bottom.minus(edge).at_most(my) {
        Some(ResizeZone::Bottom)
    } else {
        None
    }
}

pub fn resize_zone_at<S: Scalar>(f: &FenceHit<S>, mx: S, my: S) -> (r: Option<ResizeZone>)
    ensures
        r == fence_grip_at(f.body, mx, my),
{
    let right = f.body.x.plus(f.body.w);
    let bottom = f.body.y.plus(f.body.h);
    let corner = whole_number::<S>(CORNER_RESIZE);
    let edge = whole_number::<S>(EDGE_RESIZE);
    if right.minus(corner).at_most(mx) && bottom.minus(corner).at_most(my) {
        Some(ResizeZone::BottomRight)
    } else if mx.at_most(f.body.x.plus(corner)) && bottom.minus(corner).at_most(my) {
        Some(ResizeZone::BottomLeft)
    } else if right.minus(corner).at_most(mx) && my.at_most(f.body.y.plus(corner)) {
        Some(ResizeZone::TopRight)
    } else if right.minus(edge).at_most(mx) {
        Some(ResizeZone::Right)
    } else if mx.at_most(f.body.x.plus(edge)) {
        Some(ResizeZone::Left)
    } else if bottom.minus(edge).at_most(my) {
        Some(ResizeZone::Bottom)
    } else {
        None
    }
}

pub open spec fn body_holds<S: Scalar>(mx: S, my: S) -> spec_fn(FenceHit<S>) -> bool {
    |f: FenceHit<S>| f.body.holds(mx, my)
}

pub open spec fn title_holds<S: Scalar>(mx: S, my: S) -> spec_fn(FenceHit<S>) -> bool {
    |f: FenceHit<S>| f.title.holds(mx, my)
}

pub open spec fn body_or_title_holds<S: Scalar>(mx: S, my: S) -> spec_fn(FenceHit<S>) -> bool {
    |f: FenceHit<S>| f.body.holds(mx, my) || f.title.holds(mx, my)
}

pub open spec fn any_part_holds<S: Scalar>(mx: S, my: S) -> spec_fn(FenceHit<S>) -> bool {
    |f: FenceHit<S>| f.body.holds(mx, my) || f.title.holds(mx, my) || f.grip.holds(mx, my)
}

pub open spec fn icon_holds<S: Scalar>(mx: S, my: S) -> spec_fn(IconHit<S>) -> bool {
    |i: IconHit<S>| i.rect.holds(mx, my)
}

pub open spec fn icon_of_holds<S: Scalar>(fence: usize, mx: S, my: S) -> spec_fn(IconHit<S>) -> bool {
    |i: IconHit<S>| i.fence == fence && i.rect.holds(mx, my)
}

pub fn fence_with_body<S: Scalar>(m: &HitModel<S>, mx: S, my: S) -> (r: usize)
    ensures
        r == search::first_from(m.fences@, body_holds(mx, my), 0),
        r <= m.fences.len(),
{
    let mut i: usize = 0;
    while i < m.fences.len()
        invariant
            i <= m.fences.len(),
            search::first_from(m.fences@, body_holds(mx, my), i as int) == search::first_from(
                m.fences@,
                body_holds(mx, my),
                0,
            ),
        decreases m.fences.len() - i,
    {
        if m.fences[i].body.contains(mx, my) {
            return i;
        }
        i += 1;
    }
    i
}

pub fn fence_with_title<S: Scalar>(m: &HitModel<S>, mx: S, my: S) -> (r: usize)
    ensures
        r == search::first_from(m.fences@, title_holds(mx, my), 0),
        r <= m.fences.len(),
{
    let mut i: usize = 0;
    while i < m.fences.len()
        invariant
            i <= m.fences.len(),
            search::first_from(m.fences@, title_holds(mx, my), i as int) == search::first_from(
                m.fences@,
                title_holds(mx, my),
                0,
            ),
        decreases m.fences.len() - i,
    {
        if m.fences[i].title.contains(mx, my) {
            return i;
        }
        i += 1;
    }
    i
}

fn fence_with_body_or_title<S: Scalar>(m: &HitModel<S>, mx: S, my: S) -> (r: usize)
    ensures
        r == search::first_from(m.fences@, body_or_title_holds(mx, my), 0),
        r <= m.fences.len(),
{
    let mut i: usize = 0;
    while i < m.fences.len()
        invariant
            i <= m.fences.len(),
            search::first_from(m.fences@, body_or_title_holds(mx, my), i as int) == search::first_from(
                m.fences@,
                body_or_title_holds(mx, my),
                0,
            ),
        decreases m.fences.len() - i,
    {
        if m.fences[i].body.contains(mx, my) || m.fences[i].title.contains(mx, my) {
            return i;
        }
        i += 1;
    }
    i
}

pub fn icon_at<S: Scalar>(m: &HitModel<S>, mx: S, my: S) -> (r: usize)
    ensures
        r == search::first_from(m.icons@, icon_holds(mx, my), 0),
        r <= m.icons.len(),
{
    let mut i: usize = 0;
    while i < m.icons.len()
        invariant
            i <= m.icons.len(),
            search::first_from(m.icons@, icon_holds(mx, my), i as int) == search::first_from(
                m.icons@,
                icon_holds(mx, my),
                0,
            ),
        decreases m.icons.len() - i,
    {
        if m.icons[i].rect.contains(mx, my) {
            return i;
        }
        i += 1;
    }
    i
}

/// The icon of the fence `fence` under the point.
pub open spec fn pressed_icon<S: Scalar>(m: HitModel<S>, fence: usize, mx: S, my: S) -> Option<usize> {
    match search::first(m.icons@, icon_of_holds(fence, mx, my)) {
        Some(i) => Some(i.icon),
        None => None,
    }
}

pub fn icon_of_fence_at<S: Scalar>(m: &HitModel<S>, fence: usize, mx: S, my: S) -> (r: Option<usize>)
    ensures
        r == pressed_icon(*m, fence, mx, my),
{
    let mut i: usize = 0;
    while i < m.icons.len()
        invariant
            i <= m.icons.len(),
            search::first_from(m.icons@, icon_of_holds(fence, mx, my), i as int) == search::first_from(
                m.icons@,
                icon_of_holds(fence, mx, my),
                0,
            ),
        decreases m.icons.len() - i,
    {
        if m.icons[i].fence == fence && m.icons[i].rect.contains(mx, my) {
            return Some(m.icons[i].icon);
        }
        i += 1;
    }
    None
}

/// The point is on the console.
pub open spec fn on_console<S: Scalar>(m: HitModel<S>, mx: S, my: S) -> bool {
    m.console matches Some(c) && c.rect.holds(mx, my)
}

/// The shape of the pointer at a point. On the console, edges resize and the title moves
/// unless a control is there. On fences, edges resize and titles move.
pub open spec fn shape_at<S: Scalar>(m: HitModel<S>, mx: S, my: S) -> CursorShape {
    if on_console(m, mx, my) {
        let c = m.console->0;
        match console_grip_at(c.rect, mx, my) {
            Some(zone) => zone.shape(),
            None => if c.title.holds(mx, my) && zone_at(c, mx, my) is None {
                CursorShape::Move
            } else {
                CursorShape::Arrow
            },
        }
    } else {
        match search::first(m.fences@, body_or_title_holds(mx, my)) {
            None => CursorShape::Arrow,
            Some(f) => match fence_grip_at(f.body, mx, my) {
                Some(zone) => zone.shape(),
                None => if f.title.holds(mx, my) {
                    CursorShape::Move
                } else {
                    CursorShape::Arrow
                },
            },
        }
    }
}

/// The shape of the pointer at a point.
pub fn cursor_at<S: Scalar>(model: &HitModel<S>, mx: S, my: S) -> (r: CursorShape)
    ensures
        r == shape_at(*model, mx, my),
{
    match &model.console {
        Some(c) => {
            if c.rect.contains(mx, my) {
                return match console_resize_zone_at(c, mx, my) {
                    Some(zone) => zone_cursor(zone),
                    None => if c.title.contains(mx, my) && console_zone_at(c, mx, my).is_none() {
                        CursorShape::Move
                    } else {
                        CursorShape::Arrow
                    },
                };
            }
        },
        None => {},
    }
    let k = fence_with_body_or_title(model, mx, my);
    if k >= model.fences.len() {
        return CursorShape::Arrow;
    }
    let f = &model.fences[k];
    match resize_zone_at(f, mx, my) {
        Some(zone) => zone_cursor(zone),
        None => if f.title.contains(mx, my) {
            CursorShape::Move
        } else {
            CursorShape::Arrow
        },
    }
}

/// What the pointer is over, as a fence and perhaps an icon of it: icons before fences,
/// and nothing while it is over the console.
pub open spec fn hover_of<S: Scalar>(m: HitModel<S>, mx: S, my: S) -> Option<(usize, Option<usize>)> {
    if on_console(m, mx, my) {
        None
    } else {
        match search::first(m.icons@, icon_holds(mx, my)) {
            Some(i) => Some((i.fence, Some(i.icon))),
            None => match search::first(m.fences@, body_holds(mx, my)) {
                Some(f) => Some((f.id, None)),
                None => None,
            },
        }
    }
}

/// What the pointer is over.
pub fn hover_key<S: Scalar>(model: &HitModel<S>, mx: S, my: S) -> (r: Option<(usize, Option<usize>)>)
    ensures
        r == hover_of(*model, mx, my),
{
    match &model.console {
        Some(c) => {
            if c.rect.contains(mx, my) {
                return None;
            }
        },
        None => {},
    }
    let i = icon_at(model, mx, my);
    if i < model.icons.len() {
        return Some((model.icons[i].fence, Some(model.icons[i].icon)));
    }
    let k = fence_with_body(model, mx, my);
    if k < model.fences.len() {
        return Some((model.fences[k].id, None));
    }
    None
}

/// Two rectangles meet where there is a point in both of them, and only there.
pub proof fn law_meeting_shares_a_point(a: RectF<i64>, b: RectF<i64>, x: i64, y: i64)
    requires
        -0x100_0000_0000 <= a.x <= 0x100_0000_0000,
        -0x100_0000_0000 <= a.y <= 0x100_0000_0000,
        -0x100_0000_0000 <= b.x <= 0x100_0000_0000,
        -0x100_0000_0000 <= b.y <= 0x100_0000_0000,
        0 <= a.w <= 0x100_0000_0000,
        0 <= a.h <= 0x100_0000_0000,
        0 <= b.w <= 0x100_0000_0000,
        0 <= b.h <= 0x100_0000_0000,
    ensures
        a.meets(b) == b.meets(a),
        a.holds(x, y) && b.holds(x, y) ==> a.meets(b),
        a.meets(b) ==> exists|p: i64, q: i64| #[trigger] a.holds(p, q) && b.holds(p, q),
        a.holds(x, y) <==> a.x <= x <= a.x + a.w && a.y <= y <= a.y + a.h,
{
    if a.meets(b) {
        let p = if a.x >= b.x { a.x } else { b.x };
        let q = if a.y >= b.y { a.y } else { b.y };
        assert(a.holds(p, q) && b.holds(p, q));
    }
}

} // verus!
