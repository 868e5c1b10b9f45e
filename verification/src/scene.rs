//! Everything that one picture of the overlay is drawn from.

use vstd::prelude::*;

use crate::model::{FenceLayout, FenceStyle, SidebarPosition};
use crate::overlay::{ConsoleZone, RectF};
use crate::scalar::Scalar;

verus! {

/// An icon in its place.
#[derive(Debug, PartialEq)]
pub struct SceneIcon<S> {
    pub label: String,
    /// Number of the icon's bitmap.
    pub bitmap_id: u64,
    pub x: S,
    pub y: S,
    pub size: S,
    pub col_type: String,
    pub col_modified: String,
    pub col_size: String,
    /// How much larger than usual the icon is drawn.
    pub scale: S,
}

/// Where the detail columns of a list stand.
#[derive(Debug, Clone, Copy, PartialEq)]
pub struct ListColumns<S> {
    pub type_x: S,
    pub modified_x: S,
    pub size_x: S,
    pub header_h: S,
}

/// An icon of a sidebar that is being dragged to another place.
#[derive(Debug, Clone, Copy, PartialEq)]
pub struct ReorderDrag<S> {
    pub icon_idx: usize,
    pub cursor_x: S,
    pub cursor_y: S,
}

/// A fence in its place.
#[derive(Debug, PartialEq)]
pub struct SceneFence<S> {
    pub x: S,
    pub y: S,
    pub width: S,
    pub height: S,
    pub title: String,
    pub icons: Vec<SceneIcon<S>>,
    pub layout: FenceLayout,
    pub list_cols: Option<ListColumns<S>>,
    /// Width of a cell of a grid; 0 in other layouts.
    pub grid_cell_w: S,
    pub scroll: S,
    pub scroll_max: S,
    pub scroll_view: S,
    pub content_top: S,
    pub content_left: S,
    pub hover_icon: Option<usize>,
    pub selected: Vec<usize>,
    pub select_band: Option<RectF<S>>,
    pub border_width: S,
    pub border_color: [S; 4],
    pub fill_color: Option<[S; 4]>,
    pub blur: bool,
    pub alpha: S,
    pub tooltip_rect: Option<RectF<S>>,
    pub reorder_drag: Option<ReorderDrag<S>>,
}

impl<S: Scalar> SceneFence<S> {
    pub open spec fn area(self) -> RectF<S> {
        RectF { x: self.x, y: self.y, w: self.width, h: self.height }
    }

    /// Whether the point is on the fence, edges included.
    pub fn contains(&self, px: S, py: S) -> (r: bool)
        ensures
            r == self.area().holds(px, py),
    {
        RectF { x: self.x, y: self.y, w: self.width, h: self.height }.contains(px, py)
    }
}

/// A thing to do, as drawn.
#[derive(Debug, PartialEq)]
pub struct SceneTodoRow<S> {
    pub name: String,
    pub detail: String,
    pub done: bool,
    pub alpha: S,
    /// How far the change of its tick has been drawn, from 0 to 1.
    pub done_progress: S,
}

/// The things to do, as drawn.
#[derive(Debug, PartialEq)]
pub struct SceneTodo<S> {
    pub rows: Vec<SceneTodoRow<S>>,
    pub scroll: S,
    pub scroll_max: S,
    pub rows_top: S,
    pub row_h: S,
}

/// A row of the console's list of fences.
#[derive(Debug, PartialEq)]
pub struct SceneFenceRow<S> {
    pub rect: RectF<S>,
    pub title: String,
    pub selected: bool,
}

/// The console's controls for the chosen fence.
#[derive(Debug, PartialEq)]
pub struct SceneFenceDetail<S> {
    pub rect: RectF<S>,
    pub title: String,
    pub layout: FenceLayout,
    pub icon_size: S,
    pub style: FenceStyle,
    pub tint: Option<[S; 3]>,
    pub layout_grid: RectF<S>,
    pub layout_list: RectF<S>,
    pub layout_sidebar: RectF<S>,
    pub size_s: RectF<S>,
    pub size_m: RectF<S>,
    pub size_l: RectF<S>,
    pub style_glass: RectF<S>,
    pub style_outline: RectF<S>,
    pub style_filled: RectF<S>,
    pub style_blur: RectF<S>,
    pub tint_default: RectF<S>,
    pub tints: Vec<RectF<S>>,
    pub storage_btn: RectF<S>,
    pub sidebar_pos: SidebarPosition,
    pub sidebar_left: RectF<S>,
    pub sidebar_top: RectF<S>,
    pub sidebar_right: RectF<S>,
}

/// The console.
#[derive(Debug, PartialEq)]
pub struct SceneConsole<S> {
    pub x: S,
    pub y: S,
    pub width: S,
    pub height: S,
    pub title_h: S,
    pub close: RectF<S>,
    pub desktop_toggle: RectF<S>,
    pub fence_rows: Vec<SceneFenceRow<S>>,
    /// The part of the list that is seen.
    pub fence_list_view: RectF<S>,
    pub fence_detail: Option<SceneFenceDetail<S>>,
    pub add_fence: RectF<S>,
    pub remove_btn: RectF<S>,
    pub fill_color: [S; 4],
    pub border_color: [S; 4],
    /// How far the console is unfolded, from 0 to 1.
    pub panel: S,
    pub hover_zone: Option<ConsoleZone<S>>,
    pub desktop_mode: bool,
}

impl<S: Scalar> SceneConsole<S> {
    pub open spec fn area(self) -> RectF<S> {
        RectF { x: self.x, y: self.y, w: self.width, h: self.height }
    }
}

/// A text that is being edited.
#[derive(Debug, PartialEq)]
pub struct SceneEdit<S> {
    pub rect: RectF<S>,
    pub lines: Vec<String>,
    pub line: usize,
    pub col: usize,
    pub placeholder: String,
    pub single_line: bool,
    pub focused: bool,
    pub composing: bool,
    pub comp: String,
}

/// The whole picture.
#[derive(Debug, PartialEq)]
pub struct Scene<S> {
    pub width: S,
    pub height: S,
    pub fences: Vec<SceneFence<S>>,
    pub edit: Option<SceneEdit<S>>,
    pub console: Option<SceneConsole<S>>,
}

/// The areas that the first `n` fences draw on: each fence, and the label beside it.
pub open spec fn fence_boxes<S: Scalar>(fences: Seq<SceneFence<S>>, n: int) -> Seq<RectF<S>>
    decreases n,
{
    if n <= 0 {
        Seq::empty()
    } else {
        let f = fences[n - 1];
        let upto = fence_boxes(fences, n - 1).push(f.area());
        match f.tooltip_rect {
            Some(t) => upto.push(t),
            None => upto,
        }
    }
}

/// The areas that the picture draws on.
pub open spec fn boxes<S: Scalar>(s: Scene<S>) -> Seq<RectF<S>> {
    let fences = fence_boxes(s.fences@, s.fences.len() as int);
    match s.console {
        Some(c) => fences.push(c.area()),
        None => fences,
    }
}

/// Edges of the smallest rectangle around the areas `b`: left, top, right, bottom.
pub open spec fn outline<S: Scalar>(b: Seq<RectF<S>>) -> (S, S, S, S)
    decreases b.len(),
{
    let r = b.last();
    if b.len() <= 1 {
        (r.x, r.y, r.right_edge(), r.bottom_edge())
    } else {
        let (x, y, x2, y2) = outline(b.drop_last());
        (x.min(r.x), y.min(r.y), x2.max(r.right_edge()), y2.max(r.bottom_edge()))
    }
}

/// The smallest rectangle around the areas `b`.
pub open spec fn hull<S: Scalar>(b: Seq<RectF<S>>) -> RectF<S> {
    let (x, y, x2, y2) = outline(b);
    RectF { x, y, w: x2.sub(x), h: y2.sub(y) }
}

fn widen<S: Scalar>(around: Option<(S, S, S, S)>, r: RectF<S>) -> (q: (S, S, S, S))
    ensures
        q == match around {
            None => (r.x, r.y, r.right_edge(), r.bottom_edge()),
            Some((x, y, x2, y2)) => (
                x.min(r.x),
                y.min(r.y),
                x2.max(r.right_edge()),
                y2.max(r.bottom_edge()),
            ),
        },
{
    match around {
        None => (r.x, r.y, r.x.plus(r.w), r.y.plus(r.h)),
        Some((x, y, x2, y2)) => (
            x.least(r.x),
            y.least(r.y),
            x2.greatest(r.x.plus(r.w)),
            y2.greatest(r.y.plus(r.h)),
        ),
    }
}

/// `around` is the outline of `b`.
pub open spec fn outlines<S: Scalar>(around: Option<(S, S, S, S)>, b: Seq<RectF<S>>) -> bool {
    match around {
        None => b.len() == 0,
        Some(o) => b.len() > 0 && o == outline(b),
    }
}

impl<S: Scalar> Scene<S> {
    pub fn new(width: S, height: S) -> (s: Self)
        ensures
            s.width == width,
            s.height == height,
            s.fences.len() == 0,
            s.edit is None,
            s.console is None,
    {
        Scene { width, height, fences: Vec::new(), edit: None, console: None }
    }

    /// The smallest rectangle around all that is drawn; `None` for an empty picture.
    pub fn content_rect(&self) -> (r: Option<RectF<S>>)
        ensures
            r == if boxes(*self).len() == 0 {
                None
            } else {
                Some(hull(boxes(*self)))
            },
    {
        let mut around: Option<(S, S, S, S)> = None;
        let mut i: usize = 0;
        while i < self.fences.len()
            invariant
                i <= self.fences.len(),
                outlines(around, fence_boxes(self.fences@, i as int)),
            decreases self.fences.len() - i,
        {
            let f = &self.fences[i];
            let ghost b = fence_boxes(self.fences@, i as int);
            proof {
                assert(b.push(f.area()).drop_last() =~= b);
            }
            around = Some(widen(around, RectF { x: f.x, y: f.y, w: f.width, h: f.height }));
            proof {
                assert(outlines(around, b.push(f.area())));
            }
            match f.tooltip_rect {
                Some(t) => {
                    proof {
                        assert(b.push(f.area()).push(t).drop_last() =~= b.push(f.area()));
                    }
                    around = Some(widen(around, t));
                },
                None => {},
            }
            i += 1;
        }
        match &self.console {
            Some(c) => {
                let ghost b = fence_boxes(self.fences@, i as int);
                proof {
                    assert(b.push(c.area()).drop_last() =~= b);
                }
                around = Some(widen(around, RectF { x: c.x, y: c.y, w: c.width, h: c.height }));
            },
            None => {},
        }
        match around {
            None => None,
            Some((x, y, x2, y2)) => Some(RectF { x, y, w: x2.minus(x), h: y2.minus(y) }),
        }
    }
}

/// The rectangle around all that is drawn covers each area.
pub proof fn law_outline_covers(b: Seq<RectF<i64>>, k: int)
    requires
        0 <= k < b.len(),
    ensures
        outline(b).0 <= b[k].x,
        outline(b).1 <= b[k].y,
        outline(b).2 >= b[k].right_edge(),
        outline(b).3 >= b[k].bottom_edge(),
    decreases b.len(),
{
    if k < b.len() - 1 {
        assert(b.drop_last()[k] == b[k]);
        law_outline_covers(b.drop_last(), k);
    }
}

/// The rectangle around all that is drawn is the smallest one: each of its edges is an edge
/// of one of the areas.
pub proof fn law_outline_is_tight(b: Seq<RectF<i64>>)
    requires
        b.len() > 0,
    ensures
        exists|k: int| 0 <= k < b.len() && outline(b).0 == (#[trigger] b[k]).x,
        exists|k: int| 0 <= k < b.len() && outline(b).1 == (#[trigger] b[k]).y,
        exists|k: int| 0 <= k < b.len() && outline(b).2 == (#[trigger] b[k]).right_edge(),
        exists|k: int| 0 <= k < b.len() && outline(b).3 == (#[trigger] b[k]).bottom_edge(),
    decreases b.len(),
{
    let n = b.len() - 1;
    let last = b[n];
    if n > 0 {
        let t = b.drop_last();
        law_outline_is_tight(t);
        let k0 = choose|k: int| 0 <= k < t.len() && outline(t).0 == (#[trigger] t[k]).x;
        let k1 = choose|k: int| 0 <= k < t.len() && outline(t).1 == (#[trigger] t[k]).y;
        let k2 = choose|k: int| 0 <= k < t.len() && outline(t).2 == (#[trigger] t[k]).right_edge();
        let k3 = choose|k: int| 0 <= k < t.len() && outline(t).3 == (#[trigger] t[k]).bottom_edge();
        assert(b[k0] == t[k0] && b[k1] == t[k1] && b[k2] == t[k2] && b[k3] == t[k3]);
    }
}

proof fn lemma_boxes(fences: Seq<SceneFence<i64>>, n: int, k: int)
    requires
        0 <= k < n <= fences.len(),
    ensures
        fence_boxes(fences, n).contains(fences[k].area()),
        fences[k].tooltip_rect matches Some(t) ==> fence_boxes(fences, n).contains(t),
    decreases n,
{
    let b = fence_boxes(fences, n);
    let u = fence_boxes(fences, n - 1);
    if k < n - 1 {
        lemma_boxes(fences, n - 1, k);
        let i = choose|i: int| 0 <= i < u.len() && u[i] == fences[k].area();
        assert(b[i] == fences[k].area());
        if let Some(t) = fences[k].tooltip_rect {
            let j = choose|j: int| 0 <= j < u.len() && u[j] == t;
            assert(b[j] == t);
        }
    } else {
        assert(b[u.len() as int] == fences[k].area());
        if let Some(t) = fences[k].tooltip_rect {
            assert(b[u.len() as int + 1] == t);
        }
    }
}

/// What is drawn lies in the part of the screen that the picture takes: every fence, the
/// bubble beside it, and the console.
pub proof fn law_picture_holds_all(s: Scene<i64>, k: int)
    requires
        0 <= k < s.fences.len(),
    ensures
        ({
            let (x, y, x2, y2) = outline(boxes(s));
            let f = s.fences[k].area();
            &&& x <= f.x && y <= f.y && f.right_edge() <= x2 && f.bottom_edge() <= y2
            &&& s.fences[k].tooltip_rect matches Some(t) ==> x <= t.x && y <= t.y && t.right_edge() <= x2
                && t.bottom_edge() <= y2
            &&& s.console matches Some(c) ==> x <= c.area().x && y <= c.area().y && c.area().right_edge() <= x2
                && c.area().bottom_edge() <= y2
        }),
{
    let n = s.fences.len() as int;
    lemma_boxes(s.fences@, n, k);
    let u = fence_boxes(s.fences@, n);
    let b = boxes(s);
    let i = choose|i: int| 0 <= i < u.len() && u[i] == s.fences[k].area();
    assert(b[i] == u[i]);
    law_outline_covers(b, i);
    if let Some(t) = s.fences[k].tooltip_rect {
        let j = choose|j: int| 0 <= j < u.len() && u[j] == t;
        assert(b[j] == u[j]);
        law_outline_covers(b, j);
    }
    if let Some(c) = s.console {
        assert(b[u.len() as int] == c.area());
        law_outline_covers(b, u.len() as int);
    }
}

} // verus!
