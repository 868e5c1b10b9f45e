//! The whole picture of a moment, from what the program knows.

use vstd::prelude::*;
use vstd::string::*;

use crate::console;
use crate::console::{build_console, console_geometry, ConsoleView};
use crate::editing::{EditTarget, InlineEdit};
use crate::fence_view;
use crate::fence_view::{icon_rows, layout_fence, IconRow};
use crate::geometry::Rect;
use crate::lists::copy_texts;
use crate::local_time::FileTime;
use crate::model::{Fence, FenceLayout};
use crate::motion;
use crate::placement;
use crate::scalar;
use crate::scalar::{whole_number, Scalar};
use crate::scene::{ReorderDrag, Scene, SceneEdit, SceneFence, SceneIcon};
use crate::session::{Look, Pick, Session};
use crate::sidebar;
use crate::sidebar::{sidebar_eff_gap, sidebar_magnify, sidebar_tooltip_rect, SidebarGeom};
use crate::stock::Stock;

verus! {

/// Where the `i`-th fence is shown, in whole pixels.
pub open spec fn shown_at<S: Scalar>(s: Session<S>, i: int, now: u64) -> Rect<S> {
    let b = motion::shown_rect(
        s.motion.fence_tweens@,
        i as usize,
        s.stock.desk.fences[i].bounds,
        now,
    );
    Rect { x: b.x.rounded(), y: b.y.rounded(), w: b.w.rounded(), h: b.h.rounded() }
}

/// `f` is the `i`-th fence laid out.
pub open spec fn is_base<S: Scalar>(
    f: SceneFence<S>,
    s: Session<S>,
    i: int,
    now: u64,
    dark: bool,
    local: Seq<Option<FileTime>>,
) -> bool {
    let d = s.stock.desk;
    exists|rows: Seq<IconRow>|
        {
            &&& rows.len() == d.fences[i].icon_ids.len()
            &&& forall|k: int|
                0 <= k < rows.len() ==> fence_view::shows_member(
                    #[trigger] rows[k],
                    d.fences[i].icon_ids[k]@,
                    d.icons@,
                    s.stock.bitmaps@,
                    local[k],
                )
            &&& #[trigger] fence_view::laid_out(
                f,
                s.look.theme,
                d.fences[i],
                shown_at(s, i, now),
                rows,
                dark,
                s.pick.hover,
                s.pick.selected@,
                s.pick.band,
                i as usize,
            )
        }
}

/// Whether the title of the `i`-th fence is not written: it is being edited, or the fence is
/// a sidebar.
pub open spec fn untitled<S>(s: Session<S>, i: int) -> bool {
    s.stock.desk.fences[i].appearance.layout == FenceLayout::Sidebar || (s.edit matches Some(e) && e.target
        == EditTarget::FenceTitle { fence: i as usize })
}

/// Whether the label of the `k`-th icon of the `i`-th fence is not written: it is being
/// edited.
pub open spec fn unlabelled<S>(s: Session<S>, i: int, k: int) -> bool {
    s.edit matches Some(e) && e.target == EditTarget::Item { fence: i as usize, icon: k as usize }
}

/// How much the `k`-th icon of the `i`-th fence is enlarged under the pointer, where the
/// fence is no sidebar.
pub open spec fn hover_growth<S: Scalar>(s: Session<S>, i: int, k: int, now: u64) -> S {
    if s.stock.desk.fences[i].appearance.layout != FenceLayout::Sidebar && s.pick.hover == Some(
        (i as usize, k as usize),
    ) {
        s.motion.scale_of(i as usize, k as usize, now)
    } else {
        scalar::num(1)
    }
}

/// `g` is the `i`-th fence as laid out in `f`, without the texts that are being edited, as
/// opaque as it is at the moment, and with the icon under the pointer enlarged.
pub open spec fn touched_up<S: Scalar>(f: SceneFence<S>, g: SceneFence<S>, s: Session<S>, i: int, now: u64) -> bool {
    &&& g == (SceneFence {
        title: g.title,
        icons: g.icons,
        alpha: s.motion.alpha(s.stock.desk.desktop_mode, now),
        ..f
    })
    &&& g.title@ == if untitled(s, i) {
        Seq::empty()
    } else {
        f.title@
    }
    &&& g.icons.len() == f.icons.len()
    &&& forall|k: int|
        0 <= k < f.icons.len() ==> {
            &&& #[trigger] g.icons[k] == (SceneIcon {
                label: g.icons[k].label,
                scale: hover_growth(s, i, k, now),
                ..f.icons[k]
            })
            &&& g.icons[k].label@ == if unlabelled(s, i, k) {
                Seq::empty()
            } else {
                f.icons[k].label@
            }
        }
}

/// `g` is the `i`-th fence before sidebars are magnified.
pub open spec fn is_drawn<S: Scalar>(
    g: SceneFence<S>,
    s: Session<S>,
    i: int,
    now: u64,
    dark: bool,
    local: Seq<Option<FileTime>>,
) -> bool {
    exists|f: SceneFence<S>| #[trigger] is_base(f, s, i, now, dark, local) && touched_up(f, g, s, i, now)
}

/// The `i`-th fence, before the sidebars are magnified.
fn draw_fence<S: Scalar>(s: &Session<S>, i: usize, now: u64, dark: bool, local: &Vec<Option<FileTime>>) -> (g: SceneFence<S>)
    requires
        i < s.stock.desk.fences.len(),
        s.stock.desk.fences[i as int].icon_ids.len() <= i64::MAX,
        local.len() == s.stock.desk.fences[i as int].icon_ids.len(),
    ensures
        is_drawn(g, *s, i as int, now, dark, local@),
{
    let desk = &s.stock.desk;
    let fence = &desk.fences[i];
    let v = s.motion.fence_visual_rect(i, fence.bounds, now);
    let b = Rect { x: v.x.nearest(), y: v.y.nearest(), w: v.w.nearest(), h: v.h.nearest() };
    let rows = icon_rows(&fence.icon_ids, &desk.icons, &s.stock.bitmaps, local);
    let ghost rs = rows@;
    let mut g = layout_fence(
        &s.look.theme,
        fence,
        &b,
        rows,
        dark,
        s.pick.hover,
        &s.pick.selected,
        s.pick.band,
        i,
    );
    let ghost f = g;
    proof {
        assert(fence_view::laid_out(
            f,
            s.look.theme,
            desk.fences[i as int],
            shown_at(*s, i as int, now),
            rs,
            dark,
            s.pick.hover,
            s.pick.selected@,
            s.pick.band,
            i,
        ));
        assert(is_base(f, *s, i as int, now, dark, local@));
    }
    let side = fence.appearance.layout == FenceLayout::Sidebar;
    let mut titled = !side;
    let mut bare: Option<usize> = None;
    if let Some(e) = &s.edit {
        match e.target {
            EditTarget::FenceTitle { fence: ef } => {
                if ef == i {
                    titled = false;
                }
            },
            EditTarget::Item { fence: ef, icon: ei } => {
                if ef == i {
                    bare = Some(ei);
                }
            },
        }
    }
    if !titled {
        g.title = String::new();
    }
    let ghost g0 = g;
    if let Some(k) = bare {
        if k < g.icons.len() {
            g.icons[k].label = String::new();
        }
    }
    g.alpha = s.motion.fence_alpha(desk.desktop_mode, now);
    let ghost g1 = g;
    if !side {
        if let Some((hf, hi)) = s.pick.hover {
            if hf == i && hi < g.icons.len() {
                let sc = s.motion.icon_hover_scale(hf, hi, now);
                g.icons[hi].scale = sc;
            }
        }
    }
    proof {
        assert(titled == !untitled(*s, i as int));
        assert(g.title@ =~= if untitled(*s, i as int) {
            Seq::empty()
        } else {
            f.title@
        });
        assert forall|k: int| 0 <= k < f.icons.len() implies {
            &&& #[trigger] g.icons[k] == (SceneIcon {
                label: g.icons[k].label,
                scale: hover_growth(*s, i as int, k, now),
                ..f.icons[k]
            })
            &&& g.icons[k].label@ == if unlabelled(*s, i as int, k) {
                Seq::empty()
            } else {
                f.icons[k].label@
            }
        } by {
            assert(f.icons[k].scale == scalar::num::<S>(1)) by {
                assert(fence_view::placed(
                    f.icons[k],
                    rs[k],
                    fence_view::frame(
                        s.look.theme,
                        shown_at(*s, i as int, now),
                        desk.fences[i as int].appearance,
                        rs.len() as int,
                        desk.fences[i as int].scroll,
                    ),
                    k,
                ));
            }
            assert(unlabelled(*s, i as int, k) == (bare == Some(k as usize)));
            if unlabelled(*s, i as int, k) {
                assert(g.icons[k].label@ =~= Seq::<char>::empty());
            }
        }
        assert(touched_up(f, g, *s, i as int, now));
    }
    g
}

/// Whether the pointer is on one of the first `n` fences that is no sidebar and is seen.
pub open spec fn on_other<S: Scalar>(v: Seq<SceneFence<S>>, fences: Seq<Fence<S>>, mx: S, my: S, n: int) -> bool {
    exists|j: int|
        0 <= j < n && fences[j].appearance.layout != FenceLayout::Sidebar && S::lit(1, 100).lt(
            (#[trigger] v[j]).alpha,
        ) && v[j].area().holds(mx, my)
}

/// Where the pointer is as far as sidebars go: nowhere while it is on another fence or on
/// the console.
pub open spec fn dock_cursor<S: Scalar>(s: Session<S>, v: Seq<SceneFence<S>>) -> Option<(S, S)> {
    match s.pick.cursor {
        Some((mx, my)) => {
            let d = s.stock.desk;
            let one = scalar::num::<S>(1);
            if on_other(v, d.fences@, mx, my, v.len() as int) || (d.console_open && console::panel_rect(
                d,
                s.look.theme,
                s.look.vw,
                s.look.vh,
                one,
            ).holds(mx, my)) {
                None
            } else {
                Some((mx, my))
            }
        },
        None => None,
    }
}

/// How far the pointer reaches in the `i`-th fence.
pub open spec fn dock_reach<S: Scalar>(s: Session<S>, i: int) -> S {
    let app = s.stock.desk.fences[i].appearance;
    let size = app.icon_size.mul(s.look.theme.scale);
    sidebar::reach(size, sidebar::wide_gap(size, app.gap.mul(s.look.theme.scale)))
}

/// The icon of the `i`-th fence under the pointer, where the fence is a sidebar.
pub open spec fn dock_hover<S: Scalar>(s: Session<S>, g: SceneFence<S>, i: int, cursor: Option<(S, S)>) -> Option<usize> {
    if s.pick.cursor is Some && s.stock.desk.fences[i].appearance.layout == FenceLayout::Sidebar {
        sidebar::hovered(g.icons@, cursor, dock_reach(s, i))
    } else {
        None
    }
}

/// `h` is the `i`-th fence `g` with its icons magnified around the pointer, if it is a
/// sidebar, with the label of the icon under it.
pub open spec fn magnified<S: Scalar>(g: SceneFence<S>, h: SceneFence<S>, s: Session<S>, i: int, cursor: Option<(S, S)>) -> bool {
    let f = s.stock.desk.fences[i];
    if s.pick.cursor is Some && f.appearance.layout == FenceLayout::Sidebar {
        let k = dock_hover(s, g, i, cursor);
        let geom = SidebarGeom {
            vw: s.look.vw,
            vh: s.look.vh,
            font_size: s.look.theme.label.size,
            scale: s.look.theme.scale,
            pos: f.appearance.sidebar_pos,
        };
        &&& h == (SceneFence {
            icons: h.icons,
            hover_icon: k,
            tooltip_rect: match k {
                Some(j) => if s.pick.reorder is None {
                    Some(
                        sidebar::tooltip(
                            geom,
                            g.icons[j as int].x,
                            g.icons[j as int].y,
                            g.icons[j as int].size,
                            g.icons[j as int].label@,
                        ),
                    )
                } else {
                    g.tooltip_rect
                },
                None => None,
            },
            reorder_drag: match s.pick.reorder {
                Some((fence, icon, x, y)) => if fence == i {
                    Some(ReorderDrag { icon_idx: icon, cursor_x: x, cursor_y: y })
                } else {
                    g.reorder_drag
                },
                None => g.reorder_drag,
            },
            ..g
        })
        &&& h.icons.len() == g.icons.len()
        &&& forall|j: int|
            0 <= j < g.icons.len() ==> #[trigger] h.icons[j] == (SceneIcon {
                scale: sidebar::magnified(g.icons@, cursor, dock_reach(s, i), j),
                ..g.icons[j]
            })
    } else {
        h == g
    }
}

fn magnify_fence<S: Scalar>(s: &Session<S>, g: &mut SceneFence<S>, i: usize, cursor: Option<(S, S)>)
    requires
        i < s.stock.desk.fences.len(),
    ensures
        magnified(*old(g), *final(g), *s, i as int, cursor),
{
    if s.pick.cursor.is_none() || s.stock.desk.fences[i].appearance.layout != FenceLayout::Sidebar {
        return;
    }
    let ghost g0 = *g;
    let app = &s.stock.desk.fences[i].appearance;
    let size = app.icon_size.times(s.look.theme.scale);
    let gap = app.gap.times(s.look.theme.scale);
    let (hovered, scales) = sidebar_magnify(&g.icons, cursor, size, sidebar_eff_gap(size, gap));
    let mut k: usize = 0;
    while k < g.icons.len()
        invariant
            k <= g.icons.len(),
            g.icons.len() == g0.icons.len(),
            scales.len() == g0.icons.len(),
            *g == (SceneFence { icons: g.icons, ..g0 }),
            forall|j: int| 0 <= j < k ==> #[trigger] g.icons[j] == (SceneIcon { scale: scales[j], ..g0.icons[j] }),
            forall|j: int| k <= j < g0.icons.len() ==> #[trigger] g.icons[j] == g0.icons[j],
        decreases g.icons.len() - k,
    {
        g.icons[k].scale = scales[k];
        k += 1;
    }
    g.hover_icon = hovered;
    match hovered {
        Some(hi) => {
            if s.pick.reorder.is_none() {
                let geom = SidebarGeom {
                    vw: s.look.vw,
                    vh: s.look.vh,
                    font_size: s.look.theme.label.size,
                    scale: s.look.theme.scale,
                    pos: app.sidebar_pos,
                };
                g.tooltip_rect = Some(sidebar_tooltip_rect(&geom, &g.icons[hi], g.icons[hi].label.as_str()));
            }
        },
        None => {
            g.tooltip_rect = None;
        },
    }
    if let Some((fence, icon, x, y)) = s.pick.reorder {
        if fence == i {
            g.reorder_drag = Some(ReorderDrag { icon_idx: icon, cursor_x: x, cursor_y: y });
        }
    }
}

/// The icon under the pointer after the first `n` fences: the last sidebar that has one
/// under it counts.
pub open spec fn hover_after<S: Scalar>(s: Session<S>, v: Seq<SceneFence<S>>, cursor: Option<(S, S)>, n: int) -> Option<(
    usize,
    usize,
)>
    decreases n,
{
    if n <= 0 {
        s.pick.hover
    } else {
        match dock_hover(s, v[n - 1], n - 1, cursor) {
            Some(k) => Some(((n - 1) as usize, k)),
            None => hover_after(s, v, cursor, n - 1),
        }
    }
}

/// `e` shows the text being edited.
pub open spec fn shows_edit<S>(e: SceneEdit<S>, t: InlineEdit<S>) -> bool {
    &&& e.rect == t.rect
    &&& e.lines@ == t.lines@
    &&& e.line == t.line
    &&& e.col == t.col
    &&& e.placeholder == t.placeholder
    &&& e.single_line == t.single_line
    &&& e.focused == t.focused
    &&& e.composing == t.composing
    &&& e.comp == t.comp
}

/// What the console shows besides the desk.
pub open spec fn view_of<S: Scalar>(s: Session<S>) -> ConsoleView<S> {
    ConsoleView {
        panel: s.motion.console.panel,
        fence_scroll: s.look.fence_scroll,
        selected_fence: s.look.selected_fence,
        hover: s.pick.console_hover,
    }
}

/// How far the `i`-th fence can be scrolled at most, of what it is scrolled.
pub open spec fn scroll_kept<S: Scalar>(s: Session<S>, i: int, now: u64) -> S {
    let f = s.stock.desk.fences[i];
    fence_view::frame(
        s.look.theme,
        shown_at(s, i, now),
        f.appearance,
        f.icon_ids.len() as int,
        f.scroll,
    ).scroll
}

/// The height that the `i`-th fence is shown with.
pub open spec fn height_shown<S: Scalar>(s: Session<S>, i: int, now: u64) -> S {
    let f = s.stock.desk.fences[i];
    fence_view::frame(
        s.look.theme,
        shown_at(s, i, now),
        f.appearance,
        f.icon_ids.len() as int,
        f.scroll,
    ).height.rounded()
}

/// `b` is `s` after it was drawn: no fence is scrolled beyond its content, the heights of
/// the fences are known, and so is the icon of a sidebar under the pointer.
pub open spec fn noted<S: Scalar>(s: Session<S>, b: Session<S>, mids: Seq<SceneFence<S>>, now: u64) -> bool {
    let was = s.stock.desk.fences@;
    let n = was.len() as int;
    &&& b == (Session {
        stock: Stock { desk: b.stock.desk, ..s.stock },
        pick: Pick { hover: hover_after(s, mids, dock_cursor(s, mids), n), ..s.pick },
        look: Look { heights: b.look.heights, ..s.look },
        ..s
    })
    &&& b.stock.desk.same_but_fences(s.stock.desk)
    &&& b.stock.desk.fences.len() == n
    &&& forall|i: int|
        0 <= i < n ==> #[trigger] b.stock.desk.fences[i] == (Fence { scroll: scroll_kept(s, i, now), ..was[i] })
    &&& b.look.heights.len() == s.look.heights.len()
    &&& forall|i: int|
        0 <= i < s.look.heights.len() ==> #[trigger] b.look.heights[i] == if i < n {
            height_shown(s, i, now)
        } else {
            s.look.heights[i]
        }
}

/// `mids` are the fences before sidebars are magnified.
pub open spec fn drawn<S: Scalar>(
    mids: Seq<SceneFence<S>>,
    s: Session<S>,
    now: u64,
    dark: bool,
    local: Seq<Vec<Option<FileTime>>>,
) -> bool {
    &&& mids.len() == s.stock.desk.fences.len()
    &&& forall|i: int|
        0 <= i < mids.len() ==> is_drawn(#[trigger] mids[i], s, i, now, dark, local[i]@)
}

/// `scene` is the picture of `s`, once it was drawn and became `b`; `mids` are its fences
/// before sidebars are magnified.
pub open spec fn pictures<S: Scalar>(scene: Scene<S>, s: Session<S>, b: Session<S>, mids: Seq<SceneFence<S>>) -> bool {
    let d = s.stock.desk;
    let panel = s.motion.console.panel;
    &&& scene.width == s.look.vw
    &&& scene.height == s.look.vh
    &&& scene.fences.len() == mids.len()
    &&& forall|i: int|
        0 <= i < mids.len() ==> magnified(mids[i], #[trigger] scene.fences[i], s, i, dock_cursor(s, mids))
    &&& if d.console_open || S::lit(1, 100).lt(panel) {
        scene.console matches Some(c) && console::shows_console(
            c,
            b.stock.desk,
            s.look.theme,
            s.look.vw,
            s.look.vh,
            view_of(s),
        )
    } else {
        scene.console is None
    }
    &&& match s.edit {
        Some(t) => scene.edit matches Some(e) && shows_edit(e, t),
        None => scene.edit is None,
    }
}

fn copy_edit<S: Copy>(t: &InlineEdit<S>) -> (e: SceneEdit<S>)
    ensures
        shows_edit(e, *t),
{
    SceneEdit {
        rect: t.rect,
        lines: copy_texts(&t.lines),
        line: t.line,
        col: t.col,
        placeholder: t.placeholder.clone(),
        single_line: t.single_line,
        focused: t.focused,
        composing: t.composing,
        comp: t.comp.clone(),
    }
}

fn find_cursor<S: Scalar>(s: &Session<S>, v: &Vec<SceneFence<S>>) -> (r: Option<(S, S)>)
    requires
        v.len() == s.stock.desk.fences.len(),
    ensures
        r == dock_cursor(*s, v@),
{
    let (mx, my) = match s.pick.cursor {
        Some(p) => p,
        None => {
            return None;
        },
    };
    let fences = &s.stock.desk.fences;
    let mut j: usize = 0;
    while j < v.len()
        invariant
            j <= v.len(),
            v.len() == fences.len(),
            *fences == s.stock.desk.fences,
            s.pick.cursor == Some((mx, my)),
            !on_other(v@, fences@, mx, my, j as int),
        decreases v.len() - j,
    {
        if fences[j].appearance.layout != FenceLayout::Sidebar && S::ratio(1, 100).below(v[j].alpha) && v[j].contains(
            mx,
            my,
        ) {
            proof {
                assert(S::lit(1, 100).lt(v@[j as int].alpha));
                assert(on_other(v@, fences@, mx, my, v.len() as int));
            }
            return None;
        }
        j += 1;
    }
    if s.stock.desk.console_open {
        let p = console_geometry(&s.stock.desk, &s.look.theme, s.look.vw, s.look.vh, whole_number(1));
        if p.contains(mx, my) {
            return None;
        }
    }
    Some((mx, my))
}

impl<S: Scalar> Session<S> {
    /// Draws the picture of the moment: lays out every fence, the console and the text being
    /// edited. `local` holds the modification times of the members of every fence, as the
    /// system converted them, and `dark` whether the system is in its dark mode.
    #[verifier::rlimit(40)]
    pub fn build_scene(&mut self, now: u64, dark: bool, local: &Vec<Vec<Option<FileTime>>>) -> (scene: Scene<S>)
        requires
            placement::countable(old(self).stock.desk.fences@),
            local.len() == old(self).stock.desk.fences.len(),
            forall|i: int|
                0 <= i < local.len() ==> (#[trigger] local[i]).len() == old(self).stock.desk.fences[i].icon_ids.len(),
        ensures
            exists|mids: Seq<SceneFence<S>>|
                #[trigger] drawn(mids, *old(self), now, dark, local@) && pictures(
                    scene,
                    *old(self),
                    *final(self),
                    mids,
                ) && noted(*old(self), *final(self), mids, now),
    {
        let ghost s0 = *self;
        let n = self.stock.desk.fences.len();
        let mut fences: Vec<SceneFence<S>> = Vec::new();
        let mut i: usize = 0;
        while i < n
            invariant
                i <= n,
                *self == s0,
                n == s0.stock.desk.fences.len(),
                placement::countable(s0.stock.desk.fences@),
                local.len() == n,
                forall|k: int|
                    0 <= k < local.len() ==> (#[trigger] local[k]).len() == s0.stock.desk.fences[k].icon_ids.len(),
                fences.len() == i,
                forall|k: int|
                    0 <= k < i ==> is_drawn(#[trigger] fences@[k], s0, k, now, dark, local@[k]@),
            decreases n - i,
        {
            assert(s0.stock.desk.fences@[i as int].icon_ids.len() <= i64::MAX);
            let g = draw_fence(self, i, now, dark, &local[i]);
            fences.push(g);
            i += 1;
        }
        let ghost mids = fences@;
        assert(drawn(mids, s0, now, dark, local@));
        let cursor = find_cursor(self, &fences);
        let mut hover = self.pick.hover;
        let mut i: usize = 0;
        while i < n
            invariant
                i <= n,
                *self == s0,
                n == s0.stock.desk.fences.len(),
                fences.len() == n,
                mids.len() == n,
                cursor == dock_cursor(s0, mids),
                hover == hover_after(s0, mids, cursor, i as int),
                forall|k: int| 0 <= k < i ==> magnified(mids[k], #[trigger] fences@[k], s0, k, cursor),
                forall|k: int| i <= k < n ==> #[trigger] fences@[k] == mids[k],
            decreases n - i,
        {
            assert(fences@[i as int] == mids[i as int]);
            magnify_fence(self, &mut fences[i], i, cursor);
            if self.pick.cursor.is_some() && self.stock.desk.fences[i].appearance.layout == FenceLayout::Sidebar {
                if let Some(k) = fences[i].hover_icon {
                    hover = Some((i, k));
                }
            }
            i += 1;
        }
        let mut i: usize = 0;
        while i < n
            invariant
                i <= n,
                n == s0.stock.desk.fences.len(),
                fences.len() == n,
                mids.len() == n,
                forall|k: int| 0 <= k < n ==> magnified(mids[k], #[trigger] fences@[k], s0, k, cursor),
                forall|k: int|
                    0 <= k < n ==> is_drawn(#[trigger] mids[k], s0, k, now, dark, local@[k]@),
                *self == (Session {
                    stock: Stock { desk: self.stock.desk, ..s0.stock },
                    look: Look { heights: self.look.heights, ..s0.look },
                    ..s0
                }),
                self.stock.desk.same_but_fences(s0.stock.desk),
                self.stock.desk.fences.len() == n,
                forall|k: int|
                    0 <= k < i ==> #[trigger] self.stock.desk.fences[k] == (Fence {
                        scroll: scroll_kept(s0, k, now),
                        ..s0.stock.desk.fences[k]
                    }),
                forall|k: int| i <= k < n ==> #[trigger] self.stock.desk.fences[k] == s0.stock.desk.fences[k],
                self.look.heights.len() == s0.look.heights.len(),
                forall|k: int|
                    0 <= k < s0.look.heights.len() ==> #[trigger] self.look.heights[k] == if k < i {
                        height_shown(s0, k, now)
                    } else {
                        s0.look.heights[k]
                    },
            decreases n - i,
        {
            proof {
                let k = i as int;
                assert(magnified(mids[k], fences@[k], s0, k, cursor));
                assert(is_drawn(mids[k], s0, k, now, dark, local@[k]@));
                let f = choose|f: SceneFence<S>| #[trigger]
                    is_base(f, s0, k, now, dark, local@[k]@) && touched_up(f, mids[k], s0, k, now);
                assert(fences@[k].scroll == f.scroll && fences@[k].height == f.height);
                assert(f.scroll == scroll_kept(s0, k, now) && f.height == height_shown(s0, k, now));
                assert(self.stock.desk.fences[k] == s0.stock.desk.fences[k]);
            }
            let scroll = fences[i].scroll;
            self.stock.desk.fences[i].scroll = scroll;
            if i < self.look.heights.len() {
                let h = fences[i].height;
                self.look.heights.set(i, h);
            }
            i += 1;
        }
        self.pick.hover = hover;
        let mut scene = Scene::new(self.look.vw, self.look.vh);
        scene.fences = fences;
        let panel = self.motion.console.panel;
        if self.stock.desk.console_open || S::ratio(1, 100).below(panel) {
            let view = ConsoleView {
                panel,
                fence_scroll: self.look.fence_scroll,
                selected_fence: self.look.selected_fence,
                hover: self.pick.console_hover,
            };
            scene.console = Some(
                build_console(&self.stock.desk, &self.look.theme, self.look.vw, self.look.vh, view),
            );
        }
        if let Some(t) = &self.edit {
            scene.edit = Some(copy_edit(t));
        }
        proof {
            assert(pictures(scene, s0, *self, mids));
            assert(noted(s0, *self, mids, now));
        }
        scene
    }
}

} // verus!
