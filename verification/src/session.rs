//! A running program: what it knows between events, and what each event leads to.

use vstd::prelude::*;
use vstd::string::*;

use crate::chars;
use crate::console;
use crate::console::{
    CONSOLE_FENCE_MAX_ROWS, CONSOLE_FENCE_ROW_H, CONSOLE_MIN_H, CONSOLE_MIN_W, CONSOLE_PILL_H,
};
use crate::editing;
use crate::editing::{EditTarget, InlineEdit, KeyAction};
use crate::geometry::{Rect, Vec2};
use crate::intake;
use crate::intake::{plan_icon_rename, RenamePlan};
use crate::messages::PixelRect;
use crate::model::{Desk, Fence, FenceLayout};
use crate::motion;
use crate::motion::{ConsoleAnim, IconHoverAnim, Motion, PanelTween};
use crate::overlay::{ConsoleZone, RectF};
use crate::placement;
use crate::placement::{
    move_fence, reanchor_fences, resize_fence, scroll_fence, work_area_rect,
};
use crate::pointer::OverlayEvent;
use crate::scalar;
use crate::scalar::{clamp, count, whole_number, Scalar};
use crate::shaping;
use crate::shaping::{
    add_fence, chosen_fence, remove_fence, reorder_members, retitle_fence, set_icon_size, set_layout,
    set_sidebar_pos, set_style, set_tint,
};
use crate::stock;
use crate::stock::Stock;
use crate::theme::{apply_theme_scale, Theme};

verus! {

/// What the pointer has chosen or touches.
#[derive(Debug)]
pub struct Pick<S> {
    /// The selected icons, by fence and place.
    pub selected: Vec<(usize, usize)>,
    /// The rubber band, and the fence it is drawn over.
    pub band: Option<(usize, RectF<S>)>,
    /// The icon under the pointer.
    pub hover: Option<(usize, usize)>,
    /// Where the pointer was last seen.
    pub cursor: Option<(S, S)>,
    /// The control of the console under the pointer.
    pub console_hover: Option<ConsoleZone<S>>,
    /// The icon of a sidebar that is being dragged, and where the pointer is.
    pub reorder: Option<(usize, usize, S, S)>,
}

/// What things are shown on and with.
#[derive(Debug)]
pub struct Look<S> {
    pub theme: Theme<S>,
    /// Size of the whole screen.
    pub vw: S,
    pub vh: S,
    /// Where the whole screen begins, seen from the main one.
    pub origin: (S, S),
    /// The heights that the fences were last shown with.
    pub heights: Vec<S>,
    /// The fence chosen in the console.
    pub selected_fence: usize,
    /// How far the list of fences in the console is scrolled.
    pub fence_scroll: S,
}

/// All that the program knows between events.
#[derive(Debug)]
pub struct Session<S> {
    pub stock: Stock<S>,
    pub motion: Motion<S>,
    pub pick: Pick<S>,
    pub look: Look<S>,
    /// The text being edited in place.
    pub edit: Option<InlineEdit<S>>,
    /// The first half of a character whose second half has not been typed yet.
    pub edit_high: Option<u16>,
    /// When the user last did something, in nanoseconds.
    pub last_activity: u64,
    /// When memory was last given back, in nanoseconds.
    pub last_trim: u64,
}

/// What the system tells when an event is handled.
#[derive(Debug)]
pub struct Env {
    /// The time, in nanoseconds.
    pub now: u64,
    /// The part of the screen that the taskbar leaves.
    pub work_area: Option<PixelRect>,
    /// The text on the clipboard, for an event that pastes.
    pub clipboard: Option<String>,
    /// The folder that was picked, for an event that asks for one.
    pub picked: Option<String>,
    /// The whole screen: left, top, width and height.
    pub screen: (i32, i32, u32, u32),
    /// Whether bringing the fences in step with the disk changed anything.
    pub synced: bool,
}

/// What is to be done after an event.
#[derive(Debug)]
pub enum Action<S> {
    /// Write the desk to the disk.
    Save,
    /// Start or stop the timer that moves things on.
    StartTimer,
    StopTimer,
    /// Show or hide the icons of the plain desktop.
    RestoreIcons,
    HideIcons,
    /// Open an icon.
    Launch(usize, usize),
    /// Put the window of the input method at the caret.
    PlaceIme(i32, i32),
    /// Rename a file, and take the renaming over.
    RenameFile(RenamePlan),
    /// Ask for the picture to be renewed.
    Rebuild,
    /// Show the menu of a fence, or of an icon of it.
    ContextMenu(usize, Option<usize>, (S, S)),
    /// Take files into a fence.
    AddFiles(usize, Vec<String>),
    /// Bring the fences in step with the disk.
    Mirror,
    /// Let a fence mirror another folder.
    ChangeStorage(usize, String),
    /// Give memory back.
    Trim,
    /// Cover another screen: left, top, width and height.
    ResizeOverlay(i32, i32, u32, u32),
    /// Show the menu of the tray icon.
    TrayMenu,
    /// Put files on the clipboard.
    CopyFiles(Vec<String>),
    /// Delete files from the disk, if they are there.
    DeleteFiles(Vec<String>),
    /// Take the keyboard, for a text that is edited.
    FocusInput,
    /// End the program.
    Quit,
}

/// What is to be done after an event and whether the picture is to be renewed.
#[derive(Debug)]
pub struct Outcome<S> {
    pub actions: Vec<Action<S>>,
    pub redraw: bool,
}

/// An action with its texts as sequences of characters.
#[allow(inconsistent_fields)]
pub enum Act<S> {
    Save,
    StartTimer,
    StopTimer,
    RestoreIcons,
    HideIcons,
    Launch(usize, usize),
    PlaceIme((i32, i32)),
    RenameFile((Seq<char>, Seq<char>, Seq<char>)),
    Rebuild,
    ContextMenu(usize, Option<usize>, (S, S)),
    AddFiles(usize, Seq<Seq<char>>),
    Mirror,
    ChangeStorage(usize, Seq<char>),
    Trim,
    ResizeOverlay(i32, i32, u32, u32),
    TrayMenu,
    CopyFiles(Seq<Seq<char>>),
    DeleteFiles(Seq<Seq<char>>),
    FocusInput,
    Quit,
}

pub open spec fn act<S>(a: Action<S>) -> Act<S> {
    match a {
        Action::Save => Act::Save,
        Action::StartTimer => Act::StartTimer,
        Action::StopTimer => Act::StopTimer,
        Action::RestoreIcons => Act::RestoreIcons,
        Action::HideIcons => Act::HideIcons,
        Action::Launch(f, i) => Act::Launch(f, i),
        Action::PlaceIme(x, y) => Act::PlaceIme((x, y)),
        Action::RenameFile(p) => Act::RenameFile((p.id@, p.old_path@, p.new_path@)),
        Action::Rebuild => Act::Rebuild,
        Action::ContextMenu(f, i, p) => Act::ContextMenu(f, i, p),
        Action::AddFiles(f, v) => Act::AddFiles(f, chars::texts(v@)),
        Action::Mirror => Act::Mirror,
        Action::ChangeStorage(f, d) => Act::ChangeStorage(f, d@),
        Action::Trim => Act::Trim,
        Action::ResizeOverlay(x, y, w, h) => Act::ResizeOverlay(x, y, w, h),
        Action::TrayMenu => Act::TrayMenu,
        Action::CopyFiles(v) => Act::CopyFiles(chars::texts(v@)),
        Action::DeleteFiles(v) => Act::DeleteFiles(chars::texts(v@)),
        Action::FocusInput => Act::FocusInput,
        Action::Quit => Act::Quit,
    }
}

pub open spec fn acts<S>(v: Seq<Action<S>>) -> Seq<Act<S>> {
    v.map_values(|a: Action<S>| act(a))
}

/// Adds something to be done.
pub fn perform<S>(out: &mut Vec<Action<S>>, a: Action<S>)
    ensures
        acts(final(out)@) == acts(old(out)@).push(act(a)),
{
    let ghost o = out@;
    out.push(a);
    proof {
        assert(acts(out@) =~= acts(o).push(act(a)));
    }
}

/// Whether the event is the user clicking or dragging elsewhere than in the text being
/// edited. Hovering, turning the wheel, timers and renewals of the picture are not.
pub open spec fn leaves_edit<S>(ev: OverlayEvent<S>) -> bool {
    ||| ev is FenceMove
    ||| ev is FenceResize
    ||| ev is IconClicked
    ||| ev is IconDoubleClicked
    ||| ev is SelectDrag
    ||| ev is ContextMenu
    ||| ev is FilesDropped
    ||| ev is ConsoleClick
    ||| ev is ConsoleMove
    ||| ev is ConsoleResize
    ||| ev is ConsoleResizeEnd
    ||| ev is ConsoleToggle
}

/// Whether the event is the user clicking or dragging elsewhere than in the text being
/// edited.
pub fn is_popup_dismiss_event<S>(ev: &OverlayEvent<S>) -> (r: bool)
    ensures
        r == leaves_edit(*ev),
{
    match ev {
        OverlayEvent::FenceMove { .. } => true,
        OverlayEvent::FenceResize { .. } => true,
        OverlayEvent::IconClicked { .. } => true,
        OverlayEvent::IconDoubleClicked { .. } => true,
        OverlayEvent::SelectDrag { .. } => true,
        OverlayEvent::ContextMenu { .. } => true,
        OverlayEvent::FilesDropped { .. } => true,
        OverlayEvent::ConsoleClick { .. } => true,
        OverlayEvent::ConsoleMove { .. } => true,
        OverlayEvent::ConsoleResize { .. } => true,
        OverlayEvent::ConsoleResizeEnd => true,
        OverlayEvent::ConsoleToggle => true,
        _ => false,
    }
}

pub open spec fn any_dock<S>(fences: Seq<Fence<S>>) -> bool {
    exists|i: int| 0 <= i < fences.len() && (#[trigger] fences[i]).appearance.layout == FenceLayout::Sidebar
}

/// Whether any fence is a sidebar.
pub fn has_sidebar_dock<S>(fences: &Vec<Fence<S>>) -> (r: bool)
    ensures
        r == any_dock(fences@),
{
    let mut i: usize = 0;
    while i < fences.len()
        invariant
            i <= fences.len(),
            forall|j: int|
                0 <= j < i ==> (#[trigger] fences[j]).appearance.layout != FenceLayout::Sidebar,
        decreases fences.len() - i,
    {
        if fences[i].appearance.layout == FenceLayout::Sidebar {
            assert(fences@[i as int].appearance.layout == FenceLayout::Sidebar);
            return true;
        }
        i += 1;
    }
    false
}

/// The places without `key`.
pub open spec fn deselected(v: Seq<(usize, usize)>, key: (usize, usize)) -> Seq<(usize, usize)> {
    v.filter(|k: (usize, usize)| k != key)
}

/// The selection after a click on `key`: that alone, or with the control key that as well,
/// or no longer.
pub open spec fn clicked_on(v: Seq<(usize, usize)>, key: (usize, usize), ctrl: bool) -> Seq<(usize, usize)> {
    if !ctrl {
        seq![key]
    } else if v.contains(key) {
        deselected(v, key)
    } else {
        v.push(key)
    }
}

/// Whether the icon is selected.
pub fn is_selected(v: &Vec<(usize, usize)>, key: (usize, usize)) -> (r: bool)
    ensures
        r == v@.contains(key),
{
    let mut i: usize = 0;
    while i < v.len()
        invariant
            i <= v.len(),
            forall|j: int| 0 <= j < i ==> v@[j] != key,
        decreases v.len() - i,
    {
        if v[i].0 == key.0 && v[i].1 == key.1 {
            assert(v@[i as int] == key);
            return true;
        }
        i += 1;
    }
    false
}

/// A click on the icon `key`.
pub fn click_icon(v: &mut Vec<(usize, usize)>, key: (usize, usize), ctrl: bool)
    ensures
        final(v)@ == clicked_on(old(v)@, key, ctrl),
{
    if !ctrl {
        let mut one: Vec<(usize, usize)> = Vec::new();
        one.push(key);
        *v = one;
        proof {
            assert(v@ =~= seq![key]);
        }
        return;
    }
    if !is_selected(v, key) {
        v.push(key);
        return;
    }
    let mut out: Vec<(usize, usize)> = Vec::new();
    let mut i: usize = 0;
    while i < v.len()
        invariant
            i <= v.len(),
            v@ == old(v)@,
            out@ == deselected(v@.take(i as int), key),
        decreases v.len() - i,
    {
        proof {
            reveal(Seq::filter);
            assert(v@.take(i + 1).drop_last() =~= v@.take(i as int));
        }
        if v[i].0 != key.0 || v[i].1 != key.1 {
            out.push(v[i]);
        }
        i += 1;
    }
    proof {
        assert(v@.take(i as int) =~= v@);
    }
    *v = out;
}

proof fn lemma_deselected_other(v: Seq<(usize, usize)>, key: (usize, usize))
    requires
        !v.contains(key),
    ensures
        deselected(v, key) == v,
    decreases v.len(),
{
    reveal(Seq::filter);
    if v.len() > 0 {
        let t = v.drop_last();
        assert forall|i: int| 0 <= i < t.len() implies t[i] != key by {
            assert(v[i] != key);
        }
        lemma_deselected_other(t, key);
        assert(v[v.len() - 1] != key);
        assert(v =~= t.push(v.last()));
    }
}

proof fn lemma_deselected_has(v: Seq<(usize, usize)>, key: (usize, usize), k: (usize, usize))
    ensures
        deselected(v, key).contains(k) <==> v.contains(k) && k != key,
    decreases v.len(),
{
    reveal(Seq::filter);
    if v.len() > 0 {
        let t = v.drop_last();
        let d = deselected(t, key);
        lemma_deselected_has(t, key, k);
        assert(v =~= t.push(v.last()));
        if d.contains(k) {
            let i = choose|i: int| 0 <= i < d.len() && d[i] == k;
            assert(d.push(v.last())[i] == k);
        }
        if t.contains(k) {
            let i = choose|i: int| 0 <= i < t.len() && t[i] == k;
            assert(v[i] == k);
        }
        if v.last() != key {
            assert(d.push(v.last())[d.len() as int] == v.last());
            assert(deselected(v, key) == d.push(v.last()));
        } else {
            assert(deselected(v, key) == d);
        }
    } else {
        assert(deselected(v, key).len() == 0);
    }
}

/// Two clicks with the control key on an icon leave the same icons selected as before, and
/// in the same order where that icon was not among them.
pub proof fn law_second_click_undoes(v: Seq<(usize, usize)>, key: (usize, usize))
    ensures
        forall|k: (usize, usize)|
            #[trigger] clicked_on(clicked_on(v, key, true), key, true).contains(k) <==> v.contains(k),
        !v.contains(key) ==> clicked_on(clicked_on(v, key, true), key, true) == v,
{
    let w = clicked_on(v, key, true);
    let u = clicked_on(w, key, true);
    if v.contains(key) {
        lemma_deselected_has(v, key, key);
        assert forall|k: (usize, usize)| #[trigger] u.contains(k) <==> v.contains(k) by {
            lemma_deselected_has(v, key, k);
            assert(u[u.len() - 1] == key);
            if w.contains(k) {
                let i = choose|i: int| 0 <= i < w.len() && w[i] == k;
                assert(u[i] == k);
            }
        }
    } else {
        assert(w[w.len() - 1] == key);
        assert(w.contains(key));
        reveal(Seq::filter);
        assert(w.drop_last() =~= v);
        lemma_deselected_other(v, key);
    }
}

/// The icons that a double click opens: all selected ones, if the icon is one of several, and
/// else the icon.
pub open spec fn opened(v: Seq<(usize, usize)>, key: (usize, usize)) -> Seq<(usize, usize)> {
    if v.len() > 1 && v.contains(key) {
        v
    } else {
        seq![key]
    }
}

pub open spec fn launches<S>(v: Seq<(usize, usize)>) -> Seq<Act<S>> {
    v.map_values(|k: (usize, usize)| Act::<S>::Launch(k.0, k.1))
}

/// Opens all icons.
pub fn launch_all<S>(v: &Vec<(usize, usize)>, out: &mut Vec<Action<S>>)
    ensures
        acts(final(out)@) == acts(old(out)@) + launches(v@),
{
    let ghost o = acts(out@);
    let mut i: usize = 0;
    proof {
        assert(launches::<S>(v@.take(0)) =~= Seq::<Act<S>>::empty());
        assert(o + launches(v@.take(0)) =~= o);
    }
    while i < v.len()
        invariant
            i <= v.len(),
            acts(out@) == o + launches(v@.take(i as int)),
        decreases v.len() - i,
    {
        perform(out, Action::Launch(v[i].0, v[i].1));
        proof {
            assert(launches::<S>(v@.take(i + 1)) =~= launches::<S>(v@.take(i as int)).push(
                Act::Launch(v@[i as int].0, v@[i as int].1),
            ));
            assert(acts(out@) =~= o + launches(v@.take(i + 1)));
        }
        i += 1;
    }
    proof {
        assert(v@.take(i as int) =~= v@);
    }
}

/// The icon under the pointer begins to grow, from the size it has.
pub open spec fn entered<S: Scalar>(m: Motion<S>, fence: usize, icon: usize, now: u64) -> Motion<S> {
    let from = match m.icon_hover {
        Some(h) => if h.fence == fence && h.icon == icon {
            motion::slowing(h.t0, h.dur, h.from, h.to, now)
        } else {
            scalar::num(0)
        },
        None => scalar::num(0),
    };
    Motion {
        icon_hover: Some(
            IconHoverAnim { fence, icon, t0: now, dur: S::lit(14, 100), from, to: scalar::num(1) },
        ),
        ..m
    }
}

/// The icon that was under the pointer begins to shrink back.
pub open spec fn left<S: Scalar>(m: Motion<S>, now: u64) -> Motion<S> {
    match m.icon_hover {
        Some(h) => Motion {
            icon_hover: Some(
                IconHoverAnim {
                    t0: now,
                    dur: S::lit(18, 100),
                    from: motion::slowing(h.t0, h.dur, h.from, h.to, now),
                    to: scalar::num(0),
                    ..h
                },
            ),
            ..m
        },
        None => m,
    }
}

/// The panel begins to unfold or to fold.
pub open spec fn paneled<S: Scalar>(m: Motion<S>, now: u64, open: bool) -> Motion<S> {
    Motion {
        console: ConsoleAnim {
            panel_tween: Some(
                PanelTween {
                    t0: now,
                    dur: S::lit(24, 100),
                    from: m.console.panel,
                    to: scalar::num(
                        if open {
                            1
                        } else {
                            0
                        },
                    ),
                },
            ),
            ..m.console
        },
        ..m
    }
}

/// The fences begin to disappear or to appear.
pub open spec fn fading<S: Scalar>(m: Motion<S>, now: u64, out: bool) -> Motion<S> {
    let one = scalar::num::<S>(1);
    let zero = scalar::num::<S>(0);
    Motion {
        desktop_fade: Some(
            PanelTween {
                t0: now,
                dur: S::lit(22, 100),
                from: if out {
                    one
                } else {
                    zero
                },
                to: if out {
                    zero
                } else {
                    one
                },
            },
        ),
        ..m
    }
}

/// Whether anything still moves once everything has moved on to `now`.
pub open spec fn still_moves<S: Scalar>(m: Motion<S>, now: u64) -> bool {
    ||| m.console.at(now).panel_tween is Some
    ||| m.desktop_fade matches Some(t) && motion::progress(t.t0, t.dur, now) is Some
    ||| motion::unfinished(m.fence_tweens@, now).len() > 0
    ||| m.icon_moves(now)
}

pub open spec fn one_act<S>(when: bool, a: Act<S>) -> Seq<Act<S>> {
    if when {
        seq![a]
    } else {
        Seq::empty()
    }
}

impl<S: Scalar> Session<S> {
    /// The text being edited has a caret that is in it, and one line; only a first half is
    /// kept of a character.
    pub open spec fn wf(self) -> bool {
        &&& self.edit matches Some(e) ==> e.wf() && e.single_line
        &&& self.edit_high matches Some(h) ==> editing::is_high(h)
    }

    /// The part of the screen that the taskbar leaves.
    pub open spec fn area(self, env: Env) -> Rect<S> {
        placement::work_area(
            env.work_area,
            self.look.origin.0,
            self.look.origin.1,
            self.look.vw,
            self.look.vh,
        )
    }

    /// The new name that the text being edited stands for.
    pub open spec fn new_name(self) -> Seq<char> {
        chars::trimmed(chars::joined(self.edit->0@.lines))
    }

    /// What is to be done once the text being edited is taken over.
    pub open spec fn finish_acts(self) -> Seq<Act<S>> {
        match self.edit {
            Some(e) => match e.target {
                EditTarget::FenceTitle { fence } => if shaping::new_title(
                    self.stock.desk.fences@,
                    fence as int,
                    chars::trimmed(self.new_name()),
                ) {
                    seq![Act::Save, Act::Rebuild]
                } else {
                    Seq::empty()
                },
                EditTarget::Item { fence, icon } => if chars::trimmed(self.new_name()).len() == 0 {
                    Seq::empty()
                } else {
                    match intake::renaming(
                        self.stock.desk,
                        fence as int,
                        icon as int,
                        chars::trimmed(self.new_name()),
                    ) {
                        Some(r) => seq![Act::RenameFile(r)],
                        None => Seq::empty(),
                    }
                },
            },
            None => Seq::empty(),
        }
    }

    /// `b` is what is left once the text being edited is taken over: a fence has its new
    /// title, and nothing is edited any more.
    pub open spec fn finished(self, b: Session<S>) -> bool {
        match self.edit {
            Some(e) => {
                &&& b == (Session { stock: b.stock, edit: None, ..self })
                &&& match e.target {
                    EditTarget::FenceTitle { fence } => {
                        let name = chars::trimmed(self.new_name());
                        let d = self.stock.desk;
                        let f = b.stock.desk.fences[fence as int];
                        if shaping::new_title(d.fences@, fence as int, name) {
                            &&& b.stock == (Stock { desk: b.stock.desk, ..self.stock })
                            &&& b.stock.desk.same_but_fences(d)
                            &&& b.stock.desk.fences@ == d.fences@.update(fence as int, f)
                            &&& f == (Fence { title: f.title, ..d.fences[fence as int] })
                            &&& f.title matches Some(t) && t@ == name
                        } else {
                            b.stock == self.stock
                        }
                    },
                    EditTarget::Item { .. } => b.stock == self.stock,
                }
            },
            None => b == self,
        }
    }

    /// Takes the text being edited over.
    pub fn finish_edit(&mut self, out: &mut Vec<Action<S>>)
        requires
            old(self).stock.desk.fences.len() <= i64::MAX,
        ensures
            old(self).finished(*final(self)),
            acts(final(out)@) == acts(old(out)@) + old(self).finish_acts(),
    {
        let ghost a = *self;
        let ghost o = acts(out@);
        let mut taken: Option<InlineEdit<S>> = None;
        std::mem::swap(&mut taken, &mut self.edit);
        if let Some(e) = taken {
            let name = e.result();
            match e.target {
                EditTarget::FenceTitle { fence } => {
                    if retitle_fence(&mut self.stock.desk, fence, name.as_str()) {
                        perform(out, Action::Save);
                        perform(out, Action::Rebuild);
                        proof {
                            assert(acts(out@) =~= o + seq![Act::Save, Act::Rebuild]);
                        }
                    } else {
                        proof {
                            assert(acts(out@) =~= o + Seq::<Act<S>>::empty());
                        }
                    }
                },
                EditTarget::Item { fence, icon } => {
                    let name = chars::trim(name.as_str());
                    if chars::chars_of(name.as_str()).len() > 0 {
                        if let Some(p) = plan_icon_rename(&self.stock.desk, fence, icon, name.as_str()) {
                            perform(out, Action::RenameFile(p));
                            proof {
                                assert(acts(out@) =~= o + a.finish_acts());
                            }
                        }
                    }
                    proof {
                        assert(acts(out@) =~= o + a.finish_acts());
                    }
                },
            }
        } else {
            proof {
                assert(acts(out@) =~= o + Seq::<Act<S>>::empty());
            }
        }
    }
}


/// How long after `last` it is at `now`, in nanoseconds.
pub open spec fn since(last: u64, now: u64) -> int {
    if now < last {
        0
    } else {
        now - last
    }
}

/// Idle time after which memory is given back, in nanoseconds.
pub const IDLE_TRIM_AFTER: u64 = 30_000_000_000;

/// Least time between two times at which memory is given back, in nanoseconds.
pub const TRIM_MIN_INTERVAL: u64 = 60_000_000_000;

fn waited(last: u64, now: u64, least: u64) -> (r: bool)
    ensures
        r == (since(last, now) >= least),
{
    if now < last {
        least == 0
    } else {
        now - last >= least
    }
}

/// How far the list of `n` fences in the console scrolls.
pub open spec fn scroll_max<S: Scalar>(n: int, s: S) -> S {
    if n <= CONSOLE_FENCE_MAX_ROWS {
        scalar::num(0)
    } else {
        scalar::num::<S>(n - CONSOLE_FENCE_MAX_ROWS).mul(scalar::num(CONSOLE_FENCE_ROW_H as int)).mul(s)
    }
}

/// How far the list of `n` fences in the console scrolls.
pub fn fence_scroll_max<S: Scalar>(n: usize, s: S) -> (r: S)
    requires
        n <= i64::MAX,
    ensures
        r == scroll_max(n as int, s),
{
    if n <= CONSOLE_FENCE_MAX_ROWS {
        whole_number(0)
    } else {
        count::<S>(n - CONSOLE_FENCE_MAX_ROWS).times(whole_number(CONSOLE_FENCE_ROW_H)).times(s)
    }
}

/// The size of the unfolded console, where dragging its edge has made it `w` wide and `h`
/// high while it is unfolded by `panel`.
pub open spec fn unfolded_size<S: Scalar>(w: S, h: S, panel: S, s: S) -> (S, S) {
    let pill = scalar::num::<S>(CONSOLE_PILL_H as int).mul(s);
    let p = panel.max(S::lit(5, 100));
    (
        w.max(scalar::num::<S>(CONSOLE_MIN_W as int).mul(s)),
        pill.add(h.sub(pill).div(p)).max(scalar::num::<S>(CONSOLE_MIN_H as int).mul(s)),
    )
}

/// Whether the screen is another one.
pub open spec fn other_screen<S: Scalar>(l: Look<S>, screen: (i32, i32, u32, u32)) -> bool {
    let half = S::lit(5, 10);
    ||| half.lt(scalar::num::<S>(screen.2 as int).sub(l.vw).abs())
    ||| half.lt(scalar::num::<S>(screen.3 as int).sub(l.vh).abs())
    ||| !scalar::num::<S>(screen.0 as int).same_as(l.origin.0)
    ||| !scalar::num::<S>(screen.1 as int).same_as(l.origin.1)
}

/// The look on another screen.
pub open spec fn on_screen<S: Scalar>(l: Look<S>, screen: (i32, i32, u32, u32)) -> Look<S> {
    Look {
        vw: scalar::num(screen.2 as int),
        vh: scalar::num(screen.3 as int),
        origin: (scalar::num(screen.0 as int), scalar::num(screen.1 as int)),
        ..l
    }
}

/// Whether the scale for `dpi` dots to the inch is the one in use.
pub open spec fn same_scale<S: Scalar>(l: Look<S>, dpi: u32) -> bool {
    S::lit(dpi as i64, 96).sub(l.theme.scale).abs().lt(S::lit(1, 10000))
}

impl<S: Scalar> Session<S> {
    /// Nothing but the fences differs.
    pub open spec fn fences_only(self, b: Session<S>) -> bool {
        &&& b == (Session { stock: Stock { desk: b.stock.desk, ..self.stock }, ..self })
        &&& b.stock.desk.same_but_fences(self.stock.desk)
    }

    /// Nothing but the desk differs, which is `d`.
    pub open spec fn with_desk(self, d: Desk<S>) -> Session<S> {
        Session { stock: Stock { desk: d, ..self.stock }, ..self }
    }

    /// The fence chosen in the console.
    pub open spec fn chosen(self) -> int {
        console::choice(self.look.selected_fence, self.stock.desk.fences.len() as int)
    }

    /// Nothing but the chosen fence differs, which is `f`.
    pub open spec fn reshaped(self, b: Session<S>, f: Fence<S>) -> bool {
        &&& self.fences_only(b)
        &&& b.stock.desk.fences@ == shaping::replaced(self.stock.desk.fences@, self.chosen(), f)
    }

    /// The fences stand where they belong on the given screen.
    pub open spec fn settled_on(self, b: Session<S>, scale: S, wa: Rect<S>, vw: S, vh: S) -> bool {
        let was = self.stock.desk.fences@;
        let now = b.stock.desk.fences@;
        &&& b.stock == (Stock { desk: b.stock.desk, ..self.stock })
        &&& b.stock.desk.same_but_fences(self.stock.desk)
        &&& now.len() == was.len()
        &&& forall|i: int|
            0 <= i < was.len() ==> #[trigger] now[i] == (Fence {
                bounds: placement::reanchored(was, self.look.heights@, i, scale, wa, vw, vh),
                ..was[i]
            })
    }

    /// What a click on a control of the console makes of `self`.
    pub open spec fn zone_answered(self, b: Session<S>, zone: ConsoleZone<S>, env: Env) -> bool {
        let d = self.stock.desk;
        let f = d.fences[self.chosen()];
        match zone {
            ConsoleZone::Close => b == (Session {
                motion: paneled(self.motion, env.now, false),
                ..self.with_desk(Desk { console_open: false, ..d })
            }),
            ConsoleZone::Expand => b == (Session {
                motion: paneled(self.motion, env.now, true),
                ..self.with_desk(Desk { console_open: true, ..d })
            }),
            ConsoleZone::DesktopToggle => b == (Session {
                motion: fading(self.motion, env.now, !d.desktop_mode),
                ..self.with_desk(Desk { desktop_mode: !d.desktop_mode, ..d })
            }),
            ConsoleZone::FenceSelect(i) => b == if i < d.fences.len() {
                Session { look: Look { selected_fence: i, ..self.look }, ..self }
            } else {
                self
            },
            ConsoleZone::FenceLayout(l) => self.reshaped(
                b,
                shaping::laid(f, d.icons@, self.look.theme, l, self.area(env)),
            ),
            ConsoleZone::FenceIconSize(n) => self.reshaped(b, shaping::with_icon_size(f, n)),
            ConsoleZone::FenceStyle(x) => self.reshaped(b, shaping::with_style(f, x)),
            ConsoleZone::FenceTint(c) => self.reshaped(b, shaping::with_tint(f, c)),
            ConsoleZone::FenceSidebarPos(p) => self.reshaped(
                b,
                shaping::at_edge(f, self.look.theme.scale, p, self.area(env)),
            ),
            ConsoleZone::AddFence => match env.picked {
                Some(dir) => {
                    let now = b.stock.desk.fences@;
                    &&& b == (Session { stock: b.stock, look: b.look, ..self })
                    &&& b.stock == (Stock { desk: b.stock.desk, ..self.stock })
                    &&& b.stock.desk.same_but_fences(d)
                    &&& now.len() == d.fences.len() + 1
                    &&& now.drop_last() == d.fences@
                    &&& shaping::is_new_fence(
                        now.last(),
                        d.fences@,
                        dir@,
                        shaping::new_place(
                            d.fences@,
                            self.look.heights@,
                            self.look.theme.scale,
                            self.look.vw,
                            self.look.vh,
                        ),
                    )
                    &&& b.look == (Look { selected_fence: d.fences.len(), ..self.look })
                },
                None => b == self,
            },
            ConsoleZone::RemoveFence => {
                let i = self.chosen();
                let e = b.stock.desk;
                &&& b == (Session { stock: b.stock, look: b.look, ..self })
                &&& b.stock == (Stock { desk: e, ..self.stock })
                &&& b.look == (Look { selected_fence: b.look.selected_fence, ..self.look })
                &&& b.look.selected_fence == editing::least(
                    if self.look.selected_fence == 0 {
                        0
                    } else {
                        self.look.selected_fence - 1
                    },
                    e.fences.len() as int,
                )
                &&& if i < d.fences.len() {
                    &&& e.same_but_icons(d)
                    &&& e.fences.len() == d.fences.len() - 1
                    &&& forall|j: int|
                        0 <= j < e.fences.len() ==> (#[trigger] e.fences[j]).same_but_members(
                            d.fences[if j < i {
                                j
                            } else {
                                j + 1
                            }],
                        )
                    &&& stock::places(e) == shaping::without_fence(stock::places(d), i)
                } else {
                    e == d
                }
            },
            _ => b == self,
        }
    }

    /// What is to be done after a click on a control of the console.
    pub open spec fn zone_acts(self, zone: ConsoleZone<S>, env: Env) -> Seq<Act<S>> {
        match zone {
            ConsoleZone::Close => seq![Act::Save, Act::StartTimer],
            ConsoleZone::Expand => seq![Act::Save, Act::StartTimer],
            ConsoleZone::DesktopToggle => seq![
                if self.stock.desk.desktop_mode {
                    Act::HideIcons
                } else {
                    Act::RestoreIcons
                },
                Act::StartTimer,
                Act::Save,
            ],
            ConsoleZone::FenceLayout(_) => seq![Act::Save],
            ConsoleZone::FenceIconSize(_) => seq![Act::Save],
            ConsoleZone::FenceStyle(_) => seq![Act::Save],
            ConsoleZone::FenceTint(_) => seq![Act::Save],
            ConsoleZone::FenceSidebarPos(_) => seq![Act::Save],
            ConsoleZone::AddFence => if env.picked is Some {
                seq![Act::Mirror, Act::Save]
            } else {
                Seq::empty()
            },
            ConsoleZone::RemoveFence => seq![Act::Save],
            ConsoleZone::ChangeStoragePath => match env.picked {
                Some(dir) => seq![Act::ChangeStorage(self.chosen() as usize, dir@)],
                None => Seq::empty(),
            },
            _ => Seq::empty(),
        }
    }

    /// The console folds or unfolds.
    pub open spec fn toggled(self, now: u64) -> Session<S> {
        let d = self.stock.desk;
        Session {
            motion: paneled(self.motion, now, !d.console_open),
            ..self.with_desk(Desk { console_open: !d.console_open, ..d })
        }
    }

    /// Nothing but the text being edited differs, which is `t`.
    pub open spec fn edited(self, b: Session<S>, t: editing::EditText) -> bool {
        &&& b == (Session { edit: b.edit, ..self })
        &&& b.edit matches Some(e) && e.same_frame(self.edit->0) && e@ == t && e.wf()
    }

    /// The caret of the text being edited, if that were `t`.
    pub open spec fn caret_for(self, t: editing::EditText) -> (i32, i32) {
        editing::caret_of(t, self.edit->0.rect, self.edit->0.comp@, self.look.theme)
    }

    /// The text being edited with the clipboard pasted.
    pub open spec fn pasted(self, env: Env) -> editing::EditText {
        match env.clipboard {
            Some(c) => self.edit->0@.inserted(editing::on_one_line(c@)),
            None => self.edit->0@,
        }
    }

    /// What a key makes of `self`.
    pub open spec fn key_answered(self, b: Session<S>, vk: u32, ctrl: bool, env: Env) -> bool {
        match self.edit {
            Some(e) => {
                let (t, k) = editing::keyed(e@, true, vk, ctrl);
                match k {
                    KeyAction::Commit => self.finished(b),
                    KeyAction::Cancel => b == (Session { edit: None, ..self }),
                    KeyAction::Paste => self.edited(b, self.pasted(env)),
                    _ => self.edited(b, t),
                }
            },
            None => b == self,
        }
    }

    /// What is to be done after a key.
    pub open spec fn key_acts(self, vk: u32, ctrl: bool, env: Env) -> Seq<Act<S>> {
        match self.edit {
            Some(e) => {
                let (t, k) = editing::keyed(e@, true, vk, ctrl);
                match k {
                    KeyAction::Commit => self.finish_acts(),
                    KeyAction::Edited => seq![Act::PlaceIme(self.caret_for(t))],
                    KeyAction::Paste => seq![Act::PlaceIme(self.caret_for(self.pasted(env)))],
                    _ => Seq::empty(),
                }
            },
            None => Seq::empty(),
        }
    }

    /// The text being edited after a UTF-16 unit was typed.
    pub open spec fn typed(self, unit: u16) -> editing::EditText {
        let e = self.edit->0;
        let t = editing::typed_text(self.edit_high, unit);
        if !e.committing && t.len() > 0 {
            e@.inserted(t)
        } else {
            e@
        }
    }

    /// What a typed UTF-16 unit makes of `self`.
    pub open spec fn char_answered(self, b: Session<S>, unit: u16) -> bool {
        match self.edit {
            Some(e) => (Session {
                edit_high: if e.committing {
                    self.edit_high
                } else {
                    editing::kept_high(unit)
                },
                ..self
            }).edited(b, self.typed(unit)),
            None => b == self,
        }
    }

    pub open spec fn char_acts(self, unit: u16) -> Seq<Act<S>> {
        match self.edit {
            Some(e) => one_act(
                !e.committing && !editing::is_high(unit) && unit >= 32,
                Act::PlaceIme(self.caret_for(self.typed(unit))),
            ),
            None => Seq::empty(),
        }
    }

    /// What an input method's event makes of `self`.
    pub open spec fn ime_answered(self, b: Session<S>, ev: OverlayEvent<S>) -> bool {
        match self.edit {
            Some(e) => {
                &&& b == (Session { edit: b.edit, ..self })
                &&& b.edit matches Some(g) && match ev {
                    OverlayEvent::ImeStart => g == (InlineEdit { composing: true, comp: g.comp, ..e }) && g.comp@
                        == Seq::<char>::empty(),
                    OverlayEvent::ImeCompose { text, .. } => g == (InlineEdit { composing: true, comp: text, ..e }),
                    OverlayEvent::ImeResult { text } => {
                        &&& g == (InlineEdit {
                            lines: g.lines,
                            line: g.line,
                            col: g.col,
                            comp: g.comp,
                            composing: false,
                            committing: false,
                            ..e
                        })
                        &&& g@ == e@.inserted(text@)
                        &&& g.comp@ == Seq::<char>::empty()
                        &&& g.wf()
                    },
                    _ => g == (InlineEdit { composing: false, comp: g.comp, ..e }) && g.comp@
                        == Seq::<char>::empty(),
                }
            },
            None => b == self,
        }
    }

    pub open spec fn ime_acts(self, ev: OverlayEvent<S>) -> Seq<Act<S>> {
        match self.edit {
            Some(e) => match ev {
                OverlayEvent::ImeStart => seq![
                    Act::PlaceIme(editing::caret_of(e@, e.rect, Seq::empty(), self.look.theme)),
                ],
                OverlayEvent::ImeCompose { text, .. } => seq![
                    Act::PlaceIme(editing::caret_of(e@, e.rect, text@, self.look.theme)),
                ],
                _ => Seq::empty(),
            },
            None => Seq::empty(),
        }
    }

    /// A click on a control of the console.
    fn click_zone(&mut self, zone: ConsoleZone<S>, env: Env, out: &mut Vec<Action<S>>)
        requires
            old(self).wf(),
            placement::countable(old(self).stock.desk.fences@),
            shaping::has_room(old(self).stock.desk.fences@),
        ensures
            final(self).wf(),
            old(self).zone_answered(*final(self), zone, env),
            acts(final(out)@) == acts(old(out)@) + old(self).zone_acts(zone, env),
    {
        let ghost a = *self;
        let ghost o = acts(out@);
        let wa = work_area_rect(
            env.work_area,
            self.look.origin.0,
            self.look.origin.1,
            self.look.vw,
            self.look.vh,
        );
        let i = chosen_fence(self.look.selected_fence, self.stock.desk.fences.len());
        match zone {
            ConsoleZone::Close => {
                self.stock.desk.console_open = false;
                perform(out, Action::Save);
                self.motion.start_panel_tween(env.now, whole_number(0));
                perform(out, Action::StartTimer);
            },
            ConsoleZone::Expand => {
                self.stock.desk.console_open = true;
                perform(out, Action::Save);
                self.motion.start_panel_tween(env.now, whole_number(1));
                perform(out, Action::StartTimer);
            },
            ConsoleZone::DesktopToggle => {
                let out_now = !self.stock.desk.desktop_mode;
                self.stock.desk.desktop_mode = out_now;
                let (from, to) = if out_now {
                    perform(out, Action::RestoreIcons);
                    (whole_number::<S>(1), whole_number::<S>(0))
                } else {
                    perform(out, Action::HideIcons);
                    (whole_number::<S>(0), whole_number::<S>(1))
                };
                self.motion.desktop_fade = Some(PanelTween { t0: env.now, dur: S::ratio(22, 100), from, to });
                perform(out, Action::StartTimer);
                perform(out, Action::Save);
            },
            ConsoleZone::FenceSelect(k) => {
                if k < self.stock.desk.fences.len() {
                    self.look.selected_fence = k;
                }
            },
            ConsoleZone::FenceLayout(l) => {
                set_layout(&mut self.stock.desk, &self.look.theme, i, l, wa);
                perform(out, Action::Save);
            },
            ConsoleZone::FenceIconSize(n) => {
                set_icon_size(&mut self.stock.desk, i, n);
                perform(out, Action::Save);
            },
            ConsoleZone::FenceStyle(x) => {
                set_style(&mut self.stock.desk, i, x);
                perform(out, Action::Save);
            },
            ConsoleZone::FenceTint(c) => {
                set_tint(&mut self.stock.desk, i, c);
                perform(out, Action::Save);
            },
            ConsoleZone::FenceSidebarPos(p) => {
                set_sidebar_pos(&mut self.stock.desk, self.look.theme.scale, i, p, wa);
                perform(out, Action::Save);
            },
            ConsoleZone::AddFence => {
                if let Some(dir) = env.picked {
                    let n = self.stock.desk.fences.len();
                    add_fence(
                        &mut self.stock.desk,
                        &self.look.heights,
                        self.look.theme.scale,
                        self.look.vw,
                        self.look.vh,
                        dir,
                    );
                    self.look.selected_fence = n;
                    perform(out, Action::Mirror);
                    perform(out, Action::Save);
                }
            },
            ConsoleZone::RemoveFence => {
                remove_fence(&mut self.stock.desk, i);
                let k: usize = if self.look.selected_fence == 0 {
                    0
                } else {
                    self.look.selected_fence - 1
                };
                let n = self.stock.desk.fences.len();
                self.look.selected_fence = if k < n {
                    k
                } else {
                    n
                };
                perform(out, Action::Save);
            },
            ConsoleZone::ChangeStoragePath => {
                if let Some(dir) = env.picked {
                    perform(out, Action::ChangeStorage(i, dir));
                }
            },
            _ => {},
        }
        proof {
            assert(acts(out@) =~= o + a.zone_acts(zone, env));
        }
    }

    /// A key while a text is edited.
    fn press_key(&mut self, vk: u32, ctrl: bool, env: &Env, out: &mut Vec<Action<S>>)
        requires
            old(self).wf(),
            old(self).stock.desk.fences.len() <= i64::MAX,
        ensures
            final(self).wf(),
            old(self).key_answered(*final(self), vk, ctrl, *env),
            acts(final(out)@) == acts(old(out)@) + old(self).key_acts(vk, ctrl, *env),
    {
        let ghost a = *self;
        let ghost o = acts(out@);
        let theme = self.look.theme;
        let mut done = false;
        let mut given_up = false;
        match &mut self.edit {
            Some(e) => {
                match e.key(vk, ctrl) {
                    KeyAction::Commit => {
                        done = true;
                    },
                    KeyAction::Cancel => {
                        given_up = true;
                    },
                    KeyAction::Edited => {
                        let (x, y) = e.caret_point(&theme);
                        perform(out, Action::PlaceIme(x, y));
                    },
                    KeyAction::Paste => {
                        if let Some(c) = &env.clipboard {
                            e.paste(c.as_str());
                        }
                        let (x, y) = e.caret_point(&theme);
                        perform(out, Action::PlaceIme(x, y));
                    },
                    KeyAction::Ignore => {},
                }
            },
            None => {},
        }
        if done {
            self.finish_edit(out);
        }
        if given_up {
            self.edit = None;
        }
        proof {
            assert(acts(out@) =~= o + a.key_acts(vk, ctrl, *env));
        }
    }

    /// A UTF-16 unit typed while a text is edited.
    fn type_char(&mut self, unit: u16, out: &mut Vec<Action<S>>)
        requires
            old(self).wf(),
        ensures
            final(self).wf(),
            old(self).char_answered(*final(self), unit),
            acts(final(out)@) == acts(old(out)@) + old(self).char_acts(unit),
    {
        let ghost a = *self;
        let ghost o = acts(out@);
        let theme = self.look.theme;
        let high = self.edit_high;
        match &mut self.edit {
            Some(e) => {
                let (kept, place) = e.type_unit(high, unit);
                if place {
                    let (x, y) = e.caret_point(&theme);
                    perform(out, Action::PlaceIme(x, y));
                }
                self.edit_high = kept;
            },
            None => {},
        }
        proof {
            assert(acts(out@) =~= o + a.char_acts(unit));
        }
    }
}


impl<S: Scalar> Session<S> {
    /// What an event makes of `self`, once a text that was being edited is out of the way.
    pub open spec fn answered(self, b: Session<S>, ev: OverlayEvent<S>, env: Env) -> bool {
        let d = self.stock.desk;
        let l = self.look;
        match ev {
            OverlayEvent::FenceMove { fence, pos } => {
                &&& self.fences_only(b)
                &&& b.stock.desk.fences@ == placement::rebounded(
                    d.fences@,
                    fence as int,
                    placement::dragged(d.fences@, l.heights@, fence as int, pos, self.area(env)),
                )
            },
            OverlayEvent::FenceResize { fence, zone, rect } => {
                &&& self.fences_only(b)
                &&& b.stock.desk.fences@ == placement::rebounded(
                    d.fences@,
                    fence as int,
                    placement::resized(
                        d.fences@,
                        l.heights@,
                        fence as int,
                        zone,
                        rect,
                        l.theme.scale,
                        self.area(env),
                    ),
                )
            },
            OverlayEvent::IconClicked { fence, icon, ctrl } => {
                &&& b == (Session { pick: Pick { selected: b.pick.selected, ..self.pick }, ..self })
                &&& b.pick.selected@ == clicked_on(self.pick.selected@, (fence, icon), ctrl)
            },
            OverlayEvent::SelectDrag { fence, rect, selected } => b == (Session {
                pick: Pick {
                    selected,
                    band: Some((fence, RectF { x: rect.0, y: rect.1, w: rect.2, h: rect.3 })),
                    ..self.pick
                },
                ..self
            }),
            OverlayEvent::SelectEnd => b == (Session { pick: Pick { band: None, ..self.pick }, ..self }),
            OverlayEvent::CursorMove { x, y } => b == (Session {
                pick: Pick { cursor: Some((x, y)), ..self.pick },
                ..self
            }),
            OverlayEvent::CursorLeave => b == (Session { pick: Pick { cursor: None, ..self.pick }, ..self }),
            OverlayEvent::HoverEnter { fence, icon } => b == (Session {
                pick: Pick { hover: Some((fence, icon)), ..self.pick },
                motion: entered(self.motion, fence, icon, env.now),
                ..self
            }),
            OverlayEvent::HoverLeave => b == (Session {
                pick: Pick { hover: None, ..self.pick },
                motion: left(self.motion, env.now),
                ..self
            }),
            OverlayEvent::FenceScroll { fence, delta } => {
                &&& self.fences_only(b)
                &&& b.stock.desk.fences@ == placement::scrolled(d.fences@, fence as int, delta, l.theme)
            },
            OverlayEvent::ConsoleClick { zone } => self.zone_answered(b, zone, env),
            OverlayEvent::ConsoleScroll { delta } => b == (Session {
                look: Look {
                    fence_scroll: scalar::clamped(
                        l.fence_scroll.sub(
                            S::lit(delta as i64, 120).mul(
                                scalar::num::<S>(CONSOLE_FENCE_ROW_H as int).mul(l.theme.scale),
                            ),
                        ),
                        scalar::num(0),
                        scroll_max(d.fences.len() as int, l.theme.scale),
                    ),
                    ..l
                },
                ..self
            }),
            OverlayEvent::ConsoleHover { zone } => b == (Session {
                pick: Pick { console_hover: zone, ..self.pick },
                ..self
            }),
            OverlayEvent::KeyDown { vk, ctrl } => self.key_answered(b, vk, ctrl, env),
            OverlayEvent::Char { ch } => self.char_answered(b, ch),
            OverlayEvent::EditCaret { x } => match self.edit {
                Some(e) => self.edited(b, editing::EditText { col: e.clicked(l.theme, x), ..e@ }),
                None => b == self,
            },
            OverlayEvent::ImeStart => self.ime_answered(b, ev),
            OverlayEvent::ImeCompose { .. } => self.ime_answered(b, ev),
            OverlayEvent::ImeResult { .. } => self.ime_answered(b, ev),
            OverlayEvent::ImeEnd => self.ime_answered(b, ev),
            OverlayEvent::OverlayFocusLost => self.finished(b),
            OverlayEvent::ConsoleMove { pos } => b == self.with_desk(
                Desk { console_pos: Some(Vec2 { x: pos.0, y: pos.1 }), ..d },
            ),
            OverlayEvent::ConsoleResize { rect } => b == self.with_desk(
                Desk {
                    console_size: Some(
                        unfolded_size(rect.2, rect.3, self.motion.console.panel, l.theme.scale),
                    ),
                    ..d
                },
            ),
            OverlayEvent::ConsoleToggle => b == self.toggled(env.now),
            OverlayEvent::TrayToggle => b == self.toggled(env.now),
            OverlayEvent::AnimTick => {
                let m = self.motion;
                &&& b == (Session { motion: b.motion, ..self })
                &&& b.motion.console == m.console.at(env.now)
                &&& b.motion.desktop_fade == match m.desktop_fade {
                    Some(t) => if motion::progress(t.t0, t.dur, env.now) is Some {
                        Some(t)
                    } else {
                        None
                    },
                    None => None,
                }
                &&& b.motion.fence_tweens@ == motion::unfinished(m.fence_tweens@, env.now)
                &&& b.motion.icon_hover == m.icon_hover
            },
            OverlayEvent::SyncLibrary => b == (Session {
                last_trim: if since(self.last_activity, env.now) >= IDLE_TRIM_AFTER && since(
                    self.last_trim,
                    env.now,
                ) >= TRIM_MIN_INTERVAL {
                    env.now
                } else {
                    self.last_trim
                },
                ..self
            }),
            OverlayEvent::DpiChanged { dpi } => if same_scale(l, dpi) {
                b == self
            } else {
                let scale = S::lit(dpi as i64, 96);
                &&& b == (Session { stock: b.stock, look: Look { theme: b.look.theme, ..l }, ..self })
                &&& exists|t: Theme<S>| #[trigger] t.usual() && b.look.theme == t.scaled(scale)
                &&& self.settled_on(b, scale, self.area(env), l.vw, l.vh)
            },
            OverlayEvent::DisplayChange => if other_screen(l, env.screen) {
                let g = Session { look: on_screen(l, env.screen), ..self };
                &&& b == (Session { stock: b.stock, look: g.look, ..self })
                &&& self.settled_on(b, l.theme.scale, g.area(env), g.look.vw, g.look.vh)
            } else {
                b == self
            },
            OverlayEvent::SidebarReorderDrag { fence, icon, mx, my } => b == (Session {
                pick: Pick { reorder: Some((fence, icon, mx, my)), ..self.pick },
                ..self
            }),
            OverlayEvent::SidebarReorderEnd { fence, from, to } => {
                let e = b.stock.desk;
                &&& b == (Session {
                    stock: Stock { desk: e, ..self.stock },
                    pick: Pick { reorder: None, ..self.pick },
                    ..self
                })
                &&& e.same_but_fences(d)
                &&& if self.reorders(fence, from, to) {
                    &&& e.fences@ == d.fences@.update(fence as int, e.fences[fence as int])
                    &&& e.fences[fence as int].same_but_members(d.fences[fence as int])
                    &&& e.fences[fence as int].members() == shaping::reordered(
                        d.fences[fence as int].members(),
                        from as int,
                        to as int,
                    )
                } else {
                    e == d
                }
            },
            _ => b == self,
        }
    }

    /// Whether there is a member to put elsewhere.
    pub open spec fn reorders(self, fence: usize, from: usize, to: usize) -> bool {
        let fences = self.stock.desk.fences@;
        fence < fences.len() && from < fences[fence as int].icon_ids.len() && to
            <= fences[fence as int].icon_ids.len() && from != to
    }

    /// What is to be done after an event, once a text that was being edited is out of the
    /// way.
    pub open spec fn answer_acts(self, ev: OverlayEvent<S>, env: Env) -> Seq<Act<S>> {
        let d = self.stock.desk;
        let l = self.look;
        match ev {
            OverlayEvent::FenceDragEnd { .. } => seq![Act::Save],
            OverlayEvent::IconDoubleClicked { fence, icon } => launches(
                opened(self.pick.selected@, (fence, icon)),
            ),
            OverlayEvent::HoverEnter { fence, icon } => one_act(
                entered(self.motion, fence, icon, env.now).moves(env.now),
                Act::StartTimer,
            ),
            OverlayEvent::HoverLeave => one_act(
                self.motion.icon_hover is Some && left(self.motion, env.now).moves(env.now),
                Act::StartTimer,
            ),
            OverlayEvent::ContextMenu { fence, icon, pos } => seq![Act::ContextMenu(fence, icon, pos)],
            OverlayEvent::FilesDropped { fence, paths } => seq![Act::AddFiles(fence, chars::texts(paths@))],
            OverlayEvent::FenceScroll { .. } => seq![Act::Save],
            OverlayEvent::ConsoleClick { zone } => self.zone_acts(zone, env),
            OverlayEvent::KeyDown { vk, ctrl } => self.key_acts(vk, ctrl, env),
            OverlayEvent::Char { ch } => self.char_acts(ch),
            OverlayEvent::EditCaret { x } => match self.edit {
                Some(e) => seq![
                    Act::PlaceIme(
                        self.caret_for(editing::EditText { col: e.clicked(l.theme, x), ..e@ }),
                    ),
                ],
                None => Seq::empty(),
            },
            OverlayEvent::ImeStart => self.ime_acts(ev),
            OverlayEvent::ImeCompose { .. } => self.ime_acts(ev),
            OverlayEvent::OverlayFocusLost => self.finish_acts(),
            OverlayEvent::ConsoleDragEnd => seq![Act::Save],
            OverlayEvent::ConsoleResizeEnd => seq![Act::Save],
            OverlayEvent::ConsoleToggle => seq![Act::Save, Act::StartTimer],
            OverlayEvent::TrayToggle => seq![Act::Save, Act::StartTimer],
            OverlayEvent::TrayMenu => seq![Act::TrayMenu],
            OverlayEvent::AnimTick => one_act(!still_moves(self.motion, env.now), Act::StopTimer),
            OverlayEvent::SyncLibrary => one_act(env.synced, Act::Save) + one_act(
                since(self.last_activity, env.now) >= IDLE_TRIM_AFTER && since(self.last_trim, env.now)
                    >= TRIM_MIN_INTERVAL,
                Act::Trim,
            ),
            OverlayEvent::DpiChanged { dpi } => one_act(
                !same_scale(l, dpi) && placement::any_misplaced(
                    d.fences@,
                    l.heights@,
                    d.fences.len() as int,
                    S::lit(dpi as i64, 96),
                    self.area(env),
                    l.vw,
                    l.vh,
                ),
                Act::Save,
            ),
            OverlayEvent::DisplayChange => if other_screen(l, env.screen) {
                let g = Session { look: on_screen(l, env.screen), ..self };
                seq![Act::ResizeOverlay(env.screen.0, env.screen.1, env.screen.2, env.screen.3)] + one_act(
                    placement::any_misplaced(
                        d.fences@,
                        l.heights@,
                        d.fences.len() as int,
                        l.theme.scale,
                        g.area(env),
                        g.look.vw,
                        g.look.vh,
                    ),
                    Act::Save,
                )
            } else {
                Seq::empty()
            },
            OverlayEvent::SidebarReorderEnd { fence, from, to } => one_act(
                self.reorders(fence, from, to),
                Act::Save,
            ),
            _ => Seq::empty(),
        }
    }

    /// Whether the picture is to be renewed after an event.
    pub open spec fn redraws(self, ev: OverlayEvent<S>, env: Env) -> bool {
        match ev {
            OverlayEvent::CursorMove { .. } => any_dock(self.stock.desk.fences@),
            OverlayEvent::CursorLeave => any_dock(self.stock.desk.fences@),
            OverlayEvent::SyncLibrary => env.synced,
            OverlayEvent::DpiChanged { dpi } => !same_scale(self.look, dpi),
            _ => true,
        }
    }

    /// Folds or unfolds the console.
    pub fn toggle_console(&mut self, now: u64, out: &mut Vec<Action<S>>)
        ensures
            *final(self) == old(self).toggled(now),
            acts(final(out)@) == acts(old(out)@) + seq![Act::Save, Act::StartTimer],
    {
        let ghost o = acts(out@);
        let open = !self.stock.desk.console_open;
        self.stock.desk.console_open = open;
        perform(out, Action::Save);
        self.motion.start_panel_tween(
            now,
            whole_number(
                if open {
                    1
                } else {
                    0
                },
            ),
        );
        perform(out, Action::StartTimer);
        proof {
            assert(acts(out@) =~= o + seq![Act::Save, Act::StartTimer]);
        }
    }

    fn enter_icon(&mut self, fence: usize, icon: usize, now: u64, out: &mut Vec<Action<S>>)
        ensures
            *final(self) == (Session {
                pick: Pick { hover: Some((fence, icon)), ..old(self).pick },
                motion: entered(old(self).motion, fence, icon, now),
                ..*old(self)
            }),
            acts(final(out)@) == acts(old(out)@) + one_act(
                entered(old(self).motion, fence, icon, now).moves(now),
                Act::StartTimer,
            ),
    {
        let ghost a = *self;
        let ghost o = acts(out@);
        self.pick.hover = Some((fence, icon));
        let from = match self.motion.icon_hover {
            Some(h) => if h.fence == fence && h.icon == icon {
                h.progress(now)
            } else {
                whole_number(0)
            },
            None => whole_number(0),
        };
        self.motion.icon_hover = Some(
            IconHoverAnim { fence, icon, t0: now, dur: S::ratio(14, 100), from, to: whole_number(1) },
        );
        if self.motion.timer_needed(now) {
            perform(out, Action::StartTimer);
        }
        proof {
            assert(acts(out@) =~= o + one_act(entered(a.motion, fence, icon, now).moves(now), Act::StartTimer));
        }
    }

    fn leave_icon(&mut self, now: u64, out: &mut Vec<Action<S>>)
        ensures
            *final(self) == (Session {
                pick: Pick { hover: None, ..old(self).pick },
                motion: left(old(self).motion, now),
                ..*old(self)
            }),
            acts(final(out)@) == acts(old(out)@) + one_act(
                old(self).motion.icon_hover is Some && left(old(self).motion, now).moves(now),
                Act::StartTimer,
            ),
    {
        let ghost a = *self;
        let ghost o = acts(out@);
        self.pick.hover = None;
        if let Some(h) = self.motion.icon_hover {
            let from = h.progress(now);
            self.motion.icon_hover = Some(
                IconHoverAnim {
                    fence: h.fence,
                    icon: h.icon,
                    t0: now,
                    dur: S::ratio(18, 100),
                    from,
                    to: whole_number(0),
                },
            );
            if self.motion.timer_needed(now) {
                perform(out, Action::StartTimer);
            }
        }
        proof {
            assert(acts(out@) =~= o + one_act(
                a.motion.icon_hover is Some && left(a.motion, now).moves(now),
                Act::StartTimer,
            ));
        }
    }

    fn change_dpi(&mut self, dpi: u32, env: &Env, out: &mut Vec<Action<S>>) -> (redraw: bool)
        requires
            old(self).wf(),
            placement::countable(old(self).stock.desk.fences@),
        ensures
            final(self).wf(),
            old(self).answered(*final(self), OverlayEvent::DpiChanged { dpi }, *env),
            acts(final(out)@) == acts(old(out)@) + old(self).answer_acts(OverlayEvent::DpiChanged { dpi }, *env),
            redraw == old(self).redraws(OverlayEvent::DpiChanged { dpi }, *env),
    {
        let ghost a = *self;
        let ghost o = acts(out@);
        let scale = S::ratio(dpi as i64, 96);
        if scale.minus(self.look.theme.scale).size().below(S::ratio(1, 10000)) {
            proof {
                assert(acts(out@) =~= o + a.answer_acts(OverlayEvent::DpiChanged { dpi }, *env));
            }
            return false;
        }
        let mut t = Theme::default();
        let ghost t0 = t;
        apply_theme_scale(&mut t, scale);
        self.look.theme = t;
        let wa = work_area_rect(
            env.work_area,
            self.look.origin.0,
            self.look.origin.1,
            self.look.vw,
            self.look.vh,
        );
        if reanchor_fences(
            &mut self.stock.desk,
            &self.look.heights,
            scale,
            wa,
            self.look.vw,
            self.look.vh,
        ) {
            perform(out, Action::Save);
        }
        proof {
            assert(t0.usual());
            assert(acts(out@) =~= o + a.answer_acts(OverlayEvent::DpiChanged { dpi }, *env));
        }
        true
    }

    fn change_display(&mut self, env: &Env, out: &mut Vec<Action<S>>)
        requires
            old(self).wf(),
            placement::countable(old(self).stock.desk.fences@),
        ensures
            final(self).wf(),
            old(self).answered(*final(self), OverlayEvent::DisplayChange, *env),
            acts(final(out)@) == acts(old(out)@) + old(self).answer_acts(OverlayEvent::DisplayChange, *env),
    {
        let ghost a = *self;
        let ghost o = acts(out@);
        let x = whole_number::<S>(env.screen.0 as i64);
        let y = whole_number::<S>(env.screen.1 as i64);
        let w = whole_number::<S>(env.screen.2 as i64);
        let h = whole_number::<S>(env.screen.3 as i64);
        let half = S::ratio(5, 10);
        let other = half.below(w.minus(self.look.vw).size()) || half.below(h.minus(self.look.vh).size())
            || !x.equals(self.look.origin.0) || !y.equals(self.look.origin.1);
        if other {
            perform(out, Action::ResizeOverlay(env.screen.0, env.screen.1, env.screen.2, env.screen.3));
            self.look.vw = w;
            self.look.vh = h;
            self.look.origin = (x, y);
            let wa = work_area_rect(env.work_area, x, y, w, h);
            if reanchor_fences(
                &mut self.stock.desk,
                &self.look.heights,
                self.look.theme.scale,
                wa,
                w,
                h,
            ) {
                perform(out, Action::Save);
            }
        }
        proof {
            assert(acts(out@) =~= o + a.answer_acts(OverlayEvent::DisplayChange, *env));
        }
    }

    fn compose(&mut self, text: String, out: &mut Vec<Action<S>>, ev: Ghost<OverlayEvent<S>>)
        requires
            old(self).wf(),
            ev@ matches OverlayEvent::ImeCompose { text: t, .. } ==> t == text,
            ev@ is ImeCompose || (ev@ is ImeStart && text@ == Seq::<char>::empty()),
        ensures
            final(self).wf(),
            old(self).ime_answered(*final(self), ev@),
            acts(final(out)@) == acts(old(out)@) + old(self).ime_acts(ev@),
    {
        let ghost a = *self;
        let ghost o = acts(out@);
        let theme = self.look.theme;
        match &mut self.edit {
            Some(e) => {
                e.composing = true;
                e.comp = text;
                let (x, y) = e.caret_point(&theme);
                perform(out, Action::PlaceIme(x, y));
            },
            None => {},
        }
        proof {
            assert(acts(out@) =~= o + a.ime_acts(ev@));
        }
    }

    fn click_text(&mut self, x: S, env: &Env, out: &mut Vec<Action<S>>)
        requires
            old(self).wf(),
        ensures
            final(self).wf(),
            old(self).answered(*final(self), OverlayEvent::EditCaret { x }, *env),
            acts(final(out)@) == acts(old(out)@) + old(self).answer_acts(OverlayEvent::EditCaret { x }, *env),
    {
        let ghost a = *self;
        let ghost o = acts(out@);
        let theme = self.look.theme;
        match &mut self.edit {
            Some(e) => {
                e.click(&theme, x);
                let (px, py) = e.caret_point(&theme);
                perform(out, Action::PlaceIme(px, py));
            },
            None => {},
        }
        proof {
            assert(acts(out@) =~= o + a.answer_acts(OverlayEvent::EditCaret { x }, *env));
        }
    }
}


impl<S: Scalar> Session<S> {
    #[verifier::rlimit(60)]
    fn answer(&mut self, ev: OverlayEvent<S>, env: Env, out: &mut Vec<Action<S>>) -> (redraw: bool)
        requires
            old(self).wf(),
            placement::countable(old(self).stock.desk.fences@),
            shaping::has_room(old(self).stock.desk.fences@),
        ensures
            final(self).wf(),
            old(self).answered(*final(self), ev, env),
            acts(final(out)@) == acts(old(out)@) + old(self).answer_acts(ev, env),
            redraw == old(self).redraws(ev, env),
    {
        let ghost a = *self;
        let ghost o = acts(out@);
        let ghost e0 = ev;
        let mut redraw = true;
        match ev {
            OverlayEvent::FenceMove { fence, pos } => {
                let wa = work_area_rect(
                    env.work_area,
                    self.look.origin.0,
                    self.look.origin.1,
                    self.look.vw,
                    self.look.vh,
                );
                move_fence(&mut self.stock.desk, &self.look.heights, fence, pos, wa);
            },
            OverlayEvent::FenceResize { fence, zone, rect } => {
                let wa = work_area_rect(
                    env.work_area,
                    self.look.origin.0,
                    self.look.origin.1,
                    self.look.vw,
                    self.look.vh,
                );
                resize_fence(
                    &mut self.stock.desk,
                    &self.look.heights,
                    fence,
                    zone,
                    rect,
                    self.look.theme.scale,
                    wa,
                );
            },
            OverlayEvent::IconDoubleClicked { fence, icon } => {
                if self.pick.selected.len() > 1 && is_selected(&self.pick.selected, (fence, icon)) {
                    launch_all(&self.pick.selected, out);
                } else {
                    perform(out, Action::Launch(fence, icon));
                    proof {
                        assert(launches::<S>(seq![(fence, icon)]) =~= seq![Act::<S>::Launch(fence, icon)]);
                    }
                }
            },
            OverlayEvent::IconClicked { fence, icon, ctrl } => {
                click_icon(&mut self.pick.selected, (fence, icon), ctrl);
            },
            OverlayEvent::SelectDrag { fence, rect, selected } => {
                self.pick.selected = selected;
                self.pick.band = Some((fence, RectF { x: rect.0, y: rect.1, w: rect.2, h: rect.3 }));
            },
            OverlayEvent::SelectEnd => {
                self.pick.band = None;
            },
            OverlayEvent::CursorMove { x, y } => {
                self.pick.cursor = Some((x, y));
                redraw = has_sidebar_dock(&self.stock.desk.fences);
            },
            OverlayEvent::CursorLeave => {
                self.pick.cursor = None;
                redraw = has_sidebar_dock(&self.stock.desk.fences);
            },
            OverlayEvent::HoverEnter { fence, icon } => {
                self.enter_icon(fence, icon, env.now, out);
            },
            OverlayEvent::HoverLeave => {
                self.leave_icon(env.now, out);
            },
            OverlayEvent::ContextMenu { fence, icon, pos } => {
                perform(out, Action::ContextMenu(fence, icon, pos));
            },
            OverlayEvent::FilesDropped { fence, paths } => {
                perform(out, Action::AddFiles(fence, paths));
            },
            OverlayEvent::FenceScroll { fence, delta } => {
                scroll_fence(&mut self.stock.desk, fence, delta, &self.look.theme);
                perform(out, Action::Save);
            },
            OverlayEvent::FenceDragEnd { .. } => {
                perform(out, Action::Save);
            },
            OverlayEvent::ConsoleClick { zone } => {
                self.click_zone(zone, env, out);
            },
            OverlayEvent::ConsoleScroll { delta } => {
                let s = self.look.theme.scale;
                let step = whole_number::<S>(CONSOLE_FENCE_ROW_H).times(s);
                let max = fence_scroll_max(self.stock.desk.fences.len(), s);
                self.look.fence_scroll = clamp(
                    self.look.fence_scroll.minus(S::ratio(delta as i64, 120).times(step)),
                    whole_number(0),
                    max,
                );
            },
            OverlayEvent::ConsoleHover { zone } => {
                self.pick.console_hover = zone;
            },
            OverlayEvent::KeyDown { vk, ctrl } => {
                self.press_key(vk, ctrl, &env, out);
            },
            OverlayEvent::Char { ch } => {
                self.type_char(ch, out);
            },
            OverlayEvent::EditCaret { x } => {
                self.click_text(x, &env, out);
            },
            OverlayEvent::ImeStart => {
                self.compose(String::new(), out, Ghost(e0));
            },
            OverlayEvent::ImeCompose { text, caret: _ } => {
                self.compose(text, out, Ghost(e0));
            },
            OverlayEvent::ImeResult { text } => {
                match &mut self.edit {
                    Some(e) => {
                        e.committing = true;
                        e.commit_ime(text.as_str());
                        e.committing = false;
                    },
                    None => {},
                }
            },
            OverlayEvent::ImeEnd => {
                match &mut self.edit {
                    Some(e) => {
                        e.composing = false;
                        e.comp = String::new();
                    },
                    None => {},
                }
            },
            OverlayEvent::OverlayFocusLost => {
                self.finish_edit(out);
            },
            OverlayEvent::ConsoleMove { pos } => {
                self.stock.desk.console_pos = Some(Vec2 { x: pos.0, y: pos.1 });
            },
            OverlayEvent::ConsoleDragEnd => {
                perform(out, Action::Save);
            },
            OverlayEvent::ConsoleResize { rect } => {
                let s = self.look.theme.scale;
                let pill = whole_number::<S>(CONSOLE_PILL_H).times(s);
                let panel = self.motion.console.panel.greatest(S::ratio(5, 100));
                let w = rect.2.greatest(whole_number::<S>(CONSOLE_MIN_W).times(s));
                let h = pill.plus(rect.3.minus(pill).over(panel)).greatest(
                    whole_number::<S>(CONSOLE_MIN_H).times(s),
                );
                self.stock.desk.console_size = Some((w, h));
            },
            OverlayEvent::ConsoleResizeEnd => {
                perform(out, Action::Save);
            },
            OverlayEvent::ConsoleToggle => {
                self.toggle_console(env.now, out);
            },
            OverlayEvent::TrayToggle => {
                self.toggle_console(env.now, out);
            },
            OverlayEvent::TrayMenu => {
                perform(out, Action::TrayMenu);
            },
            OverlayEvent::EditCommitted => {},
            OverlayEvent::AnimTick => {
                if !self.motion.advance(env.now) {
                    perform(out, Action::StopTimer);
                }
            },
            OverlayEvent::SyncLibrary => {
                if env.synced {
                    perform(out, Action::Save);
                }
                if waited(self.last_activity, env.now, IDLE_TRIM_AFTER) && waited(
                    self.last_trim,
                    env.now,
                    TRIM_MIN_INTERVAL,
                ) {
                    self.last_trim = env.now;
                    perform(out, Action::Trim);
                }
                redraw = env.synced;
            },
            OverlayEvent::DpiChanged { dpi } => {
                redraw = self.change_dpi(dpi, &env, out);
            },
            OverlayEvent::DisplayChange => {
                self.change_display(&env, out);
            },
            OverlayEvent::SidebarReorderDrag { fence, icon, mx, my } => {
                self.pick.reorder = Some((fence, icon, mx, my));
            },
            OverlayEvent::SidebarReorderEnd { fence, from, to } => {
                self.pick.reorder = None;
                if reorder_members(&mut self.stock.desk, fence, from, to) {
                    perform(out, Action::Save);
                }
            },
        }
        proof {
            assert(acts(out@) =~= o + a.answer_acts(e0, env));
        }
        redraw
    }

    /// `b` is `self` with the time of the event noted, and with a text that was being edited
    /// taken over where the event leaves it.
    pub open spec fn made_ready(self, b: Session<S>, ev: OverlayEvent<S>, env: Env) -> bool {
        let seen = Session {
            last_activity: if ev is SyncLibrary {
                self.last_activity
            } else {
                env.now
            },
            ..self
        };
        if leaves_edit(ev) {
            seen.finished(b)
        } else {
            b == seen
        }
    }

    /// What is to be done first because the event leaves the text being edited.
    pub open spec fn leaving_acts(self, ev: OverlayEvent<S>) -> Seq<Act<S>> {
        if leaves_edit(ev) {
            self.finish_acts()
        } else {
            Seq::empty()
        }
    }

    /// Handles an event: takes over a text that was being edited where the event leaves it,
    /// and answers the event.
    pub fn handle_event(&mut self, ev: OverlayEvent<S>, env: Env) -> (r: Outcome<S>)
        requires
            old(self).wf(),
            placement::countable(old(self).stock.desk.fences@),
            shaping::has_room(old(self).stock.desk.fences@),
        ensures
            final(self).wf(),
            exists|mid: Session<S>|
                {
                    &&& #[trigger] old(self).made_ready(mid, ev, env)
                    &&& mid.answered(*final(self), ev, env)
                    &&& acts(r.actions@) == old(self).leaving_acts(ev) + mid.answer_acts(ev, env)
                    &&& r.redraw == mid.redraws(ev, env)
                },
    {
        let ghost a = *self;
        let mut actions: Vec<Action<S>> = Vec::new();
        proof {
            assert(acts(actions@) =~= Seq::<Act<S>>::empty());
        }
        match &ev {
            OverlayEvent::SyncLibrary => {},
            _ => {
                self.last_activity = env.now;
            },
        }
        let ghost seen = *self;
        if is_popup_dismiss_event(&ev) {
            self.finish_edit(&mut actions);
        }
        let ghost mid = *self;
        proof {
            assert(seen.finish_acts() == a.finish_acts());
            assert(acts(actions@) =~= a.leaving_acts(ev));
            assert(a.made_ready(mid, ev, env));
            if leaves_edit(ev) {
                assert forall|i: int| 0 <= i < mid.stock.desk.fences@.len() implies {
                    &&& (#[trigger] mid.stock.desk.fences@[i]).icon_ids.len() <= i64::MAX
                    &&& mid.stock.desk.fences@[i].id < u64::MAX
                } by {
                    assert(a.stock.desk.fences@[i].icon_ids.len() <= i64::MAX);
                    assert(mid.stock.desk.fences@[i].icon_ids == a.stock.desk.fences@[i].icon_ids);
                    assert(mid.stock.desk.fences@[i].id == a.stock.desk.fences@[i].id);
                }
            }
        }
        let redraw = self.answer(ev, env, &mut actions);
        Outcome { actions, redraw }
    }
}

/// Folding and unfolding the console leaves the desk as it was.
pub proof fn law_toggling_twice<S: Scalar>(a: Session<S>, t1: u64, t2: u64)
    ensures
        a.toggled(t1).toggled(t2).stock == a.stock,
        a.toggled(t1).stock.desk.console_open == !a.stock.desk.console_open,
{
}

/// Moving the pointer about changes neither the desk nor the text being edited.
pub proof fn law_looking_changes_nothing<S: Scalar>(a: Session<S>, b: Session<S>, ev: OverlayEvent<S>, env: Env)
    requires
        a.answered(b, ev, env),
        ev is CursorMove || ev is CursorLeave || ev is HoverEnter || ev is HoverLeave || ev is ConsoleHover
            || ev is SelectDrag || ev is SelectEnd || ev is IconClicked || ev is AnimTick,
    ensures
        b.stock == a.stock,
        b.edit == a.edit,
        b.look == a.look,
{
}

/// Whatever a control of the console changes on the desk is written to the disk.
pub proof fn law_console_changes_are_saved<S: Scalar>(a: Session<S>, b: Session<S>, zone: ConsoleZone<S>, env: Env)
    requires
        a.zone_answered(b, zone, env),
        b.stock.desk != a.stock.desk,
    ensures
        a.zone_acts(zone, env).contains(Act::Save),
{
    let v = a.zone_acts(zone, env);
    assert(v.len() > 0);
    if v[0] == Act::<S>::Save {
    } else if v[1] == Act::<S>::Save {
    } else {
        assert(v[2] == Act::<S>::Save);
    }
}

/// The timer is stopped by the tick after which nothing moves, and by no other.
pub proof fn law_idle_stops_timer<S: Scalar>(a: Session<S>, b: Session<S>, env: Env)
    requires
        a.answered(b, OverlayEvent::AnimTick, env),
    ensures
        a.answer_acts(OverlayEvent::AnimTick, env) == if b.motion.moves(env.now) {
            Seq::<Act<S>>::empty()
        } else {
            seq![Act::StopTimer]
        },
{
}

/// Switching between fences and plain desktop twice leaves the desk as it was.
pub proof fn law_switching_twice<S: Scalar>(a: Session<S>, b: Session<S>, c: Session<S>, e1: Env, e2: Env)
    requires
        a.zone_answered(b, ConsoleZone::DesktopToggle, e1),
        b.zone_answered(c, ConsoleZone::DesktopToggle, e2),
    ensures
        c.stock == a.stock,
        b.stock.desk.desktop_mode == !a.stock.desk.desktop_mode,
{
}

/// A click selects: without the control key the icon alone, with it the icon as well, or no
/// longer if it was selected. What else is selected stays so with the control key, and does
/// not without.
pub proof fn law_click_selects(v: Seq<(usize, usize)>, key: (usize, usize), ctrl: bool, k: (usize, usize))
    ensures
        clicked_on(v, key, ctrl).contains(k) <==> if k == key {
            !ctrl || !v.contains(key)
        } else {
            ctrl && v.contains(k)
        },
        !ctrl ==> clicked_on(v, key, ctrl).len() == 1,
{
    lemma_deselected_has(v, key, k);
    let w = v.push(key);
    assert(w[v.len() as int] == key);
    assert(seq![key][0] == key);
    if v.contains(k) {
        let i = choose|i: int| 0 <= i < v.len() && v[i] == k;
        assert(w[i] == k);
    }
}

/// A double click opens the icon under the pointer, once, and with it all that are selected if
/// it is one of them; each is opened at its place.
pub proof fn law_double_click_opens(v: Seq<(usize, usize)>, key: (usize, usize))
    ensures
        ({
            let a = launches::<i64>(opened(v, key));
            &&& a.contains(Act::<i64>::Launch(key.0, key.1))
            &&& !v.contains(key) ==> a.len() == 1
            &&& v.contains(key) && v.len() > 1 ==> a.len() == v.len() && forall|i: int|
                0 <= i < v.len() ==> #[trigger] a[i] == Act::<i64>::Launch(v[i].0, v[i].1)
        }),
{
    let o = opened(v, key);
    let a = launches::<i64>(o);
    if v.len() > 1 && v.contains(key) {
        let i = choose|i: int| 0 <= i < v.len() && v[i] == key;
        assert(a[i] == Act::<i64>::Launch(key.0, key.1));
    } else {
        assert(o[0] == key);
        assert(a[0] == Act::<i64>::Launch(key.0, key.1));
    }
}

/// A control of the console gives the chosen fence what it stands for, and changes neither
/// anything else of that fence nor another one. The members of the fence, its title and the
/// folder it mirrors are not touched.
pub proof fn law_console_shapes_chosen_fence<S: Scalar>(a: Session<S>, b: Session<S>, zone: ConsoleZone<S>, env: Env)
    requires
        a.zone_answered(b, zone, env),
        0 <= a.chosen() < a.stock.desk.fences.len(),
        zone is FenceLayout || zone is FenceIconSize || zone is FenceStyle || zone is FenceTint
            || zone is FenceSidebarPos,
    ensures
        ({
            let i = a.chosen();
            let f = a.stock.desk.fences@[i];
            let g = b.stock.desk.fences@[i];
            &&& b.stock.desk.fences.len() == a.stock.desk.fences.len()
            &&& forall|j: int|
                0 <= j < a.stock.desk.fences.len() && j != i ==> #[trigger] b.stock.desk.fences@[j]
                    == a.stock.desk.fences@[j]
            &&& g.id == f.id && g.title == f.title && g.icon_ids == f.icon_ids && g.storage_path == f.storage_path
            &&& zone matches ConsoleZone::FenceLayout(l) ==> g.appearance.layout == l && g.appearance.bg_style
                == f.appearance.bg_style && g.appearance.icon_size == f.appearance.icon_size && g.appearance.tint
                == f.appearance.tint && g.appearance.sidebar_pos == f.appearance.sidebar_pos
            &&& zone matches ConsoleZone::FenceIconSize(n) ==> g.appearance.icon_size == n && g == (Fence {
                appearance: g.appearance,
                ..f
            }) && g.appearance.layout == f.appearance.layout && g.appearance.bg_style == f.appearance.bg_style
            &&& zone matches ConsoleZone::FenceStyle(x) ==> g.appearance.bg_style == x && g == (Fence {
                appearance: g.appearance,
                ..f
            }) && g.appearance.layout == f.appearance.layout && g.appearance.icon_size == f.appearance.icon_size
                && g.appearance.tint == f.appearance.tint
            &&& zone matches ConsoleZone::FenceTint(c) ==> g.appearance.tint == c && g == (Fence {
                appearance: g.appearance,
                ..f
            }) && g.appearance.layout == f.appearance.layout && g.appearance.bg_style == f.appearance.bg_style
            &&& zone matches ConsoleZone::FenceSidebarPos(p) ==> g.appearance.sidebar_pos == p && g.appearance.layout
                == f.appearance.layout && (f.appearance.layout != FenceLayout::Sidebar ==> g.bounds == f.bounds)
        }),
{
}

/// The console folds by its button and unfolds by its pill, whatever it was; switching the
/// desktop hides the fences if they are shown and the icons of the desktop if not.
pub proof fn law_console_buttons<S: Scalar>(a: Session<S>, b: Session<S>, zone: ConsoleZone<S>, env: Env)
    requires
        a.zone_answered(b, zone, env),
    ensures
        zone is Close ==> !b.stock.desk.console_open,
        zone is Expand ==> b.stock.desk.console_open,
        zone is Close || zone is Expand ==> b.stock.desk.fences == a.stock.desk.fences && b.stock.desk.desktop_mode
            == a.stock.desk.desktop_mode,
        zone is DesktopToggle ==> b.stock.desk.desktop_mode != a.stock.desk.desktop_mode && b.stock.desk.fences
            == a.stock.desk.fences && a.zone_acts(zone, env).contains(
            if b.stock.desk.desktop_mode {
                Act::<S>::RestoreIcons
            } else {
                Act::<S>::HideIcons
            },
        ),
        zone matches ConsoleZone::FenceSelect(i) ==> b.stock == a.stock && (i < a.stock.desk.fences.len()
            ==> b.look.selected_fence == i),
{
    if zone is DesktopToggle {
        let acts = a.zone_acts(zone, env);
        assert(acts[0] == if b.stock.desk.desktop_mode {
            Act::<S>::RestoreIcons
        } else {
            Act::<S>::HideIcons
        });
    }
}

/// Turning the wheel over the console scrolls its list of fences, down towards the user and up
/// away from the user, and never beyond either end. Nothing else changes.
pub proof fn law_console_scrolls(a: Session<i64>, b: Session<i64>, notches: i32, env: Env)
    requires
        a.answered(b, OverlayEvent::ConsoleScroll { delta: (notches * 120) as i32 }, env),
        -1000 <= notches <= 1000,
        1 <= a.look.theme.scale <= 16,
        a.stock.desk.fences.len() <= 0x1_0000,
        0 <= a.look.fence_scroll,
        a.look.fence_scroll <= 0x1000_0000,
    ensures
        b == (Session { look: Look { fence_scroll: b.look.fence_scroll, ..a.look }, ..a }),
        0 <= b.look.fence_scroll,
        notches >= 0 ==> b.look.fence_scroll <= a.look.fence_scroll,
        ({
            let most = if a.stock.desk.fences.len() <= 5 {
                0
            } else {
                (a.stock.desk.fences.len() - 5) * 36 * a.look.theme.scale
            };
            let want = a.look.fence_scroll - notches * (36 * a.look.theme.scale);
            b.look.fence_scroll == if want < 0 {
                0
            } else if want > most {
                most
            } else {
                want
            }
        }),
{
    let s = a.look.theme.scale;
    let n = a.stock.desk.fences.len() as int;
    let d = (notches * 120) as i32;
    assert(d as int / 120 == notches) by (nonlinear_arith)
        requires
            d == notches * 120,
    ;
    assert(i64::lit(d as i64, 120) == notches);
    assert(scalar::num::<i64>(CONSOLE_FENCE_ROW_H as int) == 36 && scalar::num::<i64>(0) == 0);
    let row = Scalar::mul(36i64, s);
    assert(row == 36 * s);
    assert(-1000 * 576 <= notches * row <= 1000 * 576) by (nonlinear_arith)
        requires
            -1000 <= notches <= 1000,
            0 <= row <= 576,
    ;
    if n > 5 {
        let k = scalar::num::<i64>(n - 5);
        assert(k == n - 5);
        let h = Scalar::mul(k, 36i64);
        assert(h == k * 36);
        assert(0 <= h * s <= 0x1_0000 * 36 * 16) by (nonlinear_arith)
            requires
                0 <= h <= 0x1_0000 * 36,
                1 <= s <= 16,
        ;
        assert(scroll_max::<i64>(n, s) == h * s);
        assert(h * s == (n - 5) * 36 * s);
    }
}

/// Once a text is taken over nothing is edited any more. A fence whose title was edited is
/// called what was typed, without blanks at its ends, unless that is nothing; no other fence
/// and nothing else of that fence changes.
pub proof fn law_title_is_taken_over<S: Scalar>(a: Session<S>, b: Session<S>, fence: usize)
    requires
        a.finished(b),
        a.edit matches Some(e) && e.target == (EditTarget::FenceTitle { fence }),
    ensures
        b.edit is None,
        b.stock.desk.fences.len() == a.stock.desk.fences.len(),
        forall|j: int|
            0 <= j < a.stock.desk.fences.len() && j != fence ==> #[trigger] b.stock.desk.fences@[j]
                == a.stock.desk.fences@[j],
        fence < a.stock.desk.fences.len() ==> ({
            let f = a.stock.desk.fences@[fence as int];
            let g = b.stock.desk.fences@[fence as int];
            let name = chars::trimmed(a.new_name());
            &&& g == (Fence { title: g.title, ..f })
            &&& name.len() == 0 ==> g == f
            &&& name.len() > 0 ==> console::fence_name(g, fence as int) == name
        }),
{
    let name = chars::trimmed(a.new_name());
    if !shaping::new_title(a.stock.desk.fences@, fence as int, name) {
        assert(b.stock.desk.fences == a.stock.desk.fences);
    }
}

/// Giving an edit up changes no name: neither the fences nor what is to be done on the disk.
pub proof fn law_cancelled_edit_changes_nothing<S: Scalar>(a: Session<S>, b: Session<S>, ctrl: bool, env: Env)
    requires
        a.edit is Some,
        a.key_answered(b, 0x1B, ctrl, env),
    ensures
        b.edit is None,
        b.stock == a.stock,
        a.key_acts(0x1B, ctrl, env).len() == 0,
{
}

/// A text being edited stays open while the user only looks around: moving the pointer,
/// turning the wheel, typing, timers and changes of the screen do not take it over. A click
/// or a drag elsewhere does.
pub proof fn law_looking_around_keeps_the_edit<S: Scalar>(s: Session<S>, b: Session<S>, ev: OverlayEvent<S>, env: Env)
    requires
        s.made_ready(b, ev, env),
    ensures
        ev is HoverEnter || ev is HoverLeave || ev is CursorMove || ev is CursorLeave || ev is FenceScroll
            || ev is ConsoleScroll || ev is ConsoleHover || ev is AnimTick || ev is SyncLibrary || ev is KeyDown
            || ev is Char || ev is EditCaret || ev is ImeStart || ev is ImeCompose || ev is ImeResult || ev is ImeEnd
            || ev is DpiChanged || ev is DisplayChange ==> b.edit == s.edit && b.stock == s.stock,
        ev is IconClicked || ev is FenceMove || ev is FenceResize || ev is SelectDrag || ev is ContextMenu
            || ev is FilesDropped || ev is ConsoleClick || ev is ConsoleMove || ev is IconDoubleClicked ==> b.edit is None,
        b.pick == s.pick,
        b.look == s.look,
        b.motion == s.motion,
{
}

/// The icon that the pointer comes on begins to grow, and that alone; when the pointer leaves
/// it, it begins to shrink back from the size it has by then.
pub proof fn law_pointer_grows_its_icon<S: Scalar>(m: Motion<S>, fence: usize, icon: usize, now: u64)
    ensures
        entered(m, fence, icon, now).icon_hover matches Some(h) && h.fence == fence && h.icon == icon && h.t0 == now
            && h.to == scalar::num::<S>(1),
        m.icon_hover is None ==> entered(m, fence, icon, now).icon_hover->0.from == scalar::num::<S>(0),
        m.icon_hover matches Some(g) ==> (left(m, now).icon_hover matches Some(h) && h.fence == g.fence && h.icon == g.icon
            && h.t0 == now && h.to == scalar::num::<S>(0) && h.from == motion::slowing(g.t0, g.dur, g.from, g.to, now)),
        m.icon_hover is None ==> left(m, now) == m,
        entered(m, fence, icon, now).fence_tweens == m.fence_tweens,
        left(m, now).fence_tweens == m.fence_tweens,
        entered(m, fence, icon, now).console == m.console,
        left(m, now).console == m.console,
{
}

} // verus!
