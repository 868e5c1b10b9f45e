//! What moves on the screen: the panel unfolding, fences following a drag, icons growing
//! under the pointer. Times are in nanoseconds from any fixed moment.

use vstd::prelude::*;

use crate::animation;
use crate::animation::{ease, Ease};
use crate::geometry::Rect;
use crate::scalar;
use crate::scalar::{whole_number, Scalar};

verus! {

pub const NANOS: u64 = 1_000_000_000;

/// A number on its way from `from` to `to`, for `dur` seconds from `t0` on.
#[derive(Debug, Clone, Copy, PartialEq)]
pub struct PanelTween<S> {
    pub t0: u64,
    pub dur: S,
    pub from: S,
    pub to: S,
}

/// How far the panel is unfolded, from 0 to 1.
#[derive(Debug, Clone, Copy, PartialEq)]
pub struct ConsoleAnim<S> {
    pub panel: S,
    pub panel_tween: Option<PanelTween<S>>,
}

/// A fence on its way to a rectangle where it already stands.
#[derive(Debug, Clone, Copy, PartialEq)]
pub struct FenceTween<S> {
    pub fence: usize,
    pub from: Rect<S>,
    pub to: Rect<S>,
    pub t0: u64,
    pub dur: S,
}

/// An icon growing (to 1) or shrinking back (to 0).
#[derive(Debug, Clone, Copy, PartialEq)]
pub struct IconHoverAnim<S> {
    pub fence: usize,
    pub icon: usize,
    pub t0: u64,
    pub dur: S,
    pub from: S,
    pub to: S,
}

/// The seconds from `t0` to `now`.
pub open spec fn seconds<S: Scalar>(t0: u64, now: u64) -> S {
    let d = if now < t0 {
        0
    } else {
        now - t0
    };
    scalar::num::<S>(d / NANOS as int).add(S::lit((d % NANOS as int) as i64, NANOS as i64))
}

/// The part of `dur` seconds from `t0` on that is over at `now`; none when all of it is.
pub open spec fn progress<S: Scalar>(t0: u64, dur: S, now: u64) -> Option<S> {
    let el = seconds::<S>(t0, now);
    if dur.le(el) {
        None
    } else {
        Some(el.div(dur))
    }
}

/// The part of `dur` seconds from `t0` on that is over at `now`.
pub fn tween_progress<S: Scalar>(t0: u64, dur: S, now: u64) -> (r: Option<S>)
    ensures
        r == progress(t0, dur, now),
{
    let d: u64 = if now < t0 {
        0
    } else {
        now - t0
    };
    let el = whole_number::<S>((d / NANOS) as i64).plus(S::ratio((d % NANOS) as i64, 1_000_000_000));
    if dur.at_most(el) {
        None
    } else {
        Some(el.over(dur))
    }
}

/// The number that is the part `e` of the way from `a` to `b`.
pub open spec fn between<S: Scalar>(a: S, b: S, e: S) -> S {
    a.add(b.sub(a).mul(e))
}

fn blend<S: Scalar>(a: S, b: S, e: S) -> (r: S)
    ensures
        r == between(a, b, e),
{
    a.plus(b.minus(a).times(e))
}

/// A number that slows down as it gets from `from` to `to`.
pub open spec fn slowing<S: Scalar>(t0: u64, dur: S, from: S, to: S, now: u64) -> S {
    match progress(t0, dur, now) {
        Some(p) => between(from, to, animation::eased(p, Ease::CubicOut)),
        None => to,
    }
}

fn slow<S: Scalar>(t0: u64, dur: S, from: S, to: S, now: u64) -> (r: S)
    ensures
        r == slowing(t0, dur, from, to, now),
{
    match tween_progress(t0, dur, now) {
        Some(p) => blend(from, to, ease(p, Ease::CubicOut)),
        None => to,
    }
}

impl<S: Scalar> ConsoleAnim<S> {
    pub fn new(open: bool) -> (r: Self)
        ensures
            r.panel_tween is None,
            r.panel == scalar::num::<S>(
                if open {
                    1
                } else {
                    0
                },
            ),
    {
        ConsoleAnim {
            panel: whole_number(
                if open {
                    1
                } else {
                    0
                },
            ),
            panel_tween: None,
        }
    }

    /// The panel at `now`: it shoots past its end a little.
    pub open spec fn at(self, now: u64) -> ConsoleAnim<S> {
        match self.panel_tween {
            Some(t) => match progress(t.t0, t.dur, now) {
                Some(p) => ConsoleAnim {
                    panel: between(t.from, t.to, animation::eased(p, Ease::BackOut)),
                    panel_tween: self.panel_tween,
                },
                None => ConsoleAnim { panel: t.to, panel_tween: None },
            },
            None => self,
        }
    }

    /// Moves on to `now`.
    pub fn advance(&mut self, now: u64)
        ensures
            *final(self) == old(self).at(now),
    {
        if let Some(t) = self.panel_tween {
            match tween_progress(t.t0, t.dur, now) {
                Some(p) => {
                    self.panel = blend(t.from, t.to, ease(p, Ease::BackOut));
                },
                None => {
                    self.panel = t.to;
                    self.panel_tween = None;
                },
            }
        }
    }
}

impl<S: Scalar> IconHoverAnim<S> {
    pub fn progress(&self, now: u64) -> (r: S)
        ensures
            r == slowing(self.t0, self.dur, self.from, self.to, now),
    {
        slow(self.t0, self.dur, self.from, self.to, now)
    }
}

/// All that moves.
#[derive(Debug, PartialEq)]
pub struct Motion<S> {
    pub console: ConsoleAnim<S>,
    /// The fences appearing or disappearing as a whole.
    pub desktop_fade: Option<PanelTween<S>>,
    pub fence_tweens: Vec<FenceTween<S>>,
    pub icon_hover: Option<IconHoverAnim<S>>,
}

/// The tweens of `v` that are not over at `now`.
pub open spec fn unfinished<S: Scalar>(v: Seq<FenceTween<S>>, now: u64) -> Seq<FenceTween<S>> {
    v.filter(|t: FenceTween<S>| progress(t.t0, t.dur, now) is Some)
}

/// The tweens of `v` of other fences.
pub open spec fn of_others<S: Scalar>(v: Seq<FenceTween<S>>, fence: usize) -> Seq<FenceTween<S>> {
    v.filter(|t: FenceTween<S>| t.fence != fence)
}

/// Index of the first tween of `fence` in `v` from `from` on.
pub open spec fn tween_from<S>(v: Seq<FenceTween<S>>, fence: usize, from: int) -> int
    decreases v.len() - from,
{
    if from < 0 || from >= v.len() || v[from].fence == fence {
        from
    } else {
        tween_from(v, fence, from + 1)
    }
}

/// The rectangle of a moving fence at `now`.
pub open spec fn moving_rect<S: Scalar>(t: FenceTween<S>, now: u64) -> Rect<S> {
    match progress(t.t0, t.dur, now) {
        Some(p) => {
            let e = animation::eased(p, Ease::CubicOut);
            Rect {
                x: between(t.from.x, t.to.x, e),
                y: between(t.from.y, t.to.y, e),
                w: between(t.from.w, t.to.w, e),
                h: between(t.from.h, t.to.h, e),
            }
        },
        None => t.to,
    }
}

/// The rectangle of `fence` as it is shown at `now`, if its own is `bounds`.
pub open spec fn shown_rect<S: Scalar>(v: Seq<FenceTween<S>>, fence: usize, bounds: Rect<S>, now: u64) -> Rect<S> {
    let k = tween_from(v, fence, 0);
    if k < v.len() {
        moving_rect(v[k], now)
    } else {
        bounds
    }
}

impl<S: Scalar> Motion<S> {
    /// Nothing moves.
    pub fn new(open: bool) -> (r: Self)
        ensures
            r.console.panel_tween is None,
            r.console.panel == scalar::num::<S>(
                if open {
                    1
                } else {
                    0
                },
            ),
            r.desktop_fade is None,
            r.fence_tweens.len() == 0,
            r.icon_hover is None,
    {
        Motion {
            console: ConsoleAnim::new(open),
            desktop_fade: None,
            fence_tweens: Vec::new(),
            icon_hover: None,
        }
    }

    /// Whether an icon is growing or shrinking.
    pub open spec fn icon_moves(self, now: u64) -> bool {
        self.icon_hover matches Some(h) && progress(h.t0, h.dur, now) is Some
    }

    /// Whether anything is in motion.
    pub open spec fn moves(self, now: u64) -> bool {
        self.console.panel_tween is Some || self.desktop_fade is Some || self.fence_tweens.len() > 0
            || self.icon_moves(now)
    }

    pub fn icon_hover_active(&self, now: u64) -> (r: bool)
        ensures
            r == self.icon_moves(now),
    {
        match self.icon_hover {
            Some(h) => tween_progress(h.t0, h.dur, now).is_some(),
            None => false,
        }
    }

    /// Whether the timer that moves things on has to run.
    pub fn timer_needed(&self, now: u64) -> (r: bool)
        ensures
            r == self.moves(now),
    {
        self.console.panel_tween.is_some() || self.desktop_fade.is_some() || self.fence_tweens.len() > 0
            || self.icon_hover_active(now)
    }

    /// Moves everything on to `now`; gives whether anything still moves.
    pub fn advance(&mut self, now: u64) -> (r: bool)
        ensures
            final(self).console == old(self).console.at(now),
            final(self).desktop_fade == match old(self).desktop_fade {
                Some(t) => if progress(t.t0, t.dur, now) is Some {
                    Some(t)
                } else {
                    None
                },
                None => None,
            },
            final(self).fence_tweens@ == unfinished(old(self).fence_tweens@, now),
            final(self).icon_hover == old(self).icon_hover,
            r == final(self).moves(now),
    {
        if let Some(t) = self.desktop_fade {
            if tween_progress(t.t0, t.dur, now).is_none() {
                self.desktop_fade = None;
            }
        }
        let mut kept: Vec<FenceTween<S>> = Vec::new();
        let mut i: usize = 0;
        while i < self.fence_tweens.len()
            invariant
                i <= self.fence_tweens.len(),
                kept@ == unfinished(self.fence_tweens@.take(i as int), now),
            decreases self.fence_tweens.len() - i,
        {
            proof {
                let v = self.fence_tweens@;
                reveal(Seq::filter);
                assert(v.take(i + 1).drop_last() =~= v.take(i as int));
            }
            let t = self.fence_tweens[i];
            if tween_progress(t.t0, t.dur, now).is_some() {
                kept.push(t);
            }
            i += 1;
        }
        proof {
            assert(self.fence_tweens@.take(i as int) =~= self.fence_tweens@);
        }
        self.fence_tweens = kept;
        self.console.advance(now);
        self.timer_needed(now)
    }

    /// Starts unfolding the panel to `to`.
    pub fn start_panel_tween(&mut self, now: u64, to: S)
        ensures
            final(self).console == (ConsoleAnim {
                panel: old(self).console.panel,
                panel_tween: Some(
                    PanelTween { t0: now, dur: S::lit(24, 100), from: old(self).console.panel, to },
                ),
            }),
            final(self).desktop_fade == old(self).desktop_fade,
            final(self).fence_tweens == old(self).fence_tweens,
            final(self).icon_hover == old(self).icon_hover,
    {
        let from = self.console.panel;
        self.console.panel_tween = Some(PanelTween { t0: now, dur: S::ratio(24, 100), from, to });
    }

    /// How opaque the fences are at `now`; hidden by the desktop they are not seen.
    pub fn fence_alpha(&self, desktop_mode: bool, now: u64) -> (r: S)
        ensures
            r == self.alpha(desktop_mode, now),
    {
        match self.desktop_fade {
            Some(t) => slow(t.t0, t.dur, t.from, t.to, now),
            None => if desktop_mode {
                whole_number(0)
            } else {
                whole_number(1)
            },
        }
    }

    pub open spec fn alpha(self, desktop_mode: bool, now: u64) -> S {
        match self.desktop_fade {
            Some(t) => slowing(t.t0, t.dur, t.from, t.to, now),
            None => if desktop_mode {
                scalar::num(0)
            } else {
                scalar::num(1)
            },
        }
    }

    /// The rectangle of `fence` as it is shown at `now`, if its own is `bounds`.
    pub fn fence_visual_rect(&self, fence: usize, bounds: Rect<S>, now: u64) -> (r: Rect<S>)
        ensures
            r == shown_rect(self.fence_tweens@, fence, bounds, now),
    {
        let mut i: usize = 0;
        while i < self.fence_tweens.len()
            invariant
                i <= self.fence_tweens.len(),
                tween_from(self.fence_tweens@, fence, i as int) == tween_from(self.fence_tweens@, fence, 0),
            decreases self.fence_tweens.len() - i,
        {
            let t = self.fence_tweens[i];
            if t.fence == fence {
                return match tween_progress(t.t0, t.dur, now) {
                    Some(p) => {
                        let e = ease(p, Ease::CubicOut);
                        Rect {
                            x: blend(t.from.x, t.to.x, e),
                            y: blend(t.from.y, t.to.y, e),
                            w: blend(t.from.w, t.to.w, e),
                            h: blend(t.from.h, t.to.h, e),
                        }
                    },
                    None => t.to,
                };
            }
            i += 1;
        }
        bounds
    }

    /// Lets a fence move, in place of the way it was on.
    pub fn set_fence_tween(&mut self, tween: FenceTween<S>)
        ensures
            final(self).fence_tweens@ == of_others(old(self).fence_tweens@, tween.fence).push(tween),
            final(self).console == old(self).console,
            final(self).desktop_fade == old(self).desktop_fade,
            final(self).icon_hover == old(self).icon_hover,
    {
        let mut kept: Vec<FenceTween<S>> = Vec::new();
        let mut i: usize = 0;
        while i < self.fence_tweens.len()
            invariant
                i <= self.fence_tweens.len(),
                kept@ == of_others(self.fence_tweens@.take(i as int), tween.fence),
            decreases self.fence_tweens.len() - i,
        {
            proof {
                let v = self.fence_tweens@;
                reveal(Seq::filter);
                assert(v.take(i + 1).drop_last() =~= v.take(i as int));
            }
            let t = self.fence_tweens[i];
            if t.fence != tween.fence {
                kept.push(t);
            }
            i += 1;
        }
        proof {
            assert(self.fence_tweens@.take(i as int) =~= self.fence_tweens@);
        }
        kept.push(tween);
        self.fence_tweens = kept;
    }

    /// How much an icon is enlarged at `now`: by three tenths at most.
    pub open spec fn scale_of(self, fence: usize, icon: usize, now: u64) -> S {
        match self.icon_hover {
            Some(h) => if h.fence == fence && h.icon == icon {
                scalar::num::<S>(1).add(S::lit(3, 10).mul(slowing(h.t0, h.dur, h.from, h.to, now)))
            } else {
                scalar::num(1)
            },
            None => scalar::num(1),
        }
    }

    pub fn icon_hover_scale(&self, fence: usize, icon: usize, now: u64) -> (r: S)
        ensures
            r == self.scale_of(fence, icon, now),
    {
        match self.icon_hover {
            Some(h) => if h.fence == fence && h.icon == icon {
                whole_number::<S>(1).plus(S::ratio(3, 10).times(h.progress(now)))
            } else {
                whole_number(1)
            },
            None => whole_number(1),
        }
    }
}

/// No fence is on two ways at once.
pub open spec fn one_way_each<S>(v: Seq<FenceTween<S>>) -> bool {
    forall|i: int, j: int| 0 <= i < j < v.len() ==> v[i].fence != v[j].fence
}

proof fn lemma_filtered<S: Scalar>(v: Seq<FenceTween<S>>, keep: spec_fn(FenceTween<S>) -> bool)
    requires
        one_way_each(v),
    ensures
        one_way_each(v.filter(keep)),
        forall|i: int| 0 <= i < v.filter(keep).len() ==> keep(#[trigger] v.filter(keep)[i]) && v.contains(v.filter(keep)[i]),
    decreases v.len(),
{
    reveal(Seq::filter);
    if v.len() > 0 {
        let w = v.drop_last();
        lemma_filtered(w, keep);
        assert forall|i: int| 0 <= i < v.filter(keep).len() implies keep(#[trigger] v.filter(keep)[i]) && v.contains(
            v.filter(keep)[i],
        ) by {
            let x = v.filter(keep)[i];
            if i < w.filter(keep).len() {
                assert(x == w.filter(keep)[i]);
                let j = choose|j: int| 0 <= j < w.len() && w[j] == x;
                assert(v[j] == x);
            } else {
                assert(v[v.len() - 1] == x);
            }
        }
        assert forall|i: int, j: int| 0 <= i < j < v.filter(keep).len() implies v.filter(keep)[i].fence != v.filter(
            keep,
        )[j].fence by {
            if j == w.filter(keep).len() {
                let x = w.filter(keep)[i];
                let k = choose|k: int| 0 <= k < w.len() && w[k] == x;
                assert(v[k].fence != v.last().fence);
            }
        }
    }
}

/// Letting a fence move and moving things on both keep every fence on one way at most.
pub proof fn law_one_way_each<S: Scalar>(v: Seq<FenceTween<S>>, t: FenceTween<S>, now: u64)
    requires
        one_way_each(v),
    ensures
        one_way_each(unfinished(v, now)),
        one_way_each(of_others(v, t.fence).push(t)),
{
    lemma_filtered(v, |t: FenceTween<S>| progress(t.t0, t.dur, now) is Some);
    lemma_filtered(v, |u: FenceTween<S>| u.fence != t.fence);
}

proof fn lemma_tween_from<S>(v: Seq<FenceTween<S>>, fence: usize, from: int, k: int)
    requires
        0 <= from <= k < v.len(),
        v[k].fence == fence,
        forall|i: int| from <= i < k ==> v[i].fence != fence,
    ensures
        tween_from(v, fence, from) == k,
    decreases k - from,
{
    if from < k {
        lemma_tween_from(v, fence, from + 1, k);
    }
}

/// A fence that starts to move from where it is shown does not jump, and once its time is
/// over it is shown where it stands.
pub proof fn law_fence_moves_smoothly(v: Seq<FenceTween<i64>>, t: FenceTween<i64>, bounds: Rect<i64>, now: u64)
    requires
        one_way_each(v),
        t.t0 == now,
        t.dur > 0,
        t.from == shown_rect(v, t.fence, bounds, now),
    ensures
        shown_rect(of_others(v, t.fence).push(t), t.fence, bounds, now) == t.from,
        forall|later: u64|
            progress(t.t0, t.dur, later) is None ==> #[trigger] shown_rect(
                of_others(v, t.fence).push(t),
                t.fence,
                bounds,
                later,
            ) == t.to,
{
    let w = of_others(v, t.fence);
    lemma_filtered(v, |u: FenceTween<i64>| u.fence != t.fence);
    assert forall|i: int| 0 <= i < w.len() implies w.push(t)[i].fence != t.fence by {
        assert(w[i].fence != t.fence);
    }
    lemma_tween_from(w.push(t), t.fence, 0, w.len() as int);
    let el = seconds::<i64>(now, now);
    assert(el == 0);
    assert(<i64 as Scalar>::div(el, t.dur) == 0) by (nonlinear_arith)
        requires
            el == 0,
            t.dur > 0,
    ;
    animation::law_ease_endpoints(Ease::CubicOut);
    assert(forall|a: i64, b: i64| #[trigger] between(a, b, 0) == a) by {
        assert forall|a: i64, b: i64| #[trigger] between(a, b, 0) == a by {
            let d = <i64 as Scalar>::sub(b, a);
            assert(d * 0 == 0);
        }
    }
}

/// A movement is over when as many seconds have passed as it lasts, and not before; until
/// then, what is over of it is less than all.
pub proof fn law_movement_takes_its_time(t0: u64, dur: i64, now: u64)
    requires
        t0 <= now,
        0 < dur <= 0x1_0000_0000,
    ensures
        progress(t0, dur, now) is None <==> now - t0 >= dur * NANOS,
        progress(t0, dur, now) matches Some(p) ==> 0 <= p < 1,
{
    let d = (now - t0) as int;
    let n = NANOS as int;
    let q = d / n;
    vstd::arithmetic::div_mod::lemma_fundamental_div_mod(d, n);
    let rest = (d % n) as i64;
    assert(<i64 as Scalar>::lit(rest, NANOS as i64) == 0);
    assert(0 <= q <= d);
    assert(seconds::<i64>(t0, now) == q);
    assert(dur <= q <==> d >= dur * n) by (nonlinear_arith)
        requires
            d == n * q + (d % n),
            0 <= d % n < n,
            n > 0,
    ;
    if q < dur {
        assert(q / (dur as int) == 0) by (nonlinear_arith)
            requires
                0 <= q < dur,
        ;
    }
}

/// Fences are gone while the desktop is shown and fully there otherwise, once the change is
/// over; only the icon under the pointer ever has another size than usual.
pub proof fn law_fading_ends<S: Scalar>(m: Motion<S>, desktop_mode: bool, now: u64, fence: usize, icon: usize)
    ensures
        m.desktop_fade is None ==> m.alpha(desktop_mode, now) == scalar::num::<S>(
            if desktop_mode {
                0
            } else {
                1
            },
        ),
        m.desktop_fade matches Some(t) ==> progress(t.t0, t.dur, now) is Some || m.alpha(desktop_mode, now) == t.to,
        !(m.icon_hover matches Some(h) && h.fence == fence && h.icon == icon) ==> m.scale_of(fence, icon, now)
            == scalar::num::<S>(1),
{
}

} // verus!
