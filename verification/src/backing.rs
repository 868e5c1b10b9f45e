//! What the picture is drawn on: a surface that is not much larger than what is drawn,
//! and the blurred panes below it.

use vstd::prelude::*;

use crate::chars::same;
use crate::model::FenceLayout;
use crate::overlay::RectF;
use crate::scalar;
use crate::scalar::{whole_number, Scalar};
use crate::scene;
use crate::scene::{Scene, SceneFence};

verus! {

/// Room left on each side of what is drawn, in pixels.
pub const SURFACE_PAD: i64 = 16;

/// A surface is made smaller only when it is more than this many times too large.
pub const SHRINK_FACTOR: i64 = 4;

/// `x` as a number of pixels.
pub open spec fn side<S: Scalar>(x: S) -> u32 {
    let n = x.max(scalar::num(1)).ceiled().whole();
    if n <= 0 {
        0
    } else if n > u32::MAX {
        u32::MAX
    } else {
        n as u32
    }
}

fn side_of<S: Scalar>(x: S) -> (r: u32)
    ensures
        r == side(x),
{
    let n: i64 = x.greatest(whole_number(1)).up().cut();
    if n <= 0 {
        0
    } else if n > u32::MAX as i64 {
        u32::MAX
    } else {
        n as u32
    }
}

/// The rectangle with room on each side.
pub open spec fn padded<S: Scalar>(b: RectF<S>) -> RectF<S> {
    let pad = scalar::num::<S>(SURFACE_PAD as int);
    let twice = scalar::num::<S>(2).mul(pad);
    RectF { x: b.x.sub(pad), y: b.y.sub(pad), w: b.w.add(twice), h: b.h.add(twice) }
}

/// `a` covers all of `b`.
pub open spec fn covers<S: Scalar>(a: RectF<S>, b: RectF<S>) -> bool {
    a.x.le(b.x) && a.y.le(b.y) && b.right_edge().le(a.right_edge()) && b.bottom_edge().le(a.bottom_edge())
}

/// `a` is much larger than `b`.
pub open spec fn dwarfs<S: Scalar>(a: RectF<S>, b: RectF<S>) -> bool {
    scalar::num::<S>(SHRINK_FACTOR as int).mul(b.w.mul(b.h)).lt(a.w.mul(a.h))
}

/// The surface in place of `cur` for a picture within `b`; none where `cur` will do.
/// `keep_large` stands for a picture whose size changes too often to follow it down.
pub open spec fn renewed<S: Scalar>(cur: RectF<S>, b: RectF<S>, keep_large: bool) -> Option<RectF<S>> {
    let want = padded(b);
    if covers(cur, want) && (keep_large || !dwarfs(cur, want)) {
        None
    } else {
        Some(want)
    }
}

/// Some fence of the picture is a dock, whose labels come and go with the pointer.
pub open spec fn shows_dock<S>(fences: Seq<SceneFence<S>>) -> bool {
    exists|i: int| 0 <= i < fences.len() && (#[trigger] fences[i]).layout is Sidebar
}

fn has_dock<S>(fences: &Vec<SceneFence<S>>) -> (r: bool)
    ensures
        r == shows_dock(fences@),
{
    let mut i: usize = 0;
    while i < fences.len()
        invariant
            i <= fences.len(),
            forall|j: int| 0 <= j < i ==> !((#[trigger] fences[j]).layout is Sidebar),
        decreases fences.len() - i,
    {
        if fences[i].layout == FenceLayout::Sidebar {
            return true;
        }
        i += 1;
    }
    false
}

/// The surface that is drawn on: the part of the screen that it covers, and its size.
#[derive(Debug, PartialEq)]
pub struct Backing<S> {
    pub area: RectF<S>,
    pub width: u32,
    pub height: u32,
}

impl<S: Scalar> Backing<S> {
    /// The least surface, at the origin.
    pub fn new() -> (r: Self)
        ensures
            r.area == (RectF {
                x: scalar::num::<S>(0),
                y: scalar::num::<S>(0),
                w: scalar::num::<S>(1),
                h: scalar::num::<S>(1),
            }),
            r.width == 1,
            r.height == 1,
    {
        Backing {
            area: RectF {
                x: whole_number(0),
                y: whole_number(0),
                w: whole_number(1),
                h: whole_number(1),
            },
            width: 1,
            height: 1,
        }
    }

    /// The surface to make before a picture is drawn; none where this one will do.
    pub fn ensure_covering(&self, scene: &Scene<S>) -> (r: Option<Backing<S>>)
        ensures
            match r {
                Some(b) => scene::boxes(*scene).len() > 0 && renewed(
                    self.area,
                    scene::hull(scene::boxes(*scene)),
                    shows_dock(scene.fences@),
                ) == Some(b.area) && b.width == side(b.area.w) && b.height == side(b.area.h),
                None => scene::boxes(*scene).len() > 0 ==> renewed(
                    self.area,
                    scene::hull(scene::boxes(*scene)),
                    shows_dock(scene.fences@),
                ) is None,
            },
    {
        let b = match scene.content_rect() {
            Some(b) => b,
            None => {
                return None;
            },
        };
        let keep_large = has_dock(&scene.fences);
        let pad: S = whole_number(SURFACE_PAD);
        let twice: S = whole_number::<S>(2).times(pad);
        let want = RectF {
            x: b.x.minus(pad),
            y: b.y.minus(pad),
            w: b.w.plus(twice),
            h: b.h.plus(twice),
        };
        let cur = &self.area;
        let covers = cur.x.at_most(want.x) && cur.y.at_most(want.y) && want.x.plus(want.w).at_most(
            cur.x.plus(cur.w),
        ) && want.y.plus(want.h).at_most(cur.y.plus(cur.h));
        let oversized = !keep_large && whole_number::<S>(SHRINK_FACTOR).times(want.w.times(want.h)).below(
            cur.w.times(cur.h),
        );
        if covers && !oversized {
            return None;
        }
        let width = side_of(want.w);
        let height = side_of(want.h);
        Some(Backing { area: want, width, height })
    }

    /// The size of the surface, in pixels.
    pub fn size(&self) -> (r: (u32, u32))
        ensures
            r == (self.width, self.height),
    {
        (self.width, self.height)
    }
}

/// The surface that is made covers all that is drawn, with room on each side; and while
/// a dock is seen no surface that covers it is given up.
pub proof fn law_surface_covers(cur: RectF<i64>, b: RectF<i64>, keep_large: bool)
    ensures
        renewed(cur, b, keep_large) matches Some(a) ==> covers(a, padded(b)),
        renewed(cur, b, keep_large) is None ==> covers(cur, padded(b)),
        covers(cur, padded(b)) ==> renewed(cur, b, true) is None,
{
}

/// A surface that was just made for a picture is kept for the next one of the same extent.
pub proof fn law_surface_settles(cur: RectF<i64>, b: RectF<i64>, keep_large: bool)
    requires
        b.w >= 0,
        b.h >= 0,
    ensures
        renewed(cur, b, keep_large) matches Some(a) ==> renewed(a, b, keep_large) is None,
{
    if let Some(a) = renewed(cur, b, keep_large) {
        let area: int = a.w * a.h;
        assert(area >= 0) by (nonlinear_arith)
            requires
                area == a.w * a.h,
                a.w >= 0,
                a.h >= 0,
        ;
        let p: i64 = <i64 as Scalar>::mul(a.w, a.h);
        assert(p == scalar::stopped(area));
        assert(scalar::num::<i64>(SHRINK_FACTOR as int) == 4);
        assert(<i64 as Scalar>::mul(4, p) == scalar::stopped(4 * p));
        assert(!dwarfs(a, padded(b)));
    }
}

/// A blurred pane below the picture.
#[derive(Debug, PartialEq)]
pub struct BlurPane<S> {
    pub x: S,
    pub y: S,
    pub w: S,
    pub h: S,
    pub corner: S,
    pub opacity: S,
}

impl<S: Scalar> BlurPane<S> {
    pub open spec fn same_as(self, o: BlurPane<S>) -> bool {
        self.x.same_as(o.x) && self.y.same_as(o.y) && self.w.same_as(o.w) && self.h.same_as(o.h)
            && self.corner.same_as(o.corner) && self.opacity.same_as(o.opacity)
    }

    fn equals(&self, o: &BlurPane<S>) -> (r: bool)
        ensures
            r == self.same_as(*o),
    {
        self.x.equals(o.x) && self.y.equals(o.y) && self.w.equals(o.w) && self.h.equals(o.h)
            && self.corner.equals(o.corner) && self.opacity.equals(o.opacity)
    }
}

/// Something to do to the pane of a fence.
#[derive(Debug, PartialEq)]
pub enum BlurStep<S> {
    Remove(usize),
    Update(usize, BlurPane<S>),
    Create(usize, BlurPane<S>),
}

/// The pane of a fence.
pub open spec fn pane<S>(f: SceneFence<S>, corner: S) -> BlurPane<S> {
    BlurPane { x: f.x, y: f.y, w: f.width, h: f.height, corner, opacity: f.alpha }
}

fn pane_of<S: Scalar>(f: &SceneFence<S>, corner: S) -> (r: BlurPane<S>)
    ensures
        r == pane(*f, corner),
{
    BlurPane { x: f.x, y: f.y, w: f.width, h: f.height, corner, opacity: f.alpha }
}

/// The pane at a place, if there is one.
pub open spec fn slot<S>(b: Seq<Option<BlurPane<S>>>, i: int) -> Option<BlurPane<S>> {
    if 0 <= i < b.len() {
        b[i]
    } else {
        None
    }
}

/// What is to be done for the fence at a place.
pub open spec fn step_at<S: Scalar>(
    b: Seq<Option<BlurPane<S>>>,
    fences: Seq<SceneFence<S>>,
    corner: S,
    i: int,
) -> Seq<BlurStep<S>> {
    let p = pane(fences[i], corner);
    match slot(b, i) {
        Some(o) => if !fences[i].blur {
            seq![BlurStep::Remove(i as usize)]
        } else if o.same_as(p) {
            Seq::empty()
        } else {
            seq![BlurStep::Update(i as usize, p)]
        },
        None => if fences[i].blur {
            seq![BlurStep::Create(i as usize, p)]
        } else {
            Seq::empty()
        },
    }
}

/// What is to be done for the first `n` fences.
pub open spec fn steps<S: Scalar>(
    b: Seq<Option<BlurPane<S>>>,
    fences: Seq<SceneFence<S>>,
    corner: S,
    n: int,
) -> Seq<BlurStep<S>>
    decreases n,
{
    if n <= 0 {
        Seq::empty()
    } else {
        steps(b, fences, corner, n - 1) + step_at(b, fences, corner, n - 1)
    }
}

/// What is to be done about the panes from `n` on, the last one first, down to `i`.
pub open spec fn leftovers<S>(b: Seq<Option<BlurPane<S>>>, i: int) -> Seq<BlurStep<S>>
    decreases b.len() - i,
{
    if i >= b.len() || i < 0 {
        Seq::empty()
    } else if b[i] is Some {
        leftovers(b, i + 1).push(BlurStep::Remove(i as usize))
    } else {
        leftovers(b, i + 1)
    }
}

/// The pane at a place after that, before new ones are made.
pub open spec fn pane_after<S: Scalar>(
    b: Seq<Option<BlurPane<S>>>,
    fences: Seq<SceneFence<S>>,
    corner: S,
    i: int,
) -> Option<BlurPane<S>> {
    let p = pane(fences[i], corner);
    match slot(b, i) {
        Some(o) => if !fences[i].blur {
            None
        } else if o.same_as(p) {
            Some(o)
        } else {
            Some(p)
        },
        None => None,
    }
}

/// The panes after that, before new ones are made.
pub open spec fn panes_after<S: Scalar>(
    b: Seq<Option<BlurPane<S>>>,
    fences: Seq<SceneFence<S>>,
    corner: S,
) -> Seq<Option<BlurPane<S>>> {
    Seq::new(fences.len(), |i: int| pane_after(b, fences, corner, i))
}

/// The panes that are there, one place for each fence.
#[derive(Debug, PartialEq)]
pub struct Blurs<S> {
    pub panes: Vec<Option<BlurPane<S>>>,
}

impl<S: Scalar> Blurs<S> {
    pub fn new() -> (r: Self)
        ensures
            r.panes@ == Seq::<Option<BlurPane<S>>>::empty(),
    {
        Blurs { panes: Vec::new() }
    }

    /// Follows the fences: what is to be removed, changed and made. What is to be made is
    /// noted by [`Blurs::made`] once it is there.
    pub fn sync_blurs(&mut self, fences: &Vec<SceneFence<S>>, corner: S) -> (out: Vec<BlurStep<S>>)
        ensures
            final(self).panes@ == panes_after(old(self).panes@, fences@, corner),
            out@ == steps(old(self).panes@, fences@, corner, fences.len() as int) + leftovers(
                old(self).panes@,
                fences.len() as int,
            ),
    {
        let ghost b = self.panes@;
        let mut out: Vec<BlurStep<S>> = Vec::new();
        while self.panes.len() < fences.len()
            invariant
                self.panes.len() >= b.len(),
                b.len() <= fences.len() ==> self.panes.len() <= fences.len(),
                b.len() > fences.len() ==> self.panes@ == b,
                forall|j: int| 0 <= j < self.panes.len() ==> self.panes[j] == slot(b, j),
            decreases fences.len() - self.panes.len(),
        {
            self.panes.push(None);
        }
        let mut i: usize = 0;
        while i < fences.len()
            invariant
                i <= fences.len(),
                self.panes.len() >= fences.len(),
                b.len() > fences.len() ==> self.panes.len() == b.len(),
                b.len() <= fences.len() ==> self.panes.len() == fences.len(),
                forall|j: int| 0 <= j < i ==> self.panes[j] == pane_after(b, fences@, corner, j),
                forall|j: int| i <= j < self.panes.len() ==> self.panes[j] == slot(b, j),
                out@ == steps(b, fences@, corner, i as int),
            decreases fences.len() - i,
        {
            let f = &fences[i];
            let ghost o = out@;
            if f.blur {
                let p = pane_of(f, corner);
                let mut put = false;
                match &self.panes[i] {
                    Some(old_pane) => {
                        let same = old_pane.equals(&p);
                        if !same {
                            put = true;
                        }
                    },
                    None => {
                        out.push(BlurStep::Create(i, pane_of(f, corner)));
                    },
                }
                if put {
                    out.push(BlurStep::Update(i, pane_of(f, corner)));
                    self.panes[i] = Some(p);
                }
            } else if self.panes[i].is_some() {
                out.push(BlurStep::Remove(i));
                self.panes[i] = None;
            }
            proof {
                assert(out@ =~= o + step_at(b, fences@, corner, i as int));
            }
            i += 1;
        }
        let ghost done = out@;
        let ghost mut rest: Seq<BlurStep<S>> = Seq::empty();
        proof {
            if b.len() <= fences.len() {
                assert(leftovers(b, fences.len() as int) =~= Seq::empty());
            }
            assert(out@ =~= done + rest);
        }
        while self.panes.len() > fences.len()
            invariant
                self.panes.len() >= fences.len(),
                b.len() <= fences.len() ==> self.panes.len() == fences.len(),
                b.len() > fences.len() ==> self.panes.len() <= b.len(),
                forall|j: int| 0 <= j < fences.len() ==> self.panes[j] == pane_after(b, fences@, corner, j),
                forall|j: int| fences.len() <= j < self.panes.len() ==> self.panes[j] == slot(b, j),
                b.len() > fences.len() ==> rest == leftovers(b, self.panes.len() as int),
                b.len() <= fences.len() ==> rest == Seq::<BlurStep<S>>::empty(),
                out@ == done + rest,
            decreases self.panes.len(),
        {
            let last = self.panes.len() - 1;
            if self.panes[last].is_some() {
                out.push(BlurStep::Remove(last));
            }
            self.panes.pop();
            proof {
                rest = leftovers(b, last as int);
                assert(out@ =~= done + rest);
            }
        }
        proof {
            assert(self.panes@ =~= panes_after(b, fences@, corner));
        }
        out
    }

    /// Notes that a pane was made.
    pub fn made(&mut self, i: usize, p: BlurPane<S>)
        ensures
            final(self).panes@ == if i < old(self).panes.len() {
                old(self).panes@.update(i as int, Some(p))
            } else {
                old(self).panes@
            },
    {
        if i < self.panes.len() {
            self.panes[i] = Some(p);
        }
    }
}

/// Where every pane that a fence wants is there as the fence is, there is nothing to do.
pub proof fn law_synced_is_quiet(fences: Seq<SceneFence<i64>>, corner: i64, n: int)
    requires
        0 <= n <= fences.len(),
    ensures
        ({
            let b = Seq::new(
                fences.len(),
                |i: int|
                    if fences[i].blur {
                        Some(pane(fences[i], corner))
                    } else {
                        None
                    },
            );
            steps(b, fences, corner, n) == Seq::<BlurStep<i64>>::empty() && leftovers(
                b,
                fences.len() as int,
            ) == Seq::<BlurStep<i64>>::empty()
        }),
    decreases n,
{
    if n > 0 {
        law_synced_is_quiet(fences, corner, n - 1);
    }
}

/// After the fences were followed there is a pane only where a fence is blurred, and it
/// is as the fence is.
pub proof fn law_panes_follow_fences(b: Seq<Option<BlurPane<i64>>>, fences: Seq<SceneFence<i64>>, corner: i64, i: int)
    requires
        0 <= i < fences.len(),
    ensures
        panes_after(b, fences, corner).len() == fences.len(),
        panes_after(b, fences, corner)[i] matches Some(p) ==> fences[i].blur && p == pane(fences[i], corner),
        fences[i].blur && slot(b, i) is Some ==> panes_after(b, fences, corner)[i] is Some,
{
}

/// The place of a property of the blur, by its name.
pub open spec fn property_place(name: Seq<char>) -> Option<u32> {
    if name == "StandardDeviation"@ || name == "BlurAmount"@ {
        Some(0u32)
    } else if name == "Optimization"@ {
        Some(1u32)
    } else if name == "BorderMode"@ {
        Some(2u32)
    } else {
        None
    }
}

/// The place of a property of the blur, by its name.
pub fn blur_property(name: &str) -> (r: Option<u32>)
    ensures
        r == property_place(name@),
{
    if same(name, "StandardDeviation") || same(name, "BlurAmount") {
        Some(0u32)
    } else if same(name, "Optimization") {
        Some(1u32)
    } else if same(name, "BorderMode") {
        Some(2u32)
    } else {
        None
    }
}

/// The surface is made with the same room on every side of the picture, and has at least a
/// pixel each way.
pub proof fn law_surface_leaves_room(b: RectF<i64>, x: i64)
    requires
        -0x1000_0000_0000 <= b.x <= 0x1000_0000_0000,
        -0x1000_0000_0000 <= b.y <= 0x1000_0000_0000,
        0 <= b.w <= 0x1000_0000_0000,
        0 <= b.h <= 0x1000_0000_0000,
    ensures
        ({
            let p = padded(b);
            &&& b.x - p.x == SURFACE_PAD
            &&& b.y - p.y == SURFACE_PAD
            &&& p.x + p.w - (b.x + b.w) == SURFACE_PAD
            &&& p.y + p.h - (b.y + b.h) == SURFACE_PAD
        }),
        side(x) >= 1,
        1 <= x <= u32::MAX ==> side(x) == x,
{
    assert(scalar::num::<i64>(2) == 2);
    assert(scalar::num::<i64>(1) == 1);
    assert(scalar::num::<i64>(SURFACE_PAD as int) == SURFACE_PAD);
}

/// What is blurred lies behind the fence, exactly, and is as opaque as the fence.
pub proof fn law_pane_lies_behind_its_fence<S: Scalar>(f: SceneFence<S>, corner: S)
    ensures
        ({
            let p = pane(f, corner);
            &&& p.x == f.area().x
            &&& p.y == f.area().y
            &&& p.w == f.area().w
            &&& p.h == f.area().h
            &&& p.opacity == f.alpha
            &&& p.corner == corner
        }),
{
}

} // verus!
