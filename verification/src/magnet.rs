//! Keeping fences apart while they are moved and resized.
//!
//! A moved fence is pushed away from the others along the axis that takes the shorter
//! push, and then moved into the screen. The distance yields to the screen: where there is no
//! room for it the fences stand closer. Where one would come to lie on another, it goes to the
//! nearest free place instead. A resized fence gives way with its free edges only, until none
//! has to. Nothing is ever aligned: a fence that keeps its distance stays where it is.

use vstd::prelude::*;

use crate::geometry::Rect;
use crate::scalar;
use crate::scalar::{clamp, whole_number, Scalar};

verus! {

/// Least distance between the edges of two fences, in pixels.
pub const FENCE_GAP: i64 = 12;

/// The edges that a gesture may move; the others are anchored.
#[derive(Debug, Clone, Copy, PartialEq, Eq, Structural)]
pub enum FreeSides {
    Move,
    Right,
    Bottom,
    BottomRight,
    Left,
    BottomLeft,
    TopRight,
}

impl FreeSides {
    pub open spec fn frees_left(self) -> bool {
        self is Move || self is Left || self is BottomLeft
    }

    pub open spec fn frees_right(self) -> bool {
        self is Move || self is Right || self is BottomRight || self is TopRight
    }

    pub open spec fn frees_top(self) -> bool {
        self is Move || self is TopRight
    }

    pub open spec fn frees_bottom(self) -> bool {
        self is Move || self is Bottom || self is BottomRight || self is BottomLeft
    }

    pub fn left_free(&self) -> (r: bool)
        ensures
            r == self.frees_left(),
    {
        matches!(self, FreeSides::Move | FreeSides::Left | FreeSides::BottomLeft)
    }

    pub fn right_free(&self) -> (r: bool)
        ensures
            r == self.frees_right(),
    {
        matches!(self, FreeSides::Move | FreeSides::Right | FreeSides::BottomRight | FreeSides::TopRight)
    }

    pub fn top_free(&self) -> (r: bool)
        ensures
            r == self.frees_top(),
    {
        matches!(self, FreeSides::Move | FreeSides::TopRight)
    }

    pub fn bottom_free(&self) -> (r: bool)
        ensures
            r == self.frees_bottom(),
    {
        matches!(self, FreeSides::Move | FreeSides::Bottom | FreeSides::BottomRight | FreeSides::BottomLeft)
    }
}

/// Only a move frees opposite edges together, and every gesture frees some edge: those that
/// it is named after.
pub proof fn law_free_sides(f: FreeSides)
    ensures
        f is Left ==> f.frees_left() && !f.frees_top() && !f.frees_bottom(),
        f is Right ==> f.frees_right() && !f.frees_top() && !f.frees_bottom(),
        f is Bottom ==> f.frees_bottom() && !f.frees_left() && !f.frees_right(),
        f is BottomRight ==> f.frees_bottom() && f.frees_right(),
        f is BottomLeft ==> f.frees_bottom() && f.frees_left(),
        f is TopRight ==> f.frees_top() && f.frees_right(),
        f.frees_left() && f.frees_right() <==> f is Move,
        f.frees_top() && f.frees_bottom() <==> f is Move,
        f.frees_left() || f.frees_right() || f.frees_top() || f.frees_bottom(),
{
}

/// How far `a` and `b` overlap horizontally.
pub open spec fn shared_x<S: Scalar>(a: Rect<S>, b: Rect<S>) -> S {
    a.right_edge().min(b.right_edge()).sub(a.x.max(b.x)).max(scalar::num(0))
}

/// How far `a` and `b` overlap vertically.
pub open spec fn shared_y<S: Scalar>(a: Rect<S>, b: Rect<S>) -> S {
    a.bottom_edge().min(b.bottom_edge()).sub(a.y.max(b.y)).max(scalar::num(0))
}

/// The horizontal distance of `a` and `b`; where they overlap, the negated overlap.
pub open spec fn distance_x<S: Scalar>(a: Rect<S>, b: Rect<S>) -> S {
    if a.right_edge().le(b.x) {
        b.x.sub(a.right_edge())
    } else if b.right_edge().le(a.x) {
        a.x.sub(b.right_edge())
    } else {
        scalar::num::<S>(0).sub(shared_x(a, b))
    }
}

/// The vertical distance of `a` and `b`; where they overlap, the negated overlap.
pub open spec fn distance_y<S: Scalar>(a: Rect<S>, b: Rect<S>) -> S {
    if a.bottom_edge().le(b.y) {
        b.y.sub(a.bottom_edge())
    } else if b.bottom_edge().le(a.y) {
        a.y.sub(b.bottom_edge())
    } else {
        scalar::num::<S>(0).sub(shared_y(a, b))
    }
}

/// `a` and `b` are at least `gap` apart on one of the axes.
pub open spec fn apart<S: Scalar>(a: Rect<S>, b: Rect<S>, gap: S) -> bool {
    gap.le(distance_x(a, b)) || gap.le(distance_y(a, b))
}

/// The horizontal move that takes `r` out of the reach of `o`: past the edge of `o` to which
/// its centre is nearer.
pub open spec fn push_x<S: Scalar>(r: Rect<S>, o: Rect<S>, gap: S) -> S {
    let two = scalar::num::<S>(2);
    if r.right_edge().le(o.x) {
        o.x.sub(gap).sub(r.right_edge()).min(scalar::num(0))
    } else if o.right_edge().le(r.x) {
        o.right_edge().add(gap).sub(r.x).max(scalar::num(0))
    } else if r.x.add(r.w.div(two)).lt(o.x.add(o.w.div(two))) {
        o.x.sub(gap).sub(r.right_edge())
    } else {
        o.right_edge().add(gap).sub(r.x)
    }
}

/// The vertical move that takes `r` out of the reach of `o`: past the edge of `o` to which
/// its centre is nearer.
pub open spec fn push_y<S: Scalar>(r: Rect<S>, o: Rect<S>, gap: S) -> S {
    let two = scalar::num::<S>(2);
    if r.bottom_edge().le(o.y) {
        o.y.sub(gap).sub(r.bottom_edge()).min(scalar::num(0))
    } else if o.bottom_edge().le(r.y) {
        o.bottom_edge().add(gap).sub(r.y).max(scalar::num(0))
    } else if r.y.add(r.h.div(two)).lt(o.y.add(o.h.div(two))) {
        o.y.sub(gap).sub(r.bottom_edge())
    } else {
        o.bottom_edge().add(gap).sub(r.y)
    }
}

/// `r` pushed away from `o` along the axis of the shorter push.
pub open spec fn pushed_away<S: Scalar>(r: Rect<S>, o: Rect<S>, gap: S) -> Rect<S> {
    let dx = push_x(r, o, gap);
    let dy = push_y(r, o, gap);
    if dx.abs().le(dy.abs()) {
        Rect { x: r.x.add(dx), ..r }
    } else {
        Rect { y: r.y.add(dy), ..r }
    }
}

/// `r` pushed away from each of the first `n` others that is too close when its turn comes.
pub open spec fn swept<S: Scalar>(r: Rect<S>, others: Seq<Rect<S>>, gap: S, n: int) -> Rect<S>
    decreases n,
{
    if n <= 0 {
        r
    } else {
        let q = swept(r, others, gap, n - 1);
        if apart(q, others[n - 1], gap) {
            q
        } else {
            pushed_away(q, others[n - 1], gap)
        }
    }
}

/// `r` after `rounds` sweeps over all others.
pub open spec fn spread<S: Scalar>(r: Rect<S>, others: Seq<Rect<S>>, gap: S, rounds: int) -> Rect<S>
    decreases rounds,
{
    if rounds <= 0 {
        r
    } else {
        spread(swept(r, others, gap, others.len() as int), others, gap, rounds - 1)
    }
}

/// `r` moved into the screen; one that does not fit is put at the screen's upper left.
pub open spec fn on_screen<S: Scalar>(r: Rect<S>, screen: Rect<S>) -> Rect<S> {
    Rect {
        x: scalar::clamped(r.x, screen.x, screen.right_edge().sub(r.w).max(screen.x)),
        y: scalar::clamped(r.y, screen.y, screen.bottom_edge().sub(r.h).max(screen.y)),
        ..r
    }
}

/// Sweeps that a moved fence makes before it is moved into the screen.
pub const ROUNDS: u32 = 4;

/// `r` pushed away from the others and moved into the screen, twice.
pub open spec fn pushed_on_screen<S: Scalar>(r: Rect<S>, others: Seq<Rect<S>>, screen: Rect<S>, gap: S) -> Rect<S> {
    let a = on_screen(spread(r, others, gap, 4), screen);
    on_screen(spread(a, others, gap, 4), screen)
}

/// `r` is at least `gap` away from every other.
pub open spec fn clear<S: Scalar>(r: Rect<S>, others: Seq<Rect<S>>, gap: S) -> bool {
    forall|i: int| 0 <= i < others.len() ==> apart(r, #[trigger] others[i], gap)
}

/// `r` lies within the screen and is clear of the others.
pub open spec fn is_spot<S: Scalar>(r: Rect<S>, others: Seq<Rect<S>>, screen: Rect<S>, gap: S) -> bool {
    &&& screen.x.le(r.x) && r.right_edge().le(screen.right_edge())
    &&& screen.y.le(r.y) && r.bottom_edge().le(screen.bottom_edge())
    &&& clear(r, others, gap)
}

/// The horizontal places at which a fence may stand next to something: where `r` stands, at
/// the sides of the screen, and to the left and the right of the first `n` others.
pub open spec fn stops_x<S: Scalar>(r: Rect<S>, others: Seq<Rect<S>>, screen: Rect<S>, gap: S, n: int) -> Seq<S>
    decreases n,
{
    if n <= 0 {
        seq![r.x, screen.x, screen.right_edge().sub(r.w)]
    } else {
        let o = others[n - 1];
        stops_x(r, others, screen, gap, n - 1).push(o.x.sub(gap).sub(r.w)).push(o.right_edge().add(gap))
    }
}

/// The vertical places at which a fence may stand next to something.
pub open spec fn stops_y<S: Scalar>(r: Rect<S>, others: Seq<Rect<S>>, screen: Rect<S>, gap: S, n: int) -> Seq<S>
    decreases n,
{
    if n <= 0 {
        seq![r.y, screen.y, screen.bottom_edge().sub(r.h)]
    } else {
        let o = others[n - 1];
        stops_y(r, others, screen, gap, n - 1).push(o.y.sub(gap).sub(r.h)).push(o.bottom_edge().add(gap))
    }
}

/// How far `c` is from `r`: across and down together.
pub open spec fn stray<S: Scalar>(r: Rect<S>, c: Rect<S>) -> S {
    c.x.sub(r.x).abs().add(c.y.sub(r.y).abs())
}

/// The nearer to `r` of the spot found so far and `c`, if that is one.
pub open spec fn nearer<S: Scalar>(
    best: Option<Rect<S>>,
    r: Rect<S>,
    c: Rect<S>,
    others: Seq<Rect<S>>,
    screen: Rect<S>,
    gap: S,
) -> Option<Rect<S>> {
    if is_spot(c, others, screen, gap) && (best matches Some(b) ==> stray(r, c).lt(stray(r, b))) {
        Some(c)
    } else {
        best
    }
}

/// The nearest spot among `best` and those at `x` and the first `m` of `ys`.
pub open spec fn nearest_at<S: Scalar>(
    best: Option<Rect<S>>,
    r: Rect<S>,
    x: S,
    ys: Seq<S>,
    others: Seq<Rect<S>>,
    screen: Rect<S>,
    gap: S,
    m: int,
) -> Option<Rect<S>>
    decreases m,
{
    if m <= 0 {
        best
    } else {
        let b = nearest_at(best, r, x, ys, others, screen, gap, m - 1);
        nearer(b, r, Rect { x, y: ys[m - 1], ..r }, others, screen, gap)
    }
}

/// The nearest spot among those at the first `n` of `xs` and any of `ys`.
pub open spec fn nearest<S: Scalar>(
    r: Rect<S>,
    xs: Seq<S>,
    ys: Seq<S>,
    others: Seq<Rect<S>>,
    screen: Rect<S>,
    gap: S,
    n: int,
) -> Option<Rect<S>>
    decreases n,
{
    if n <= 0 {
        None
    } else {
        let b = nearest(r, xs, ys, others, screen, gap, n - 1);
        nearest_at(b, r, xs[n - 1], ys, others, screen, gap, ys.len() as int)
    }
}

/// The spot nearest to `r` at which it stands next to something.
pub open spec fn nearest_spot<S: Scalar>(r: Rect<S>, others: Seq<Rect<S>>, screen: Rect<S>, gap: S) -> Option<Rect<S>> {
    let xs = stops_x(r, others, screen, gap, others.len() as int);
    let ys = stops_y(r, others, screen, gap, others.len() as int);
    nearest(r, xs, ys, others, screen, gap, xs.len() as int)
}

/// `r` may stay where it was pushed to: it keeps its distance from the others, or the screen
/// does not let it but it lies on none of them.
pub open spec fn may_stay<S: Scalar>(r: Rect<S>, others: Seq<Rect<S>>, gap: S) -> bool {
    clear(r, others, gap) || clear(r, others, scalar::num(0))
}

/// Where a fence dragged to `r` comes to rest: where it is pushed to, unless it lies on another
/// there. Then it goes to the nearest spot with the distance `gap`, and if there is none to the
/// nearest without. Where the screen has no room for it at all, it stays where it was pushed to.
pub open spec fn settled_move<S: Scalar>(
    r: Rect<S>,
    others: Seq<Rect<S>>,
    screen: Rect<S>,
    gap: S,
) -> Rect<S> {
    let q = pushed_on_screen(r, others, screen, gap);
    if may_stay(q, others, gap) {
        q
    } else {
        match nearest_spot(q, others, screen, gap) {
            Some(c) => c,
            None => match nearest_spot(q, others, screen, scalar::num(0)) {
                Some(c) => c,
                None => q,
            },
        }
    }
}

pub fn overlap_x<S: Scalar>(a: &Rect<S>, b: &Rect<S>) -> (r: S)
    ensures
        r == shared_x(*a, *b),
{
    a.right().least(b.right()).minus(a.x.greatest(b.x)).greatest(whole_number(0))
}

pub fn overlap_y<S: Scalar>(a: &Rect<S>, b: &Rect<S>) -> (r: S)
    ensures
        r == shared_y(*a, *b),
{
    a.bottom().least(b.bottom()).minus(a.y.greatest(b.y)).greatest(whole_number(0))
}

pub fn clearance_x<S: Scalar>(a: &Rect<S>, b: &Rect<S>) -> (r: S)
    ensures
        r == distance_x(*a, *b),
{
    if a.right().at_most(b.x) {
        b.x.minus(a.right())
    } else if b.right().at_most(a.x) {
        a.x.minus(b.right())
    } else {
        whole_number::<S>(0).minus(overlap_x(a, b))
    }
}

pub fn clearance_y<S: Scalar>(a: &Rect<S>, b: &Rect<S>) -> (r: S)
    ensures
        r == distance_y(*a, *b),
{
    if a.bottom().at_most(b.y) {
        b.y.minus(a.bottom())
    } else if b.bottom().at_most(a.y) {
        a.y.minus(b.bottom())
    } else {
        whole_number::<S>(0).minus(overlap_y(a, b))
    }
}

/// Whether `a` and `b` are at least `gap` apart on one of the axes.
pub fn gap_separated<S: Scalar>(a: &Rect<S>, b: &Rect<S>, gap: S) -> (r: bool)
    ensures
        r == apart(*a, *b, gap),
{
    gap.at_most(clearance_x(a, b)) || gap.at_most(clearance_y(a, b))
}

fn gap_push_x<S: Scalar>(r: &Rect<S>, o: &Rect<S>, gap: S) -> (d: S)
    ensures
        d == push_x(*r, *o, gap),
{
    let two = whole_number::<S>(2);
    if r.right().at_most(o.x) {
        o.x.minus(gap).minus(r.right()).least(whole_number(0))
    } else if o.right().at_most(r.x) {
        o.right().plus(gap).minus(r.x).greatest(whole_number(0))
    } else if r.x.plus(r.w.over(two)).below(o.x.plus(o.w.over(two))) {
        o.x.minus(gap).minus(r.right())
    } else {
        o.right().plus(gap).minus(r.x)
    }
}

fn gap_push_y<S: Scalar>(r: &Rect<S>, o: &Rect<S>, gap: S) -> (d: S)
    ensures
        d == push_y(*r, *o, gap),
{
    let two = whole_number::<S>(2);
    if r.bottom().at_most(o.y) {
        o.y.minus(gap).minus(r.bottom()).least(whole_number(0))
    } else if o.bottom().at_most(r.y) {
        o.bottom().plus(gap).minus(r.y).greatest(whole_number(0))
    } else if r.y.plus(r.h.over(two)).below(o.y.plus(o.h.over(two))) {
        o.y.minus(gap).minus(r.bottom())
    } else {
        o.bottom().plus(gap).minus(r.y)
    }
}

fn push_away_gap<S: Scalar>(r: Rect<S>, o: &Rect<S>, gap: S) -> (q: Rect<S>)
    ensures
        q == pushed_away(r, *o, gap),
{
    let dx = gap_push_x(&r, o, gap);
    let dy = gap_push_y(&r, o, gap);
    if dx.size().at_most(dy.size()) {
        Rect { x: r.x.plus(dx), y: r.y, w: r.w, h: r.h }
    } else {
        Rect { x: r.x, y: r.y.plus(dy), w: r.w, h: r.h }
    }
}

/// A sweep that pushes nothing changes nothing, and so do all sweeps after it.
proof fn lemma_still<S: Scalar>(r: Rect<S>, others: Seq<Rect<S>>, gap: S, rounds: int)
    requires
        swept(r, others, gap, others.len() as int) == r,
    ensures
        spread(r, others, gap, rounds) == r,
    decreases rounds,
{
    if rounds > 0 {
        lemma_still(r, others, gap, rounds - 1);
    }
}

fn resolve_gap_move<S: Scalar>(bounds: Rect<S>, others: &Vec<Rect<S>>, gap: S) -> (q: Rect<S>)
    ensures
        q == spread(bounds, others@, gap, 4),
{
    let mut r = bounds;
    let mut round: u32 = 0;
    while round < ROUNDS
        invariant
            round <= ROUNDS,
            spread(r, others@, gap, ROUNDS - round) == spread(bounds, others@, gap, 4),
        decreases ROUNDS - round,
    {
        let start = r;
        let mut pushed = false;
        let mut i: usize = 0;
        while i < others.len()
            invariant
                i <= others.len(),
                r == swept(start, others@, gap, i as int),
                !pushed ==> r == start,
            decreases others.len() - i,
        {
            if !gap_separated(&r, &others[i], gap) {
                r = push_away_gap(r, &others[i], gap);
                pushed = true;
            }
            i += 1;
        }
        round += 1;
        if !pushed {
            proof {
                lemma_still(r, others@, gap, 4 - round);
                lemma_still(r, others@, gap, 5 - round);
            }
            return r;
        }
    }
    r
}

fn clamp_screen<S: Scalar>(r: Rect<S>, screen: &Rect<S>) -> (q: Rect<S>)
    ensures
        q == on_screen(r, *screen),
{
    Rect {
        x: clamp(r.x, screen.x, screen.right().minus(r.w).greatest(screen.x)),
        y: clamp(r.y, screen.y, screen.bottom().minus(r.h).greatest(screen.y)),
        w: r.w,
        h: r.h,
    }
}

fn is_clear<S: Scalar>(r: &Rect<S>, others: &Vec<Rect<S>>, gap: S) -> (b: bool)
    ensures
        b == clear(*r, others@, gap),
{
    let mut i: usize = 0;
    while i < others.len()
        invariant
            i <= others.len(),
            forall|j: int| 0 <= j < i ==> apart(*r, #[trigger] others@[j], gap),
        decreases others.len() - i,
    {
        if !gap_separated(r, &others[i], gap) {
            assert(!apart(*r, others@[i as int], gap));
            return false;
        }
        i += 1;
    }
    true
}

fn is_free_spot<S: Scalar>(r: &Rect<S>, others: &Vec<Rect<S>>, screen: &Rect<S>, gap: S) -> (b: bool)
    ensures
        b == is_spot(*r, others@, *screen, gap),
{
    screen.x.at_most(r.x) && r.right().at_most(screen.right()) && screen.y.at_most(r.y) && r.bottom().at_most(
        screen.bottom(),
    ) && is_clear(r, others, gap)
}

fn find_stops_x<S: Scalar>(r: &Rect<S>, others: &Vec<Rect<S>>, screen: &Rect<S>, gap: S) -> (v: Vec<S>)
    ensures
        v@ == stops_x(*r, others@, *screen, gap, others.len() as int),
{
    let mut v: Vec<S> = Vec::new();
    v.push(r.x);
    v.push(screen.x);
    v.push(screen.right().minus(r.w));
    proof {
        assert(v@ =~= stops_x(*r, others@, *screen, gap, 0));
    }
    let mut i: usize = 0;
    while i < others.len()
        invariant
            i <= others.len(),
            v@ == stops_x(*r, others@, *screen, gap, i as int),
        decreases others.len() - i,
    {
        v.push(others[i].x.minus(gap).minus(r.w));
        v.push(others[i].right().plus(gap));
        i += 1;
    }
    v
}

fn find_stops_y<S: Scalar>(r: &Rect<S>, others: &Vec<Rect<S>>, screen: &Rect<S>, gap: S) -> (v: Vec<S>)
    ensures
        v@ == stops_y(*r, others@, *screen, gap, others.len() as int),
{
    let mut v: Vec<S> = Vec::new();
    v.push(r.y);
    v.push(screen.y);
    v.push(screen.bottom().minus(r.h));
    proof {
        assert(v@ =~= stops_y(*r, others@, *screen, gap, 0));
    }
    let mut i: usize = 0;
    while i < others.len()
        invariant
            i <= others.len(),
            v@ == stops_y(*r, others@, *screen, gap, i as int),
        decreases others.len() - i,
    {
        v.push(others[i].y.minus(gap).minus(r.h));
        v.push(others[i].bottom().plus(gap));
        i += 1;
    }
    v
}

fn distance_between<S: Scalar>(r: &Rect<S>, c: &Rect<S>) -> (d: S)
    ensures
        d == stray(*r, *c),
{
    c.x.minus(r.x).size().plus(c.y.minus(r.y).size())
}

fn nearer_of<S: Scalar>(
    best: Option<Rect<S>>,
    r: &Rect<S>,
    c: Rect<S>,
    others: &Vec<Rect<S>>,
    screen: &Rect<S>,
    gap: S,
) -> (b: Option<Rect<S>>)
    ensures
        b == nearer(best, *r, c, others@, *screen, gap),
{
    if !is_free_spot(&c, others, screen, gap) {
        return best;
    }
    match best {
        None => Some(c),
        Some(b) => if distance_between(r, &c).below(distance_between(r, &b)) {
            Some(c)
        } else {
            best
        },
    }
}

fn find_spot<S: Scalar>(r: &Rect<S>, others: &Vec<Rect<S>>, screen: &Rect<S>, gap: S) -> (b: Option<Rect<S>>)
    ensures
        b == nearest_spot(*r, others@, *screen, gap),
{
    let xs = find_stops_x(r, others, screen, gap);
    let ys = find_stops_y(r, others, screen, gap);
    let mut best: Option<Rect<S>> = None;
    let mut i: usize = 0;
    while i < xs.len()
        invariant
            i <= xs.len(),
            best == nearest(*r, xs@, ys@, others@, *screen, gap, i as int),
        decreases xs.len() - i,
    {
        let ghost start = best;
        let mut j: usize = 0;
        while j < ys.len()
            invariant
                i < xs.len(),
                j <= ys.len(),
                best == nearest_at(start, *r, xs@[i as int], ys@, others@, *screen, gap, j as int),
            decreases ys.len() - j,
        {
            let c = Rect { x: xs[i], y: ys[j], w: r.w, h: r.h };
            best = nearer_of(best, r, c, others, screen, gap);
            j += 1;
        }
        i += 1;
    }
    best
}

/// Where a fence dragged to `bounds` comes to rest: away from the other fences, then on
/// the screen, then both once more. Where that leaves it on another fence, it goes to the
/// nearest place on the screen that has room for it.
pub fn settle_move<S: Scalar>(
    bounds: &Rect<S>,
    others: &Vec<Rect<S>>,
    screen: &Rect<S>,
    gap: S,
) -> (r: Rect<S>)
    ensures
        r == settled_move(*bounds, others@, *screen, gap),
{
    let a = clamp_screen(resolve_gap_move(*bounds, others, gap), screen);
    let q = clamp_screen(resolve_gap_move(a, others, gap), screen);
    if is_clear(&q, others, gap) || is_clear(&q, others, whole_number(0)) {
        return q;
    }
    match find_spot(&q, others, screen, gap) {
        Some(c) => c,
        None => match find_spot(&q, others, screen, whole_number(0)) {
            Some(c) => c,
            None => q,
        },
    }
}

/// An edge of a rectangle.
#[derive(Debug, Clone, Copy, PartialEq, Eq, Structural)]
pub enum Edge {
    Left,
    Right,
    Top,
    Bottom,
}

/// How far the free edge `e` of `r` must draw back to keep `gap` from `o`; `None` where
/// drawing it back does not help.
pub open spec fn retreat<S: Scalar>(r: Rect<S>, o: Rect<S>, gap: S, e: Edge) -> Option<S> {
    if apart(r, o, gap) {
        None
    } else {
        match e {
            Edge::Right => if r.x.lt(o.right_edge()) {
                Some(r.right_edge().sub(o.x.sub(gap).max(r.x)))
            } else {
                None
            },
            Edge::Bottom => if r.y.lt(o.bottom_edge()) {
                Some(r.bottom_edge().sub(o.y.sub(gap).max(r.y)))
            } else {
                None
            },
            Edge::Left => if o.x.lt(r.right_edge()) {
                Some(o.right_edge().add(gap).min(r.right_edge()).sub(r.x))
            } else {
                None
            },
            Edge::Top => if o.y.lt(r.bottom_edge()) {
                Some(o.bottom_edge().add(gap).min(r.bottom_edge()).sub(r.y))
            } else {
                None
            },
        }
    }
}

/// The better of the retreat found so far and that of edge `e` from `o`: the shorter one,
/// and the earlier of two equal ones. Only a retreat by more than nothing counts.
pub open spec fn better<S: Scalar>(
    best: Option<(S, Edge)>,
    r: Rect<S>,
    o: Rect<S>,
    gap: S,
    e: Edge,
    free: bool,
) -> Option<(S, Edge)> {
    match retreat(r, o, gap, e) {
        Some(d) => if free && scalar::num::<S>(0).lt(d) && (best matches Some(b) ==> d.lt(b.0)) {
            Some((d, e))
        } else {
            best
        },
        None => best,
    }
}

/// The shortest retreat from the first `n` others.
pub open spec fn shortest<S: Scalar>(
    r: Rect<S>,
    others: Seq<Rect<S>>,
    gap: S,
    free: FreeSides,
    n: int,
) -> Option<(S, Edge)>
    decreases n,
{
    if n <= 0 {
        None
    } else {
        let o = others[n - 1];
        let b0 = shortest(r, others, gap, free, n - 1);
        let b1 = better(b0, r, o, gap, Edge::Right, free.frees_right());
        let b2 = better(b1, r, o, gap, Edge::Bottom, free.frees_bottom());
        let b3 = better(b2, r, o, gap, Edge::Left, free.frees_left());
        better(b3, r, o, gap, Edge::Top, free.frees_top())
    }
}

/// `r` with one edge drawn back.
pub open spec fn drawn_back<S: Scalar>(r: Rect<S>, step: Option<(S, Edge)>) -> Rect<S> {
    match step {
        None => r,
        Some((d, Edge::Right)) => Rect { w: r.w.sub(d).max(scalar::num(0)), ..r },
        Some((d, Edge::Bottom)) => Rect { h: r.h.sub(d).max(scalar::num(0)), ..r },
        Some((d, Edge::Left)) => Rect {
            x: r.x.add(d),
            w: r.w.sub(d).max(scalar::num(0)),
            ..r
        },
        Some((d, Edge::Top)) => Rect {
            y: r.y.add(d),
            h: r.h.sub(d).max(scalar::num(0)),
            ..r
        },
    }
}

/// `r` after drawing back the least intruding free edge `rounds` times.
pub open spec fn narrowed<S: Scalar>(
    r: Rect<S>,
    others: Seq<Rect<S>>,
    gap: S,
    free: FreeSides,
    rounds: int,
) -> Rect<S>
    decreases rounds,
{
    if rounds <= 0 {
        r
    } else {
        let step = shortest(r, others, gap, free, others.len() as int);
        narrowed(drawn_back(r, step), others, gap, free, rounds - 1)
    }
}

/// How many times an edge is drawn back at most: once from each other fence, once to nothing
/// on each axis, and twice more for what rounding may leave.
pub open spec fn enough<S>(others: Seq<Rect<S>>) -> int {
    others.len() as int + 4
}

/// `r` widened to the least size by its free edges.
pub open spec fn widened<S: Scalar>(r: Rect<S>, free: FreeSides, min_w: S, min_h: S) -> Rect<S> {
    let a = if free.frees_right() && r.w.lt(min_w) {
        Rect { w: min_w, ..r }
    } else {
        r
    };
    let b = if free.frees_left() && a.w.lt(min_w) {
        Rect { x: a.x.sub(min_w.sub(a.w)), w: min_w, ..a }
    } else {
        a
    };
    let c = if free.frees_bottom() && b.h.lt(min_h) {
        Rect { h: min_h, ..b }
    } else {
        b
    };
    if free.frees_top() && c.h.lt(min_h) {
        Rect { y: c.y.sub(min_h.sub(c.h)), h: min_h, ..c }
    } else {
        c
    }
}

/// `r` with its free edges moved into the screen; an edge across from a free one that is not
/// free itself stays.
pub open spec fn trimmed<S: Scalar>(r: Rect<S>, screen: Rect<S>, free: FreeSides) -> Rect<S> {
    let left = r.x.max(screen.x);
    let a = if free.frees_left() && free.frees_right() {
        Rect { x: left, ..r }
    } else if free.frees_left() {
        Rect { x: left, w: r.w.sub(left.sub(r.x)).max(scalar::num(0)), ..r }
    } else {
        r
    };
    let mw = screen.right_edge().sub(a.x);
    let b = if free.frees_right() && mw.lt(a.w) {
        Rect { w: mw.max(scalar::num(0)), ..a }
    } else {
        a
    };
    let top = b.y.max(screen.y);
    let c = if free.frees_top() && free.frees_bottom() {
        Rect { y: top, ..b }
    } else if free.frees_top() {
        Rect { y: top, h: b.h.sub(top.sub(b.y)).max(scalar::num(0)), ..b }
    } else {
        b
    };
    let mh = screen.bottom_edge().sub(c.y);
    if free.frees_bottom() && mh.lt(c.h) {
        Rect { h: mh.max(scalar::num(0)), ..c }
    } else {
        c
    }
}

/// Where a fence resized to `r` comes to rest.
pub open spec fn settled_resize<S: Scalar>(
    r: Rect<S>,
    others: Seq<Rect<S>>,
    screen: Rect<S>,
    free: FreeSides,
    min_w: S,
    min_h: S,
    gap: S,
) -> Rect<S> {
    let n = enough(others);
    let a = widened(narrowed(r, others, gap, free, n), free, min_w, min_h);
    let b = trimmed(a, screen, free);
    trimmed(narrowed(b, others, gap, free, n), screen, free)
}

fn retreat_of<S: Scalar>(r: &Rect<S>, o: &Rect<S>, gap: S, e: Edge) -> (d: Option<S>)
    ensures
        d == retreat(*r, *o, gap, e),
{
    if gap_separated(r, o, gap) {
        return None;
    }
    match e {
        Edge::Right => if r.x.below(o.right()) {
            Some(r.right().minus(o.x.minus(gap).greatest(r.x)))
        } else {
            None
        },
        Edge::Bottom => if r.y.below(o.bottom()) {
            Some(r.bottom().minus(o.y.minus(gap).greatest(r.y)))
        } else {
            None
        },
        Edge::Left => if o.x.below(r.right()) {
            Some(o.right().plus(gap).least(r.right()).minus(r.x))
        } else {
            None
        },
        Edge::Top => if o.y.below(r.bottom()) {
            Some(o.bottom().plus(gap).least(r.bottom()).minus(r.y))
        } else {
            None
        },
    }
}

fn better_of<S: Scalar>(
    best: Option<(S, Edge)>,
    r: &Rect<S>,
    o: &Rect<S>,
    gap: S,
    e: Edge,
    free: bool,
) -> (b: Option<(S, Edge)>)
    ensures
        b == better(best, *r, *o, gap, e, free),
{
    if !free {
        return best;
    }
    match retreat_of(r, o, gap, e) {
        Some(d) => {
            if !whole_number::<S>(0).below(d) {
                return best;
            }
            match best {
                None => Some((d, e)),
                Some(b) => if d.below(b.0) {
                    Some((d, e))
                } else {
                    best
                },
            }
        },
        None => best,
    }
}

fn shortest_retreat<S: Scalar>(
    r: &Rect<S>,
    others: &Vec<Rect<S>>,
    gap: S,
    free: FreeSides,
) -> (b: Option<(S, Edge)>)
    ensures
        b == shortest(*r, others@, gap, free, others.len() as int),
{
    let mut best: Option<(S, Edge)> = None;
    let mut i: usize = 0;
    while i < others.len()
        invariant
            i <= others.len(),
            best == shortest(*r, others@, gap, free, i as int),
        decreases others.len() - i,
    {
        let o = &others[i];
        best = better_of(best, r, o, gap, Edge::Right, free.right_free());
        best = better_of(best, r, o, gap, Edge::Bottom, free.bottom_free());
        best = better_of(best, r, o, gap, Edge::Left, free.left_free());
        best = better_of(best, r, o, gap, Edge::Top, free.top_free());
        i += 1;
    }
    best
}

fn draw_back<S: Scalar>(r: Rect<S>, d: S, e: Edge) -> (q: Rect<S>)
    ensures
        q == drawn_back(r, Some((d, e))),
{
    let zero = whole_number::<S>(0);
    match e {
        Edge::Right => Rect { x: r.x, y: r.y, w: r.w.minus(d).greatest(zero), h: r.h },
        Edge::Bottom => Rect { x: r.x, y: r.y, w: r.w, h: r.h.minus(d).greatest(zero) },
        Edge::Left => Rect { x: r.x.plus(d), y: r.y, w: r.w.minus(d).greatest(zero), h: r.h },
        Edge::Top => Rect { x: r.x, y: r.y.plus(d), w: r.w, h: r.h.minus(d).greatest(zero) },
    }
}

proof fn lemma_narrowed_still<S: Scalar>(
    r: Rect<S>,
    others: Seq<Rect<S>>,
    gap: S,
    free: FreeSides,
    rounds: int,
)
    requires
        shortest(r, others, gap, free, others.len() as int) is None,
    ensures
        narrowed(r, others, gap, free, rounds) == r,
    decreases rounds,
{
    if rounds > 0 {
        lemma_narrowed_still(r, others, gap, free, rounds - 1);
    }
}

fn resolve_gap_resize<S: Scalar>(
    bounds: Rect<S>,
    others: &Vec<Rect<S>>,
    gap: S,
    free: FreeSides,
) -> (q: Rect<S>)
    ensures
        q == narrowed(bounds, others@, gap, free, enough(others@)),
{
    let mut r = bounds;
    let rounds: u128 = others.len() as u128 + 4;
    let mut round: u128 = 0;
    while round < rounds
        invariant
            round <= rounds == enough(others@),
            narrowed(r, others@, gap, free, rounds - round) == narrowed(bounds, others@, gap, free, enough(others@)),
        decreases rounds - round,
    {
        match shortest_retreat(&r, others, gap, free) {
            Some((d, e)) => {
                r = draw_back(r, d, e);
            },
            None => {
                proof {
                    lemma_narrowed_still(r, others@, gap, free, rounds - round);
                }
                return r;
            },
        }
        round += 1;
    }
    r
}

fn apply_min<S: Scalar>(bounds: Rect<S>, free: FreeSides, min_w: S, min_h: S) -> (q: Rect<S>)
    ensures
        q == widened(bounds, free, min_w, min_h),
{
    let mut r = bounds;
    if free.right_free() && r.w.below(min_w) {
        r.w = min_w;
    }
    if free.left_free() && r.w.below(min_w) {
        r.x = r.x.minus(min_w.minus(r.w));
        r.w = min_w;
    }
    if free.bottom_free() && r.h.below(min_h) {
        r.h = min_h;
    }
    if free.top_free() && r.h.below(min_h) {
        r.y = r.y.minus(min_h.minus(r.h));
        r.h = min_h;
    }
    r
}

fn clamp_resize<S: Scalar>(bounds: Rect<S>, screen: &Rect<S>, free: FreeSides) -> (q: Rect<S>)
    ensures
        q == trimmed(bounds, *screen, free),
{
    let mut r = bounds;
    if free.left_free() {
        let left = r.x.greatest(screen.x);
        if !free.right_free() {
            r.w = r.w.minus(left.minus(r.x)).greatest(whole_number(0));
        }
        r.x = left;
    }
    if free.right_free() {
        let m = screen.right().minus(r.x);
        if m.below(r.w) {
            r.w = m.greatest(whole_number(0));
        }
    }
    if free.top_free() {
        let top = r.y.greatest(screen.y);
        if !free.bottom_free() {
            r.h = r.h.minus(top.minus(r.y)).greatest(whole_number(0));
        }
        r.y = top;
    }
    if free.bottom_free() {
        let m = screen.bottom().minus(r.y);
        if m.below(r.h) {
            r.h = m.greatest(whole_number(0));
        }
    }
    r
}

/// Where a fence resized to `bounds` comes to rest: its free edges give way to the other
/// fences, keep the least size and stay on the screen, and give way once more. In a narrow
/// place the distance wins over the least size.
pub fn settle_resize<S: Scalar>(
    bounds: &Rect<S>,
    others: &Vec<Rect<S>>,
    screen: &Rect<S>,
    free: FreeSides,
    min_w: S,
    min_h: S,
    gap: S,
) -> (r: Rect<S>)
    ensures
        r == settled_resize(*bounds, others@, *screen, free, min_w, min_h, gap),
{
    let a = apply_min(resolve_gap_resize(*bounds, others, gap, free), free, min_w, min_h);
    let b = clamp_resize(a, screen, free);
    clamp_resize(resolve_gap_resize(b, others, gap, free), screen, free)
}

/// Coordinates that leave room for a few sums and differences.
pub open spec fn moderate(r: Rect<i64>) -> bool {
    &&& -0x100_0000_0000 <= r.x <= 0x100_0000_0000
    &&& -0x100_0000_0000 <= r.y <= 0x100_0000_0000
    &&& 0 <= r.w <= 0x100_0000_0000
    &&& 0 <= r.h <= 0x100_0000_0000
}

/// `r` lies within `screen`.
pub open spec fn inside(r: Rect<i64>, screen: Rect<i64>) -> bool {
    &&& screen.x <= r.x && r.x + r.w <= screen.x + screen.w
    &&& screen.y <= r.y && r.y + r.h <= screen.y + screen.h
}

/// A fence pushed away from another keeps the distance from it afterwards.
pub proof fn law_push_separates(r: Rect<i64>, o: Rect<i64>, gap: i64)
    requires
        moderate(r),
        moderate(o),
        0 <= gap <= 0x100_0000_0000,
        !apart(r, o, gap),
    ensures
        apart(pushed_away(r, o, gap), o, gap),
        pushed_away(r, o, gap).w == r.w,
        pushed_away(r, o, gap).h == r.h,
{
    assert(scalar::num::<i64>(0) == 0);
    let q = pushed_away(r, o, gap);
    if Scalar::abs(push_x(r, o, gap)) <= Scalar::abs(push_y(r, o, gap)) {
        assert(gap <= distance_x(q, o));
    } else {
        assert(gap <= distance_y(q, o));
    }
}

/// Fences that are apart do not overlap, whatever their distance. If it is positive, or none
/// of them is empty, one lies to a side of the other.
pub proof fn law_apart_do_not_overlap(a: Rect<i64>, b: Rect<i64>, gap: i64)
    requires
        moderate(a),
        moderate(b),
        0 <= gap,
        apart(a, b, gap),
    ensures
        shared_x(a, b) == 0 || shared_y(a, b) == 0,
        0 < gap || (0 < a.w && 0 < a.h && 0 < b.w && 0 < b.h) ==> a.x + a.w <= b.x || b.x + b.w <= a.x || a.y + a.h
            <= b.y || b.y + b.h <= a.y,
{
    assert(scalar::num::<i64>(0) == 0);
}

proof fn lemma_swept_apart<S: Scalar>(r: Rect<S>, others: Seq<Rect<S>>, gap: S, n: int)
    requires
        0 <= n <= others.len(),
        clear(r, others, gap),
    ensures
        swept(r, others, gap, n) == r,
    decreases n,
{
    if n > 0 {
        lemma_swept_apart(r, others, gap, n - 1);
    }
}

/// A fence on the screen that keeps its distance from all others stays where it is put:
/// nothing is aligned or attracted. This holds of every scalar on which being on the
/// screen means that moving into the screen changes nothing.
pub proof fn law_separated_stays<S: Scalar>(r: Rect<S>, others: Seq<Rect<S>>, screen: Rect<S>, gap: S)
    requires
        clear(r, others, gap),
        on_screen(r, screen) == r,
    ensures
        settled_move(r, others, screen, gap) == r,
{
    lemma_swept_apart(r, others, gap, others.len() as int);
    lemma_still(r, others, gap, 4);
}

/// Moving into the screen changes nothing of a rectangle that lies within it.
pub proof fn law_inside_stays(r: Rect<i64>, screen: Rect<i64>)
    requires
        moderate(r),
        moderate(screen),
        inside(r, screen),
    ensures
        on_screen(r, screen) == r,
{
}

proof fn lemma_push_size<S: Scalar>(r: Rect<S>, others: Seq<Rect<S>>, gap: S, n: int)
    ensures
        swept(r, others, gap, n).w == r.w,
        swept(r, others, gap, n).h == r.h,
    decreases n,
{
    if n > 0 {
        lemma_push_size(r, others, gap, n - 1);
    }
}

proof fn lemma_spread_size<S: Scalar>(r: Rect<S>, others: Seq<Rect<S>>, gap: S, rounds: int)
    ensures
        spread(r, others, gap, rounds).w == r.w,
        spread(r, others, gap, rounds).h == r.h,
    decreases rounds,
{
    if rounds > 0 {
        lemma_push_size(r, others, gap, others.len() as int);
        lemma_spread_size(swept(r, others, gap, others.len() as int), others, gap, rounds - 1);
    }
}

proof fn lemma_pushed_size<S: Scalar>(r: Rect<S>, others: Seq<Rect<S>>, screen: Rect<S>, gap: S)
    ensures
        pushed_on_screen(r, others, screen, gap).w == r.w,
        pushed_on_screen(r, others, screen, gap).h == r.h,
{
    lemma_spread_size(r, others, gap, 4);
    let a = on_screen(spread(r, others, gap, 4), screen);
    lemma_spread_size(a, others, gap, 4);
}

/// What is found at `x` is a spot, and one is found if there is any.
proof fn lemma_nearest_at<S: Scalar>(
    best: Option<Rect<S>>,
    r: Rect<S>,
    x: S,
    ys: Seq<S>,
    others: Seq<Rect<S>>,
    screen: Rect<S>,
    gap: S,
    m: int,
)
    requires
        0 <= m <= ys.len(),
        best matches Some(b) ==> is_spot(b, others, screen, gap) && b.w == r.w && b.h == r.h,
    ensures
        nearest_at(best, r, x, ys, others, screen, gap, m) matches Some(c) ==> is_spot(c, others, screen, gap) && c.w
            == r.w && c.h == r.h,
        best is Some ==> nearest_at(best, r, x, ys, others, screen, gap, m) is Some,
        forall|j: int|
            0 <= j < m && is_spot(Rect { x, y: #[trigger] ys[j], ..r }, others, screen, gap) ==> nearest_at(
                best,
                r,
                x,
                ys,
                others,
                screen,
                gap,
                m,
            ) is Some,
    decreases m,
{
    if m > 0 {
        lemma_nearest_at(best, r, x, ys, others, screen, gap, m - 1);
    }
}

proof fn lemma_nearest<S: Scalar>(
    r: Rect<S>,
    xs: Seq<S>,
    ys: Seq<S>,
    others: Seq<Rect<S>>,
    screen: Rect<S>,
    gap: S,
    n: int,
)
    requires
        0 <= n <= xs.len(),
    ensures
        nearest(r, xs, ys, others, screen, gap, n) matches Some(c) ==> is_spot(c, others, screen, gap) && c.w == r.w
            && c.h == r.h,
        forall|i: int, j: int|
            0 <= i < n && 0 <= j < ys.len() && is_spot(
                Rect { x: #[trigger] xs[i], y: #[trigger] ys[j], ..r },
                others,
                screen,
                gap,
            ) ==> nearest(r, xs, ys, others, screen, gap, n) is Some,
    decreases n,
{
    if n > 0 {
        lemma_nearest(r, xs, ys, others, screen, gap, n - 1);
        let b = nearest(r, xs, ys, others, screen, gap, n - 1);
        lemma_nearest_at(b, r, xs[n - 1], ys, others, screen, gap, ys.len() as int);
    }
}

proof fn lemma_nearest_spot<S: Scalar>(r: Rect<S>, others: Seq<Rect<S>>, screen: Rect<S>, gap: S)
    ensures
        nearest_spot(r, others, screen, gap) matches Some(c) ==> is_spot(c, others, screen, gap) && c.w == r.w && c.h
            == r.h,
{
    let xs = stops_x(r, others, screen, gap, others.len() as int);
    let ys = stops_y(r, others, screen, gap, others.len() as int);
    lemma_nearest(r, xs, ys, others, screen, gap, xs.len() as int);
}

/// Moving never changes a fence's size.
pub proof fn law_move_keeps_size<S: Scalar>(r: Rect<S>, others: Seq<Rect<S>>, screen: Rect<S>, gap: S)
    ensures
        settled_move(r, others, screen, gap).w == r.w,
        settled_move(r, others, screen, gap).h == r.h,
{
    lemma_pushed_size(r, others, screen, gap);
    let q = pushed_on_screen(r, others, screen, gap);
    lemma_nearest_spot(q, others, screen, gap);
    lemma_nearest_spot(q, others, screen, scalar::num(0));
}

/// A moved fence ends up on the screen, whatever stands there, on each axis on which it fits;
/// on one on which it does not it starts where the screen starts.
pub proof fn law_move_ends_on_screen(r: Rect<i64>, others: Seq<Rect<i64>>, screen: Rect<i64>, gap: i64)
    requires
        moderate(r),
        moderate(screen),
    ensures
        ({
            let q = settled_move(r, others, screen, gap);
            &&& r.w <= screen.w ==> screen.x <= q.x && q.x + q.w <= screen.x + screen.w
            &&& r.h <= screen.h ==> screen.y <= q.y && q.y + q.h <= screen.y + screen.h
            &&& r.w > screen.w ==> q.x == screen.x
            &&& r.h > screen.h ==> q.y == screen.y
        }),
{
    law_move_keeps_size(r, others, screen, gap);
    lemma_pushed_size(r, others, screen, gap);
    let a = on_screen(spread(r, others, gap, 4), screen);
    lemma_spread_size(r, others, gap, 4);
    lemma_spread_size(a, others, gap, 4);
    let q = pushed_on_screen(r, others, screen, gap);
    lemma_nearest_spot(q, others, screen, gap);
    lemma_nearest_spot(q, others, screen, scalar::num(0));
}

/// A fence too close to a single other one is pushed away from it and ends up at least `gap`
/// away, if the screen has the room on that side.
pub proof fn law_move_clears_one(r: Rect<i64>, o: Rect<i64>, screen: Rect<i64>, gap: i64)
    requires
        moderate(r),
        moderate(o),
        moderate(screen),
        0 <= gap <= 0x100_0000_0000,
        !apart(r, o, gap),
        inside(pushed_away(r, o, gap), screen),
    ensures
        apart(settled_move(r, seq![o], screen, gap), o, gap),
        settled_move(r, seq![o], screen, gap) == pushed_away(r, o, gap),
{
    let others = seq![o];
    let q = pushed_away(r, o, gap);
    law_push_separates(r, o, gap);
    assert(others[0] == o);
    reveal_with_fuel(swept, 2);
    assert(swept(r, others, gap, 1) == q);
    assert(clear(q, others, gap));
    lemma_swept_apart(q, others, gap, 1);
    lemma_still(q, others, gap, 3);
    assert(spread(r, others, gap, 4) == q);
    assert(on_screen(q, screen) == q);
    lemma_still(q, others, gap, 4);
}

/// Edges that leave room for many sums and differences.
pub open spec fn ample(r: Rect<i64>) -> bool {
    &&& -0x1000_0000_0000 <= r.x <= r.x + r.w <= 0x1000_0000_0000
    &&& -0x1000_0000_0000 <= r.y <= r.y + r.h <= 0x1000_0000_0000
}

/// `a` and `b` keep a distance of `gap` across.
pub open spec fn apart_x(a: Rect<i64>, b: Rect<i64>, gap: i64) -> bool {
    a.x + a.w + gap <= b.x || b.x + b.w + gap <= a.x
}

/// `a` and `b` keep a distance of `gap` up and down.
pub open spec fn apart_y(a: Rect<i64>, b: Rect<i64>, gap: i64) -> bool {
    a.y + a.h + gap <= b.y || b.y + b.h + gap <= a.y
}

/// Being apart means to keep the distance on one side; without a distance to keep, what is
/// empty is apart from everything.
pub proof fn law_apart_is_on_one_side(a: Rect<i64>, b: Rect<i64>, gap: i64)
    requires
        ample(a),
        ample(b),
        0 <= gap <= 0x100_0000_0000,
    ensures
        apart(a, b, gap) <==> apart_x(a, b, gap) || apart_y(a, b, gap) || (gap == 0 && (a.w == 0 || a.h == 0 || b.w == 0
            || b.h == 0)),
{
    assert(scalar::num::<i64>(0) == 0);
    assert(gap <= distance_x(a, b) <==> apart_x(a, b, gap) || (gap == 0 && (a.w == 0 || b.w == 0)));
    assert(gap <= distance_y(a, b) <==> apart_y(a, b, gap) || (gap == 0 && (a.h == 0 || b.h == 0)));
}

/// A fence that fits on the screen is pushed to a place on it.
proof fn lemma_pushed_inside(r: Rect<i64>, others: Seq<Rect<i64>>, screen: Rect<i64>, gap: i64)
    requires
        moderate(r),
        moderate(screen),
        r.w <= screen.w,
        r.h <= screen.h,
    ensures
        inside(pushed_on_screen(r, others, screen, gap), screen),
{
    let a = on_screen(spread(r, others, gap, 4), screen);
    lemma_spread_size(r, others, gap, 4);
    lemma_spread_size(a, others, gap, 4);
}

/// How far left `p` can go before it meets one of the first `n` others, or the screen's edge.
spec fn low_x(p: Rect<i64>, others: Seq<Rect<i64>>, screen: Rect<i64>, gap: i64, n: int) -> int
    decreases n,
{
    if n <= 0 {
        screen.x as int
    } else {
        let m = low_x(p, others, screen, gap, n - 1);
        let o = others[n - 1];
        if !apart_y(p, o, gap) && m < o.x + o.w + gap <= p.x {
            o.x + o.w + gap
        } else {
            m
        }
    }
}

/// How far up `p` can go before it meets one of the first `n` others, or the screen's edge.
spec fn low_y(p: Rect<i64>, others: Seq<Rect<i64>>, screen: Rect<i64>, gap: i64, n: int) -> int
    decreases n,
{
    if n <= 0 {
        screen.y as int
    } else {
        let m = low_y(p, others, screen, gap, n - 1);
        let o = others[n - 1];
        if !apart_x(p, o, gap) && m < o.y + o.h + gap <= p.y {
            o.y + o.h + gap
        } else {
            m
        }
    }
}

proof fn lemma_low_x(p: Rect<i64>, others: Seq<Rect<i64>>, screen: Rect<i64>, gap: i64, n: int)
    requires
        0 <= n <= others.len(),
        screen.x <= p.x,
    ensures
        screen.x <= low_x(p, others, screen, gap, n) <= p.x,
        low_x(p, others, screen, gap, n) == screen.x || exists|k: int|
            0 <= k < n && low_x(p, others, screen, gap, n) == (#[trigger] others[k]).x + others[k].w + gap,
        forall|k: int|
            0 <= k < n && !apart_y(p, #[trigger] others[k], gap) && others[k].x + others[k].w + gap <= p.x
                ==> others[k].x + others[k].w + gap <= low_x(p, others, screen, gap, n),
    decreases n,
{
    if n > 0 {
        lemma_low_x(p, others, screen, gap, n - 1);
        assert(others[n - 1] == others[n - 1]);
    }
}

proof fn lemma_low_y(p: Rect<i64>, others: Seq<Rect<i64>>, screen: Rect<i64>, gap: i64, n: int)
    requires
        0 <= n <= others.len(),
        screen.y <= p.y,
    ensures
        screen.y <= low_y(p, others, screen, gap, n) <= p.y,
        low_y(p, others, screen, gap, n) == screen.y || exists|k: int|
            0 <= k < n && low_y(p, others, screen, gap, n) == (#[trigger] others[k]).y + others[k].h + gap,
        forall|k: int|
            0 <= k < n && !apart_x(p, #[trigger] others[k], gap) && others[k].y + others[k].h + gap <= p.y
                ==> others[k].y + others[k].h + gap <= low_y(p, others, screen, gap, n),
    decreases n,
{
    if n > 0 {
        lemma_low_y(p, others, screen, gap, n - 1);
        assert(others[n - 1] == others[n - 1]);
    }
}

proof fn lemma_stops_x(r: Rect<i64>, others: Seq<Rect<i64>>, screen: Rect<i64>, gap: i64, n: int)
    requires
        0 <= n <= others.len(),
    ensures
        stops_x(r, others, screen, gap, n).len() == 3 + 2 * n,
        stops_x(r, others, screen, gap, n)[1] == screen.x,
        forall|k: int|
            0 <= k < n ==> stops_x(r, others, screen, gap, n)[4 + 2 * k] == (#[trigger] others[k]).right_edge().add(
                gap,
            ),
    decreases n,
{
    if n > 0 {
        lemma_stops_x(r, others, screen, gap, n - 1);
    }
}

proof fn lemma_stops_y(r: Rect<i64>, others: Seq<Rect<i64>>, screen: Rect<i64>, gap: i64, n: int)
    requires
        0 <= n <= others.len(),
    ensures
        stops_y(r, others, screen, gap, n).len() == 3 + 2 * n,
        stops_y(r, others, screen, gap, n)[1] == screen.y,
        forall|k: int|
            0 <= k < n ==> stops_y(r, others, screen, gap, n)[4 + 2 * k] == (#[trigger] others[k]).bottom_edge().add(
                gap,
            ),
    decreases n,
{
    if n > 0 {
        lemma_stops_y(r, others, screen, gap, n - 1);
    }
}

/// From a free place a fence can slide left to a stop.
proof fn lemma_slide_x(p: Rect<i64>, q: Rect<i64>, others: Seq<Rect<i64>>, screen: Rect<i64>, gap: i64) -> (i: int)
    requires
        ample(p),
        moderate(screen),
        inside(p, screen),
        0 <= gap <= 0x100_0000_0000,
        forall|k: int| 0 <= k < others.len() ==> moderate(#[trigger] others[k]),
        clear(p, others, gap),
    ensures
        0 <= i < stops_x(q, others, screen, gap, others.len() as int).len(),
        ({
            let c = Rect { x: stops_x(q, others, screen, gap, others.len() as int)[i], ..p };
            ample(c) && inside(c, screen) && clear(c, others, gap)
        }),
{
    let n = others.len() as int;
    let m = low_x(p, others, screen, gap, n);
    lemma_low_x(p, others, screen, gap, n);
    lemma_stops_x(q, others, screen, gap, n);
    let c = Rect { x: m as i64, ..p };
    assert forall|k: int| 0 <= k < n implies apart(c, #[trigger] others[k], gap) by {
        law_apart_is_on_one_side(p, others[k], gap);
        law_apart_is_on_one_side(c, others[k], gap);
    }
    if m == screen.x {
        1
    } else {
        let k = choose|k: int| 0 <= k < n && m == (#[trigger] others[k]).x + others[k].w + gap;
        assert(moderate(others[k]));
        4 + 2 * k
    }
}

/// From a free place a fence can slide up to a stop.
proof fn lemma_slide_y(p: Rect<i64>, q: Rect<i64>, others: Seq<Rect<i64>>, screen: Rect<i64>, gap: i64) -> (i: int)
    requires
        ample(p),
        moderate(screen),
        inside(p, screen),
        0 <= gap <= 0x100_0000_0000,
        forall|k: int| 0 <= k < others.len() ==> moderate(#[trigger] others[k]),
        clear(p, others, gap),
    ensures
        0 <= i < stops_y(q, others, screen, gap, others.len() as int).len(),
        ({
            let c = Rect { y: stops_y(q, others, screen, gap, others.len() as int)[i], ..p };
            ample(c) && inside(c, screen) && clear(c, others, gap)
        }),
{
    let n = others.len() as int;
    let m = low_y(p, others, screen, gap, n);
    lemma_low_y(p, others, screen, gap, n);
    lemma_stops_y(q, others, screen, gap, n);
    let c = Rect { y: m as i64, ..p };
    assert forall|k: int| 0 <= k < n implies apart(c, #[trigger] others[k], gap) by {
        law_apart_is_on_one_side(p, others[k], gap);
        law_apart_is_on_one_side(c, others[k], gap);
    }
    if m == screen.y {
        1
    } else {
        let k = choose|k: int| 0 <= k < n && m == (#[trigger] others[k]).y + others[k].h + gap;
        assert(moderate(others[k]));
        4 + 2 * k
    }
}

/// Where there is a place `p` for `q`, a spot is found.
proof fn lemma_spot_found(q: Rect<i64>, others: Seq<Rect<i64>>, screen: Rect<i64>, gap: i64, p: Rect<i64>)
    requires
        moderate(screen),
        0 <= gap <= 0x100_0000_0000,
        forall|i: int| 0 <= i < others.len() ==> moderate(#[trigger] others[i]),
        ample(p),
        p.w == q.w,
        p.h == q.h,
        inside(p, screen),
        clear(p, others, gap),
    ensures
        nearest_spot(q, others, screen, gap) is Some,
{
    let xs = stops_x(q, others, screen, gap, others.len() as int);
    let ys = stops_y(q, others, screen, gap, others.len() as int);
    let i = lemma_slide_x(p, q, others, screen, gap);
    let c = Rect { x: xs[i], ..p };
    let j = lemma_slide_y(c, q, others, screen, gap);
    let d = Rect { y: ys[j], ..c };
    assert(d == Rect { x: xs[i], y: ys[j], ..q });
    assert(is_spot(d, others, screen, gap));
    lemma_nearest(q, xs, ys, others, screen, gap, xs.len() as int);
}

/// Fences never overlap: a moved fence ends up on the screen and on none of the others,
/// however many there are, if the screen has room for it at all, that is, if there is any
/// place `p` on the screen at which it lies on none of them.
pub proof fn law_move_never_overlaps(
    r: Rect<i64>,
    others: Seq<Rect<i64>>,
    screen: Rect<i64>,
    gap: i64,
    p: Rect<i64>,
)
    requires
        moderate(r),
        moderate(screen),
        0 <= gap <= 0x100_0000_0000,
        forall|i: int| 0 <= i < others.len() ==> moderate(#[trigger] others[i]),
        p.w == r.w,
        p.h == r.h,
        inside(p, screen),
        clear(p, others, 0),
    ensures
        clear(settled_move(r, others, screen, gap), others, 0),
        inside(settled_move(r, others, screen, gap), screen),
{
    assert(scalar::num::<i64>(0) == 0);
    law_move_ends_on_screen(r, others, screen, gap);
    lemma_pushed_size(r, others, screen, gap);
    let q = pushed_on_screen(r, others, screen, gap);
    lemma_nearest_spot(q, others, screen, gap);
    lemma_nearest_spot(q, others, screen, 0);
    lemma_pushed_inside(r, others, screen, gap);
    lemma_spot_found(q, others, screen, 0, p);
    let s = settled_move(r, others, screen, gap);
    assert(clear(s, others, gap) || clear(s, others, 0));
    assert forall|i: int| 0 <= i < others.len() implies apart(s, #[trigger] others[i], 0) by {
        assert(apart(s, others[i], gap) || apart(s, others[i], 0));
    }
}

/// A moved fence keeps the distance `gap` from every other one, however many there are, if
/// there is any place `p` on the screen at which it does, unless it was pushed to a place
/// where only the distance is wanting: there it stays.
pub proof fn law_move_clears_all(
    r: Rect<i64>,
    others: Seq<Rect<i64>>,
    screen: Rect<i64>,
    gap: i64,
    p: Rect<i64>,
)
    requires
        moderate(r),
        moderate(screen),
        0 <= gap <= 0x100_0000_0000,
        forall|i: int| 0 <= i < others.len() ==> moderate(#[trigger] others[i]),
        p.w == r.w,
        p.h == r.h,
        inside(p, screen),
        clear(p, others, gap),
    ensures
        ({
            let q = pushed_on_screen(r, others, screen, gap);
            let s = settled_move(r, others, screen, gap);
            &&& clear(s, others, gap) || (s == q && clear(q, others, 0))
            &&& clear(s, others, 0)
            &&& inside(s, screen)
        }),
{
    assert(scalar::num::<i64>(0) == 0);
    lemma_pushed_size(r, others, screen, gap);
    let q = pushed_on_screen(r, others, screen, gap);
    lemma_nearest_spot(q, others, screen, gap);
    lemma_pushed_inside(r, others, screen, gap);
    lemma_spot_found(q, others, screen, gap, p);
    assert forall|i: int| 0 <= i < others.len() implies apart(p, #[trigger] others[i], 0) by {
        assert(apart(p, others[i], gap));
    }
    law_move_never_overlaps(r, others, screen, gap, p);
}

/// A fence that is pushed to a place on the screen where it lies on no other stays there,
/// even where the screen does not leave it its distance.
pub proof fn law_screen_wins_over_gap<S: Scalar>(r: Rect<S>, others: Seq<Rect<S>>, screen: Rect<S>, gap: S)
    requires
        clear(pushed_on_screen(r, others, screen, gap), others, scalar::num(0)),
    ensures
        settled_move(r, others, screen, gap) == pushed_on_screen(r, others, screen, gap),
{
}

/// The edge that is drawn back is a free one.
proof fn lemma_shortest_free<S: Scalar>(r: Rect<S>, others: Seq<Rect<S>>, gap: S, free: FreeSides, n: int)
    ensures
        shortest(r, others, gap, free, n) matches Some((_, e)) ==> frees(free, e),
    decreases n,
{
    if n > 0 {
        lemma_shortest_free(r, others, gap, free, n - 1);
    }
}

/// Whether the gesture moves the edge `e`.
pub open spec fn frees(free: FreeSides, e: Edge) -> bool {
    match e {
        Edge::Left => free.frees_left(),
        Edge::Right => free.frees_right(),
        Edge::Top => free.frees_top(),
        Edge::Bottom => free.frees_bottom(),
    }
}

/// What a gesture with the free sides `free` leaves of `r`.
pub open spec fn anchored<S: Scalar>(r: Rect<S>, q: Rect<S>, free: FreeSides) -> bool {
    &&& !free.frees_left() ==> q.x == r.x
    &&& !free.frees_top() ==> q.y == r.y
    &&& !free.frees_left() && !free.frees_right() ==> q.w == r.w
    &&& !free.frees_top() && !free.frees_bottom() ==> q.h == r.h
}

proof fn lemma_narrowed_anchored<S: Scalar>(
    r: Rect<S>,
    others: Seq<Rect<S>>,
    gap: S,
    free: FreeSides,
    rounds: int,
)
    ensures
        anchored(r, narrowed(r, others, gap, free, rounds), free),
    decreases rounds,
{
    if rounds > 0 {
        lemma_shortest_free(r, others, gap, free, others.len() as int);
        let step = shortest(r, others, gap, free, others.len() as int);
        lemma_narrowed_anchored(drawn_back(r, step), others, gap, free, rounds - 1);
    }
}

/// What the free edges are drawn back from when it is decided where a resized fence rests.
pub open spec fn before_last_retreat<S: Scalar>(
    r: Rect<S>,
    others: Seq<Rect<S>>,
    screen: Rect<S>,
    free: FreeSides,
    min_w: S,
    min_h: S,
    gap: S,
) -> Rect<S> {
    trimmed(widened(narrowed(r, others, gap, free, enough(others)), free, min_w, min_h), screen, free)
}

/// A resize moves free edges only: an upper left corner that is not free stays, and so does
/// a size both of whose edges are not free.
pub proof fn law_resize_keeps_anchor<S: Scalar>(
    r: Rect<S>,
    others: Seq<Rect<S>>,
    screen: Rect<S>,
    free: FreeSides,
    min_w: S,
    min_h: S,
    gap: S,
)
    ensures
        anchored(r, settled_resize(r, others, screen, free, min_w, min_h, gap), free),
{
    lemma_narrowed_anchored(r, others, gap, free, enough(others));
    let b = before_last_retreat(r, others, screen, free, min_w, min_h, gap);
    lemma_narrowed_anchored(b, others, gap, free, enough(others));
}

/// What of `r` a resize cannot change: the edge or the corner across from its free edges.
pub open spec fn anchor(r: Rect<i64>, free: FreeSides) -> Rect<i64> {
    Rect {
        x: if free.frees_left() && !free.frees_right() {
            r.right_edge()
        } else {
            r.x
        },
        y: if free.frees_top() && !free.frees_bottom() {
            r.bottom_edge()
        } else {
            r.y
        },
        w: if free.frees_left() || free.frees_right() {
            0
        } else {
            r.w
        },
        h: if free.frees_top() || free.frees_bottom() {
            0
        } else {
            r.h
        },
    }
}

/// `q` lies within `r`.
pub open spec fn part_of(q: Rect<i64>, r: Rect<i64>) -> bool {
    &&& r.x <= q.x && q.x + q.w <= r.x + r.w && 0 <= q.w
    &&& r.y <= q.y && q.y + q.h <= r.y + r.h && 0 <= q.h
}

/// A part of a fence is as far from another fence as the whole.
proof fn lemma_part_apart(q: Rect<i64>, r: Rect<i64>, o: Rect<i64>, gap: i64)
    requires
        ample(r),
        ample(o),
        0 < gap <= 0x100_0000_0000,
        part_of(q, r),
        apart(r, o, gap),
    ensures
        apart(q, o, gap),
{
    assert(scalar::num::<i64>(0) == 0);
    law_apart_is_on_one_side(r, o, gap);
    if apart_x(r, o, gap) {
        assert(gap <= distance_x(q, o));
    } else {
        assert(gap <= distance_y(q, o));
    }
}

/// The edge `e` of `r` can be drawn back to the distance `gap` from `o` before it meets the
/// edge across from it.
pub open spec fn has_room(r: Rect<i64>, o: Rect<i64>, gap: i64, e: Edge) -> bool {
    match e {
        Edge::Right => r.x <= o.x - gap,
        Edge::Bottom => r.y <= o.y - gap,
        Edge::Left => o.x + o.w + gap <= r.x + r.w,
        Edge::Top => o.y + o.h + gap <= r.y + r.h,
    }
}

/// An edge that is drawn back from another fence keeps the distance from it afterwards,
/// if there is room for that.
pub proof fn law_retreat_clears(r: Rect<i64>, o: Rect<i64>, gap: i64, e: Edge)
    requires
        ample(r),
        ample(o),
        0 <= gap <= 0x100_0000_0000,
        retreat(r, o, gap, e) is Some,
        has_room(r, o, gap, e),
    ensures
        apart(drawn_back(r, Some((retreat(r, o, gap, e)->0, e))), o, gap),
{
    assert(scalar::num::<i64>(0) == 0);
    let q = drawn_back(r, Some((retreat(r, o, gap, e)->0, e)));
    match e {
        Edge::Right => {
            assert(gap <= distance_x(q, o));
        },
        Edge::Left => {
            assert(gap <= distance_x(q, o));
        },
        Edge::Bottom => {
            assert(gap <= distance_y(q, o));
        },
        Edge::Top => {
            assert(gap <= distance_y(q, o));
        },
    }
}

/// The shortest retreat is one from some fence, by a free edge.
proof fn lemma_shortest_from(r: Rect<i64>, others: Seq<Rect<i64>>, gap: i64, free: FreeSides, n: int)
    requires
        0 <= n <= others.len(),
    ensures
        shortest(r, others, gap, free, n) matches Some((d, e)) ==> 0 < d && frees(free, e) && exists|k: int|
            0 <= k < n && retreat(r, #[trigger] others[k], gap, e) == Some(d),
    decreases n,
{
    assert(scalar::num::<i64>(0) == 0);
    if n > 0 {
        lemma_shortest_from(r, others, gap, free, n - 1);
        let o = others[n - 1];
        let b0 = shortest(r, others, gap, free, n - 1);
        let b1 = better(b0, r, o, gap, Edge::Right, free.frees_right());
        let b2 = better(b1, r, o, gap, Edge::Bottom, free.frees_bottom());
        let b3 = better(b2, r, o, gap, Edge::Left, free.frees_left());
        let b4 = better(b3, r, o, gap, Edge::Top, free.frees_top());
        if let Some((d, e)) = b4 {
            if b4 != b0 {
                assert(retreat(r, others[n - 1], gap, e) == Some(d));
            } else {
                let k = choose|k: int| 0 <= k < n - 1 && retreat(r, #[trigger] others[k], gap, e) == Some(d);
                assert(retreat(r, others[k], gap, e) == Some(d));
            }
        }
    }
}

/// Where there is no retreat, no free edge has to draw back from any fence.
proof fn lemma_shortest_none(r: Rect<i64>, others: Seq<Rect<i64>>, gap: i64, free: FreeSides, n: int)
    requires
        0 <= n <= others.len(),
        shortest(r, others, gap, free, n) is None,
    ensures
        forall|k: int, e: Edge|
            0 <= k < n && frees(free, e) ==> (#[trigger] retreat(r, others[k], gap, e) matches Some(d) ==> d <= 0),
    decreases n,
{
    assert(scalar::num::<i64>(0) == 0);
    if n > 0 {
        let o = others[n - 1];
        let b0 = shortest(r, others, gap, free, n - 1);
        let b1 = better(b0, r, o, gap, Edge::Right, free.frees_right());
        let b2 = better(b1, r, o, gap, Edge::Bottom, free.frees_bottom());
        let b3 = better(b2, r, o, gap, Edge::Left, free.frees_left());
        assert(b3 is None && b2 is None && b1 is None && b0 is None);
        lemma_shortest_none(r, others, gap, free, n - 1);
        assert forall|k: int, e: Edge| 0 <= k < n && frees(free, e) implies (#[trigger] retreat(
            r,
            others[k],
            gap,
            e,
        ) matches Some(d) ==> d <= 0) by {
            if k == n - 1 {
                match e {
                    Edge::Right => {},
                    Edge::Bottom => {},
                    Edge::Left => {},
                    Edge::Top => {},
                }
            }
        }
    }
}

/// How many of the first `n` others are too close.
spec fn crowd(r: Rect<i64>, others: Seq<Rect<i64>>, gap: i64, n: int) -> int
    decreases n,
{
    if n <= 0 {
        0
    } else if apart(r, others[n - 1], gap) {
        crowd(r, others, gap, n - 1)
    } else {
        crowd(r, others, gap, n - 1) + 1
    }
}

/// On how many axes `r` has an extent.
spec fn extents(r: Rect<i64>) -> int {
    (if r.w > 0 {
        1int
    } else {
        0
    }) + (if r.h > 0 {
        1int
    } else {
        0
    })
}

proof fn lemma_crowd(r: Rect<i64>, q: Rect<i64>, others: Seq<Rect<i64>>, gap: i64, n: int)
    requires
        0 <= n <= others.len(),
        ample(r),
        forall|k: int| 0 <= k < others.len() ==> ample(#[trigger] others[k]),
        0 < gap <= 0x100_0000_0000,
        part_of(q, r),
    ensures
        0 <= crowd(q, others, gap, n) <= crowd(r, others, gap, n) <= n,
        (exists|k: int| 0 <= k < n && !apart(r, others[k], gap) && apart(q, #[trigger] others[k], gap)) ==> crowd(
            q,
            others,
            gap,
            n,
        ) < crowd(r, others, gap, n),
    decreases n,
{
    if n > 0 {
        lemma_crowd(r, q, others, gap, n - 1);
        assert(ample(others[n - 1]));
        if apart(r, others[n - 1], gap) {
            lemma_part_apart(q, r, others[n - 1], gap);
        }
    }
}

/// Drawing an edge back takes a part of the fence, keeps what is anchored, and leaves fewer
/// fences too close or an extent less.
proof fn lemma_step(r: Rect<i64>, others: Seq<Rect<i64>>, gap: i64, free: FreeSides)
    requires
        ample(r),
        forall|k: int| 0 <= k < others.len() ==> ample(#[trigger] others[k]),
        0 < gap <= 0x100_0000_0000,
        !(free is Move),
        shortest(r, others, gap, free, others.len() as int) is Some,
    ensures
        ({
            let n = others.len() as int;
            let q = drawn_back(r, shortest(r, others, gap, free, n));
            &&& part_of(q, r)
            &&& anchor(q, free) == anchor(r, free)
            &&& crowd(q, others, gap, n) + extents(q) < crowd(r, others, gap, n) + extents(r)
        }),
{
    assert(scalar::num::<i64>(0) == 0);
    let n = others.len() as int;
    lemma_shortest_from(r, others, gap, free, n);
    let (d, e) = shortest(r, others, gap, free, n)->0;
    let k = choose|k: int| 0 <= k < n && retreat(r, #[trigger] others[k], gap, e) == Some(d);
    let o = others[k];
    assert(ample(o));
    let q = drawn_back(r, Some((d, e)));
    assert(part_of(q, r) && anchor(q, free) == anchor(r, free)) by {
        match e {
            Edge::Right => {
                assert(d <= r.w);
            },
            Edge::Left => {
                assert(d <= r.w);
            },
            Edge::Bottom => {
                assert(d <= r.h);
            },
            Edge::Top => {
                assert(d <= r.h);
            },
        }
    }
    lemma_crowd(r, q, others, gap, n);
    if has_room(r, o, gap, e) {
        law_retreat_clears(r, o, gap, e);
        assert(!apart(r, others[k], gap) && apart(q, others[k], gap));
    }
}

/// Drawing back comes to rest.
proof fn lemma_narrowed_rests(r: Rect<i64>, others: Seq<Rect<i64>>, gap: i64, free: FreeSides, rounds: int)
    requires
        ample(r),
        forall|k: int| 0 <= k < others.len() ==> ample(#[trigger] others[k]),
        0 < gap <= 0x100_0000_0000,
        !(free is Move),
        crowd(r, others, gap, others.len() as int) + extents(r) <= rounds,
    ensures
        ({
            let q = narrowed(r, others, gap, free, rounds);
            &&& part_of(q, r)
            &&& anchor(q, free) == anchor(r, free)
            &&& shortest(q, others, gap, free, others.len() as int) is None
        }),
    decreases rounds,
{
    let n = others.len() as int;
    lemma_crowd(r, r, others, gap, n);
    let step = shortest(r, others, gap, free, n);
    if step is None {
        lemma_narrowed_still(r, others, gap, free, rounds);
    } else {
        lemma_step(r, others, gap, free);
        let q = drawn_back(r, step);
        lemma_crowd(q, q, others, gap, n);
        lemma_narrowed_rests(q, others, gap, free, rounds - 1);
    }
}

/// A fence that has nothing to draw back from keeps the distance that its anchor keeps.
proof fn lemma_rest_clear(q: Rect<i64>, others: Seq<Rect<i64>>, gap: i64, free: FreeSides)
    requires
        ample(q),
        forall|k: int| 0 <= k < others.len() ==> ample(#[trigger] others[k]),
        0 < gap <= 0x100_0000_0000,
        !(free is Move),
        shortest(q, others, gap, free, others.len() as int) is None,
        clear(anchor(q, free), others, gap),
    ensures
        clear(q, others, gap),
{
    assert(scalar::num::<i64>(0) == 0);
    let n = others.len() as int;
    lemma_shortest_none(q, others, gap, free, n);
    assert forall|k: int| 0 <= k < n implies apart(q, #[trigger] others[k], gap) by {
        let o = others[k];
        let c = anchor(q, free);
        assert(apart(c, others[k], gap));
        law_apart_is_on_one_side(q, o, gap);
        law_apart_is_on_one_side(c, o, gap);
        if !apart(q, others[k], gap) {
            assert(frees(free, Edge::Right) ==> retreat(q, others[k], gap, Edge::Right) is None);
            assert(frees(free, Edge::Left) ==> retreat(q, others[k], gap, Edge::Left) is None);
            assert(frees(free, Edge::Bottom) ==> retreat(q, others[k], gap, Edge::Bottom) is None);
            assert(frees(free, Edge::Top) ==> retreat(q, others[k], gap, Edge::Top) is None);
        }
    }
}

/// Moving the free edges into the screen takes a part of the fence and keeps what is
/// anchored, if that is not beyond the screen.
proof fn lemma_trimmed_part(n: Rect<i64>, screen: Rect<i64>, free: FreeSides)
    requires
        ample(n),
        ample(screen),
        !(free is Move),
        free.frees_left() ==> screen.x <= n.x + n.w,
        free.frees_top() ==> screen.y <= n.y + n.h,
    ensures
        part_of(trimmed(n, screen, free), n),
        anchor(trimmed(n, screen, free), free) == anchor(n, free),
{
    assert(scalar::num::<i64>(0) == 0);
}

/// What is anchored is not beyond the screen.
pub open spec fn anchor_on_screen(r: Rect<i64>, screen: Rect<i64>, free: FreeSides) -> bool {
    &&& free.frees_left() ==> screen.x <= r.x + r.w
    &&& free.frees_top() ==> screen.y <= r.y + r.h
}

proof fn lemma_resize_parts(
    r: Rect<i64>,
    others: Seq<Rect<i64>>,
    screen: Rect<i64>,
    free: FreeSides,
    min_w: i64,
    min_h: i64,
    gap: i64,
)
    requires
        moderate(r),
        moderate(screen),
        forall|k: int| 0 <= k < others.len() ==> moderate(#[trigger] others[k]),
        0 <= min_w <= 0x100_0000_0000,
        0 <= min_h <= 0x100_0000_0000,
        0 < gap <= 0x100_0000_0000,
        !(free is Move),
        anchor_on_screen(r, screen, free),
    ensures
        ({
            let b = before_last_retreat(r, others, screen, free, min_w, min_h, gap);
            let n = narrowed(b, others, gap, free, enough(others));
            let q = settled_resize(r, others, screen, free, min_w, min_h, gap);
            &&& ample(n)
            &&& shortest(n, others, gap, free, others.len() as int) is None
            &&& anchor(n, free) == anchor(r, free)
            &&& part_of(q, n)
            &&& anchor(q, free) == anchor(r, free)
        }),
{
    assert(scalar::num::<i64>(0) == 0);
    let len = others.len() as int;
    assert forall|k: int| 0 <= k < others.len() implies ample(#[trigger] others[k]) by {
        assert(moderate(others[k]));
    }
    lemma_crowd(r, r, others, gap, len);
    lemma_narrowed_rests(r, others, gap, free, enough(others));
    let a = narrowed(r, others, gap, free, enough(others));
    let w = widened(a, free, min_w, min_h);
    assert(ample(w) && anchor(w, free) == anchor(a, free));
    assert(free.frees_left() ==> w.x + w.w == r.x + r.w);
    assert(free.frees_top() ==> w.y + w.h == r.y + r.h);
    lemma_trimmed_part(w, screen, free);
    let b = trimmed(w, screen, free);
    assert(b == before_last_retreat(r, others, screen, free, min_w, min_h, gap));
    assert(ample(b));
    lemma_crowd(b, b, others, gap, len);
    lemma_narrowed_rests(b, others, gap, free, enough(others));
    let n = narrowed(b, others, gap, free, enough(others));
    assert(free.frees_left() ==> n.x + n.w == r.x + r.w);
    assert(free.frees_top() ==> n.y + n.h == r.y + r.h);
    lemma_trimmed_part(n, screen, free);
}

/// A resized fence has coordinates that leave room for sums.
pub proof fn lemma_resize_bounded(
    r: Rect<i64>,
    others: Seq<Rect<i64>>,
    screen: Rect<i64>,
    free: FreeSides,
    min_w: i64,
    min_h: i64,
    gap: i64,
)
    requires
        moderate(r),
        moderate(screen),
        forall|k: int| 0 <= k < others.len() ==> moderate(#[trigger] others[k]),
        0 <= min_w <= 0x100_0000_0000,
        0 <= min_h <= 0x100_0000_0000,
        0 < gap <= 0x100_0000_0000,
        !(free is Move),
        anchor_on_screen(r, screen, free),
    ensures
        ample(settled_resize(r, others, screen, free, min_w, min_h, gap)),
{
    lemma_resize_parts(r, others, screen, free, min_w, min_h, gap);
}

/// Anchored edges do not move: the edge across from a free left or upper edge stays where it
/// is, unless it is beyond the screen.
pub proof fn law_resize_keeps_far_edges(
    r: Rect<i64>,
    others: Seq<Rect<i64>>,
    screen: Rect<i64>,
    free: FreeSides,
    min_w: i64,
    min_h: i64,
    gap: i64,
)
    requires
        moderate(r),
        moderate(screen),
        forall|k: int| 0 <= k < others.len() ==> moderate(#[trigger] others[k]),
        0 <= min_w <= 0x100_0000_0000,
        0 <= min_h <= 0x100_0000_0000,
        0 < gap <= 0x100_0000_0000,
        !(free is Move),
        anchor_on_screen(r, screen, free),
    ensures
        ({
            let q = settled_resize(r, others, screen, free, min_w, min_h, gap);
            &&& free.frees_left() ==> q.right_edge() == r.right_edge()
            &&& free.frees_top() ==> q.bottom_edge() == r.bottom_edge()
            &&& !free.frees_left() ==> q.x == r.x
            &&& !free.frees_top() ==> q.y == r.y
            &&& !free.frees_left() && !free.frees_right() ==> q.w == r.w
            &&& !free.frees_top() && !free.frees_bottom() ==> q.h == r.h
        }),
{
    lemma_resize_parts(r, others, screen, free, min_w, min_h, gap);
}

/// A resized fence ends up at least `gap` away from every other one, however many there are,
/// if the edge or corner that is anchored is that far from all of them: the distance wins
/// over the least size.
pub proof fn law_resize_clears_all(
    r: Rect<i64>,
    others: Seq<Rect<i64>>,
    screen: Rect<i64>,
    free: FreeSides,
    min_w: i64,
    min_h: i64,
    gap: i64,
)
    requires
        moderate(r),
        moderate(screen),
        forall|k: int| 0 <= k < others.len() ==> moderate(#[trigger] others[k]),
        0 <= min_w <= 0x100_0000_0000,
        0 <= min_h <= 0x100_0000_0000,
        0 < gap <= 0x100_0000_0000,
        !(free is Move),
        anchor_on_screen(r, screen, free),
        clear(anchor(r, free), others, gap),
    ensures
        clear(settled_resize(r, others, screen, free, min_w, min_h, gap), others, gap),
{
    lemma_resize_parts(r, others, screen, free, min_w, min_h, gap);
    assert forall|k: int| 0 <= k < others.len() implies ample(#[trigger] others[k]) by {
        assert(moderate(others[k]));
    }
    let b = before_last_retreat(r, others, screen, free, min_w, min_h, gap);
    let n = narrowed(b, others, gap, free, enough(others));
    lemma_rest_clear(n, others, gap, free);
    let q = settled_resize(r, others, screen, free, min_w, min_h, gap);
    assert forall|k: int| 0 <= k < others.len() implies apart(q, #[trigger] others[k], gap) by {
        lemma_part_apart(q, n, others[k], gap);
    }
}

/// With the right and lower edges free, a fence whose upper left corner is on the screen
/// ends up within it.
pub proof fn law_resize_ends_on_screen(
    r: Rect<i64>,
    others: Seq<Rect<i64>>,
    screen: Rect<i64>,
    min_w: i64,
    min_h: i64,
    gap: i64,
)
    requires
        moderate(r),
        moderate(screen),
        screen.x <= r.x <= screen.x + screen.w,
        screen.y <= r.y <= screen.y + screen.h,
    ensures
        inside(settled_resize(r, others, screen, FreeSides::BottomRight, min_w, min_h, gap), screen),
{
    law_resize_keeps_anchor(r, others, screen, FreeSides::BottomRight, min_w, min_h, gap);
    let free = FreeSides::BottomRight;
    lemma_narrowed_anchored(r, others, gap, free, enough(others));
    let b = before_last_retreat(r, others, screen, free, min_w, min_h, gap);
    lemma_narrowed_anchored(b, others, gap, free, enough(others));
}

/// Every free edge of a resized fence ends up on the screen, unless the anchored edge across
/// from it is beyond.
pub proof fn law_free_edges_end_on_screen(
    r: Rect<i64>,
    others: Seq<Rect<i64>>,
    screen: Rect<i64>,
    free: FreeSides,
    min_w: i64,
    min_h: i64,
    gap: i64,
)
    requires
        moderate(r),
        moderate(screen),
    ensures
        ({
            let q = settled_resize(r, others, screen, free, min_w, min_h, gap);
            &&& free.frees_left() ==> screen.x <= q.x
            &&& free.frees_top() ==> screen.y <= q.y
            &&& free.frees_right() && q.x <= screen.x + screen.w ==> q.x + q.w <= screen.x + screen.w
            &&& free.frees_bottom() && q.y <= screen.y + screen.h ==> q.y + q.h <= screen.y + screen.h
        }),
{
    assert(scalar::num::<i64>(0) == 0);
    law_resize_keeps_anchor(r, others, screen, free, min_w, min_h, gap);
}

/// How far `q` is from `r`, across and down together.
pub open spec fn way(r: Rect<i64>, q: Rect<i64>) -> int {
    (if q.x < r.x {
        r.x - q.x
    } else {
        q.x - r.x
    }) + (if q.y < r.y {
        r.y - q.y
    } else {
        q.y - r.y
    })
}

/// `r` and `o` are closer than `gap` on both axes.
pub open spec fn too_close(r: Rect<i64>, o: Rect<i64>, gap: i64) -> bool {
    &&& r.x < o.x + o.w + gap && o.x < r.x + r.w + gap
    &&& r.y < o.y + o.h + gap && o.y < r.y + r.h + gap
}

/// `r` would be free at (`x`, `y`): on the screen and not too close to any other fence but
/// the `k`-th.
pub open spec fn free_but(r: Rect<i64>, x: int, y: int, others: Seq<Rect<i64>>, screen: Rect<i64>, gap: i64, k: int) -> bool {
    &&& screen.x <= x && x + r.w <= screen.x + screen.w
    &&& screen.y <= y && y + r.h <= screen.y + screen.h
    &&& forall|i: int|
        0 <= i < others.len() && i != k ==> !too_close(Rect { x: x as i64, y: y as i64, ..r }, #[trigger] others[i], gap)
}

proof fn lemma_too_close(r: Rect<i64>, o: Rect<i64>, gap: i64)
    requires
        ample(r),
        ample(o),
        0 < gap <= 0x100_0000_0000,
    ensures
        apart(r, o, gap) == !too_close(r, o, gap),
{
    law_apart_is_on_one_side(r, o, gap);
}

proof fn lemma_swept_from(r: Rect<i64>, others: Seq<Rect<i64>>, gap: i64, k: int, n: int)
    requires
        0 <= k < n <= others.len(),
        forall|i: int| 0 <= i < k ==> apart(r, #[trigger] others[i], gap),
        !apart(r, others[k], gap),
        forall|i: int| k < i < n ==> apart(pushed_away(r, others[k], gap), #[trigger] others[i], gap),
    ensures
        swept(r, others, gap, n) == pushed_away(r, others[k], gap),
    decreases n,
{
    if n == k + 1 {
        lemma_swept_some(r, others, gap, k);
    } else {
        lemma_swept_from(r, others, gap, k, n - 1);
    }
}

proof fn lemma_swept_some(r: Rect<i64>, others: Seq<Rect<i64>>, gap: i64, n: int)
    requires
        0 <= n <= others.len(),
        forall|i: int| 0 <= i < n ==> apart(r, #[trigger] others[i], gap),
    ensures
        swept(r, others, gap, n) == r,
    decreases n,
{
    if n > 0 {
        lemma_swept_some(r, others, gap, n - 1);
    }
}

/// A fence that is dropped too close to another one gives way by the shortest way: to the
/// left, to the right, above or below it, whichever is nearest (to a pixel, for the halves of
/// odd lengths), if there is room on all four sides. It ends up at the distance `gap`.
pub proof fn law_move_goes_the_shortest_way(
    r: Rect<i64>,
    others: Seq<Rect<i64>>,
    screen: Rect<i64>,
    gap: i64,
    k: int,
)
    requires
        moderate(r),
        moderate(screen),
        0 < gap <= 0x100_0000_0000,
        forall|i: int| 0 <= i < others.len() ==> moderate(#[trigger] others[i]),
        0 <= k < others.len(),
        too_close(r, others[k], gap),
        free_but(r, r.x as int, r.y as int, others, screen, gap, k),
        free_but(r, others[k].x - gap - r.w, r.y as int, others, screen, gap, k),
        free_but(r, others[k].x + others[k].w + gap, r.y as int, others, screen, gap, k),
        free_but(r, r.x as int, others[k].y - gap - r.h, others, screen, gap, k),
        free_but(r, r.x as int, others[k].y + others[k].h + gap, others, screen, gap, k),
    ensures
        ({
            let o = others[k];
            let q = settled_move(r, others, screen, gap);
            &&& q.w == r.w && q.h == r.h
            &&& !too_close(q, o, gap)
            &&& q.x == r.x || q.y == r.y
            &&& way(r, q) <= r.x + r.w + gap - o.x + 1
            &&& way(r, q) <= o.x + o.w + gap - r.x + 1
            &&& way(r, q) <= r.y + r.h + gap - o.y + 1
            &&& way(r, q) <= o.y + o.h + gap - r.y + 1
        }),
{
    let o = others[k];
    let n = others.len() as int;
    let q = pushed_away(r, o, gap);
    assert(moderate(o));
    lemma_too_close(r, o, gap);
    lemma_push_is_shortest(r, o, gap);
    assert(free_but(r, q.x as int, q.y as int, others, screen, gap, k));
    assert(Rect { x: r.x, y: r.y, ..r } == r);
    assert(Rect { x: q.x, y: q.y, ..r } == q);
    assert forall|i: int| 0 <= i < n && i != k implies apart(r, #[trigger] others[i], gap) && apart(q, others[i], gap) by {
        assert(moderate(others[i]));
        lemma_too_close(r, others[i], gap);
        lemma_too_close(q, others[i], gap);
    }
    lemma_rests_after_push(r, others, screen, gap, k);
}

/// A fence that is pushed to a free place rests there.
proof fn lemma_rests_after_push(r: Rect<i64>, others: Seq<Rect<i64>>, screen: Rect<i64>, gap: i64, k: int)
    requires
        0 <= k < others.len(),
        !apart(r, others[k], gap),
        forall|i: int| 0 <= i < others.len() && i != k ==> apart(r, #[trigger] others[i], gap),
        clear(pushed_away(r, others[k], gap), others, gap),
        ample(pushed_away(r, others[k], gap)),
        moderate(screen),
        inside(pushed_away(r, others[k], gap), screen),
    ensures
        settled_move(r, others, screen, gap) == pushed_away(r, others[k], gap),
{
    let n = others.len() as int;
    let q = pushed_away(r, others[k], gap);
    lemma_swept_from(r, others, gap, k, n);
    lemma_swept_apart(q, others, gap, n);
    lemma_still(q, others, gap, 3);
    assert(spread(r, others, gap, 4) == q);
    assert(on_screen(q, screen) == q);
    lemma_still(q, others, gap, 4);
}

/// A push goes to one of the four sides, by the shortest way.
proof fn lemma_push_is_shortest(r: Rect<i64>, o: Rect<i64>, gap: i64)
    requires
        moderate(r),
        moderate(o),
        0 < gap <= 0x100_0000_0000,
        too_close(r, o, gap),
    ensures
        ({
            let q = pushed_away(r, o, gap);
            &&& ample(q)
            &&& q.w == r.w && q.h == r.h
            &&& !too_close(q, o, gap)
            &&& apart(q, o, gap)
            &&& (q.y == r.y && (q.x == o.x - gap - r.w || q.x == o.x + o.w + gap)) || (q.x == r.x && (q.y == o.y - gap
                - r.h || q.y == o.y + o.h + gap))
            &&& way(r, q) <= r.x + r.w + gap - o.x + 1
            &&& way(r, q) <= o.x + o.w + gap - r.x + 1
            &&& way(r, q) <= r.y + r.h + gap - o.y + 1
            &&& way(r, q) <= o.y + o.h + gap - r.y + 1
        }),
{
    assert(scalar::num::<i64>(0) == 0 && scalar::num::<i64>(2) == 2);
    let dx = push_x(r, o, gap);
    let dy = push_y(r, o, gap);
    assert((dx == o.x - gap - r.w - r.x || dx == o.x + o.w + gap - r.x) && Scalar::abs(dx) <= r.x + r.w + gap - o.x + 1
        && Scalar::abs(dx) <= o.x + o.w + gap - r.x + 1);
    assert((dy == o.y - gap - r.h - r.y || dy == o.y + o.h + gap - r.y) && Scalar::abs(dy) <= r.y + r.h + gap - o.y + 1
        && Scalar::abs(dy) <= o.y + o.h + gap - r.y + 1);
    lemma_too_close(r, o, gap);
    law_push_separates(r, o, gap);
}

/// How far `q` can go from where `p` is towards `q` before it meets one of the first `n`
/// others that are beside it.
spec fn towards_x(p: Rect<i64>, q: Rect<i64>, others: Seq<Rect<i64>>, gap: i64, n: int) -> int
    decreases n,
{
    if n <= 0 {
        q.x as int
    } else {
        let m = towards_x(p, q, others, gap, n - 1);
        let o = others[n - 1];
        if apart_y(p, o, gap) {
            m
        } else if q.x <= p.x && m < o.x + o.w + gap <= p.x {
            o.x + o.w + gap
        } else if p.x < q.x && p.x <= o.x - gap - p.w < m {
            o.x - gap - p.w
        } else {
            m
        }
    }
}

/// As [`towards_x`], up and down.
spec fn towards_y(p: Rect<i64>, q: Rect<i64>, others: Seq<Rect<i64>>, gap: i64, n: int) -> int
    decreases n,
{
    if n <= 0 {
        q.y as int
    } else {
        let m = towards_y(p, q, others, gap, n - 1);
        let o = others[n - 1];
        if apart_x(p, o, gap) {
            m
        } else if q.y <= p.y && m < o.y + o.h + gap <= p.y {
            o.y + o.h + gap
        } else if p.y < q.y && p.y <= o.y - gap - p.h < m {
            o.y - gap - p.h
        } else {
            m
        }
    }
}

proof fn lemma_towards_x(p: Rect<i64>, q: Rect<i64>, others: Seq<Rect<i64>>, gap: i64, n: int)
    requires
        0 <= n <= others.len(),
    ensures
        ({
            let m = towards_x(p, q, others, gap, n);
            &&& q.x <= p.x ==> q.x <= m <= p.x
            &&& p.x <= q.x ==> p.x <= m <= q.x
            &&& m == q.x || exists|k: int|
                0 <= k < n && (m == (#[trigger] others[k]).x + others[k].w + gap || m == others[k].x - gap - p.w)
            &&& q.x <= p.x ==> forall|k: int|
                0 <= k < n && !apart_y(p, #[trigger] others[k], gap) && others[k].x + others[k].w + gap <= p.x
                    ==> others[k].x + others[k].w + gap <= m
            &&& p.x < q.x ==> forall|k: int|
                0 <= k < n && !apart_y(p, #[trigger] others[k], gap) && p.x <= others[k].x - gap - p.w ==> m
                    <= others[k].x - gap - p.w
        }),
    decreases n,
{
    if n > 0 {
        lemma_towards_x(p, q, others, gap, n - 1);
        let m = towards_x(p, q, others, gap, n);
        if m != towards_x(p, q, others, gap, n - 1) {
            assert(m == others[n - 1].x + others[n - 1].w + gap || m == others[n - 1].x - gap - p.w);
        }
    }
}

proof fn lemma_towards_y(p: Rect<i64>, q: Rect<i64>, others: Seq<Rect<i64>>, gap: i64, n: int)
    requires
        0 <= n <= others.len(),
    ensures
        ({
            let m = towards_y(p, q, others, gap, n);
            &&& q.y <= p.y ==> q.y <= m <= p.y
            &&& p.y <= q.y ==> p.y <= m <= q.y
            &&& m == q.y || exists|k: int|
                0 <= k < n && (m == (#[trigger] others[k]).y + others[k].h + gap || m == others[k].y - gap - p.h)
            &&& q.y <= p.y ==> forall|k: int|
                0 <= k < n && !apart_x(p, #[trigger] others[k], gap) && others[k].y + others[k].h + gap <= p.y
                    ==> others[k].y + others[k].h + gap <= m
            &&& p.y < q.y ==> forall|k: int|
                0 <= k < n && !apart_x(p, #[trigger] others[k], gap) && p.y <= others[k].y - gap - p.h ==> m
                    <= others[k].y - gap - p.h
        }),
    decreases n,
{
    if n > 0 {
        lemma_towards_y(p, q, others, gap, n - 1);
        let m = towards_y(p, q, others, gap, n);
        if m != towards_y(p, q, others, gap, n - 1) {
            assert(m == others[n - 1].y + others[n - 1].h + gap || m == others[n - 1].y - gap - p.h);
        }
    }
}

proof fn lemma_all_stops_x(r: Rect<i64>, others: Seq<Rect<i64>>, screen: Rect<i64>, gap: i64, n: int)
    requires
        0 <= n <= others.len(),
    ensures
        stops_x(r, others, screen, gap, n).len() == 3 + 2 * n,
        stops_x(r, others, screen, gap, n)[0] == r.x,
        forall|k: int|
            0 <= k < n ==> stops_x(r, others, screen, gap, n)[3 + 2 * k] == Scalar::sub(
                Scalar::sub((#[trigger] others[k]).x, gap),
                r.w,
            ) && stops_x(r, others, screen, gap, n)[4 + 2 * k] == others[k].right_edge().add(gap),
    decreases n,
{
    if n > 0 {
        lemma_all_stops_x(r, others, screen, gap, n - 1);
    }
}

proof fn lemma_all_stops_y(r: Rect<i64>, others: Seq<Rect<i64>>, screen: Rect<i64>, gap: i64, n: int)
    requires
        0 <= n <= others.len(),
    ensures
        stops_y(r, others, screen, gap, n).len() == 3 + 2 * n,
        stops_y(r, others, screen, gap, n)[0] == r.y,
        forall|k: int|
            0 <= k < n ==> stops_y(r, others, screen, gap, n)[3 + 2 * k] == Scalar::sub(
                Scalar::sub((#[trigger] others[k]).y, gap),
                r.h,
            ) && stops_y(r, others, screen, gap, n)[4 + 2 * k] == others[k].bottom_edge().add(gap),
    decreases n,
{
    if n > 0 {
        lemma_all_stops_y(r, others, screen, gap, n - 1);
    }
}

/// From a free place `p` one can go across towards `q`, to a stop, and stay free.
proof fn lemma_go_x(p: Rect<i64>, q: Rect<i64>, others: Seq<Rect<i64>>, screen: Rect<i64>, gap: i64) -> (i: int)
    requires
        ample(p),
        ample(q),
        p.w == q.w,
        moderate(screen),
        inside(p, screen),
        screen.x <= q.x && q.x + q.w <= screen.x + screen.w,
        0 <= gap <= 0x100_0000_0000,
        forall|k: int| 0 <= k < others.len() ==> moderate(#[trigger] others[k]),
        clear(p, others, gap),
    ensures
        0 <= i < stops_x(q, others, screen, gap, others.len() as int).len(),
        ({
            let c = Rect { x: stops_x(q, others, screen, gap, others.len() as int)[i], ..p };
            ample(c) && inside(c, screen) && clear(c, others, gap) && (q.x <= c.x <= p.x || p.x <= c.x <= q.x)
        }),
{
    let n = others.len() as int;
    let m = towards_x(p, q, others, gap, n);
    lemma_towards_x(p, q, others, gap, n);
    lemma_all_stops_x(q, others, screen, gap, n);
    let c = Rect { x: m as i64, ..p };
    assert forall|k: int| 0 <= k < n implies apart(c, #[trigger] others[k], gap) by {
        assert(moderate(others[k]));
        law_apart_is_on_one_side(p, others[k], gap);
        law_apart_is_on_one_side(c, others[k], gap);
    }
    if m == q.x {
        0
    } else {
        let k = choose|k: int|
            0 <= k < n && (m == (#[trigger] others[k]).x + others[k].w + gap || m == others[k].x - gap - p.w);
        assert(moderate(others[k]));
        if m == others[k].x + others[k].w + gap {
            4 + 2 * k
        } else {
            3 + 2 * k
        }
    }
}

/// From a free place `p` one can go up or down towards `q`, to a stop, and stay free.
proof fn lemma_go_y(p: Rect<i64>, q: Rect<i64>, others: Seq<Rect<i64>>, screen: Rect<i64>, gap: i64) -> (i: int)
    requires
        ample(p),
        ample(q),
        p.h == q.h,
        moderate(screen),
        inside(p, screen),
        screen.y <= q.y && q.y + q.h <= screen.y + screen.h,
        0 <= gap <= 0x100_0000_0000,
        forall|k: int| 0 <= k < others.len() ==> moderate(#[trigger] others[k]),
        clear(p, others, gap),
    ensures
        0 <= i < stops_y(q, others, screen, gap, others.len() as int).len(),
        ({
            let c = Rect { y: stops_y(q, others, screen, gap, others.len() as int)[i], ..p };
            ample(c) && inside(c, screen) && clear(c, others, gap) && (q.y <= c.y <= p.y || p.y <= c.y <= q.y)
        }),
{
    let n = others.len() as int;
    let m = towards_y(p, q, others, gap, n);
    lemma_towards_y(p, q, others, gap, n);
    lemma_all_stops_y(q, others, screen, gap, n);
    let c = Rect { y: m as i64, ..p };
    assert forall|k: int| 0 <= k < n implies apart(c, #[trigger] others[k], gap) by {
        assert(moderate(others[k]));
        law_apart_is_on_one_side(p, others[k], gap);
        law_apart_is_on_one_side(c, others[k], gap);
    }
    if m == q.y {
        0
    } else {
        let k = choose|k: int|
            0 <= k < n && (m == (#[trigger] others[k]).y + others[k].h + gap || m == others[k].y - gap - p.h);
        assert(moderate(others[k]));
        if m == others[k].y + others[k].h + gap {
            4 + 2 * k
        } else {
            3 + 2 * k
        }
    }
}

/// The spot found at `x` is no farther than any other there.
proof fn lemma_nearest_at_least(
    best: Option<Rect<i64>>,
    r: Rect<i64>,
    x: i64,
    ys: Seq<i64>,
    others: Seq<Rect<i64>>,
    screen: Rect<i64>,
    gap: i64,
    m: int,
)
    requires
        0 <= m <= ys.len(),
    ensures
        ({
            let b = nearest_at(best, r, x, ys, others, screen, gap, m);
            &&& best matches Some(a) ==> b is Some && stray(r, b->0) <= stray(r, a)
            &&& forall|j: int|
                0 <= j < m && is_spot(Rect { x, y: #[trigger] ys[j], ..r }, others, screen, gap) ==> b is Some && stray(
                    r,
                    b->0,
                ) <= stray(r, Rect { x, y: ys[j], ..r })
        }),
    decreases m,
{
    if m > 0 {
        lemma_nearest_at_least(best, r, x, ys, others, screen, gap, m - 1);
    }
}

proof fn lemma_nearest_least(
    r: Rect<i64>,
    xs: Seq<i64>,
    ys: Seq<i64>,
    others: Seq<Rect<i64>>,
    screen: Rect<i64>,
    gap: i64,
    n: int,
)
    requires
        0 <= n <= xs.len(),
    ensures
        forall|i: int, j: int|
            0 <= i < n && 0 <= j < ys.len() && is_spot(
                Rect { x: #[trigger] xs[i], y: #[trigger] ys[j], ..r },
                others,
                screen,
                gap,
            ) ==> nearest(r, xs, ys, others, screen, gap, n) is Some && stray(
                r,
                nearest(r, xs, ys, others, screen, gap, n)->0,
            ) <= stray(r, Rect { x: xs[i], y: ys[j], ..r }),
    decreases n,
{
    if n > 0 {
        lemma_nearest_least(r, xs, ys, others, screen, gap, n - 1);
        let b = nearest(r, xs, ys, others, screen, gap, n - 1);
        lemma_nearest_at_least(b, r, xs[n - 1], ys, others, screen, gap, ys.len() as int);
    }
}

/// The spot that is found is the nearest free place.
proof fn lemma_spot_is_nearest(q: Rect<i64>, others: Seq<Rect<i64>>, screen: Rect<i64>, gap: i64, p: Rect<i64>)
    requires
        moderate(screen),
        0 <= gap <= 0x100_0000_0000,
        forall|i: int| 0 <= i < others.len() ==> moderate(#[trigger] others[i]),
        inside(q, screen),
        0 <= q.w && 0 <= q.h,
        p.w == q.w,
        p.h == q.h,
        inside(p, screen),
        clear(p, others, gap),
    ensures
        nearest_spot(q, others, screen, gap) matches Some(s) && way(q, s) <= way(q, p),
{
    let n = others.len() as int;
    let xs = stops_x(q, others, screen, gap, n);
    let ys = stops_y(q, others, screen, gap, n);
    let i = lemma_go_x(p, q, others, screen, gap);
    let c = Rect { x: xs[i], ..p };
    let j = lemma_go_y(c, q, others, screen, gap);
    let d = Rect { y: ys[j], ..c };
    assert(d == Rect { x: xs[i], y: ys[j], ..q });
    assert(is_spot(d, others, screen, gap));
    lemma_nearest_least(q, xs, ys, others, screen, gap, xs.len() as int);
    lemma_nearest_spot(q, others, screen, gap);
    let s = nearest_spot(q, others, screen, gap)->0;
    assert(stray(q, s) <= stray(q, d));
    assert(stray(q, d) == way(q, d));
    assert(stray(q, s) == way(q, s));
}

/// A fence that lies on another where it was pushed to goes to the nearest place of all that
/// are free: none on the screen at which it keeps the distance `gap` is nearer to where it was
/// pushed to. Where it can keep that distance nowhere, no place at which it lies on no other
/// is nearer.
pub proof fn law_free_place_is_nearest(
    r: Rect<i64>,
    others: Seq<Rect<i64>>,
    screen: Rect<i64>,
    gap: i64,
    p: Rect<i64>,
)
    requires
        moderate(r),
        moderate(screen),
        0 <= gap <= 0x100_0000_0000,
        forall|i: int| 0 <= i < others.len() ==> moderate(#[trigger] others[i]),
        p.w == r.w,
        p.h == r.h,
        inside(p, screen),
        clear(p, others, gap) || (clear(p, others, 0) && forall|c: Rect<i64>|
            c.w == r.w && c.h == r.h && inside(c, screen) ==> !(#[trigger] clear(c, others, gap))),
    ensures
        ({
            let q = pushed_on_screen(r, others, screen, gap);
            way(q, settled_move(r, others, screen, gap)) <= way(q, p)
        }),
{
    assert(scalar::num::<i64>(0) == 0);
    lemma_pushed_size(r, others, screen, gap);
    lemma_pushed_inside(r, others, screen, gap);
    let q = pushed_on_screen(r, others, screen, gap);
    if clear(p, others, gap) {
        lemma_spot_is_nearest(q, others, screen, gap, p);
    } else {
        lemma_spot_is_nearest(q, others, screen, 0, p);
        lemma_nearest_spot(q, others, screen, gap);
    }
}

/// What clears all others has nothing to draw back from.
proof fn lemma_clear_rests(r: Rect<i64>, others: Seq<Rect<i64>>, gap: i64, free: FreeSides, n: int)
    requires
        0 <= n <= others.len(),
        clear(r, others, gap),
    ensures
        shortest(r, others, gap, free, n) is None,
    decreases n,
{
    if n > 0 {
        lemma_clear_rests(r, others, gap, free, n - 1);
        assert(apart(r, others[n - 1], gap));
    }
}

/// A resize that nothing stops goes where it was dragged to: brought up to the least size by
/// the edges that are free, the fence is left as it is if that is clear of the others and its
/// free edges are on the screen.
pub proof fn law_unhindered_resize_stays(
    r: Rect<i64>,
    others: Seq<Rect<i64>>,
    screen: Rect<i64>,
    free: FreeSides,
    min_w: i64,
    min_h: i64,
    gap: i64,
    q: Rect<i64>,
)
    requires
        moderate(r),
        moderate(screen),
        forall|k: int| 0 <= k < others.len() ==> moderate(#[trigger] others[k]),
        0 <= min_w <= 0x100_0000_0000,
        0 <= min_h <= 0x100_0000_0000,
        0 < gap <= 0x100_0000_0000,
        !(free is Move),
        // the far edges are those of `r`, the lengths are at least the least ones
        q.w == if min_w > r.w && !(free is Bottom) {
            min_w
        } else {
            r.w
        },
        q.h == if min_h > r.h && !(free is Left || free is Right) {
            min_h
        } else {
            r.h
        },
        q.x == if free is Left || free is BottomLeft {
            r.x + r.w - q.w
        } else {
            r.x as int
        },
        q.y == if free is TopRight {
            r.y + r.h - q.h
        } else {
            r.y as int
        },
        clear(q, others, gap),
        inside(q, screen),
    ensures
        settled_resize(r, others, screen, free, min_w, min_h, gap) == q,
{
    assert(scalar::num::<i64>(0) == 0);
    assert forall|k: int| 0 <= k < others.len() implies apart(r, #[trigger] others[k], gap) by {
        assert(moderate(others[k]));
        assert(apart(q, others[k], gap));
        lemma_part_apart(r, q, others[k], gap);
    }
    let n = enough(others);
    lemma_clear_rests(r, others, gap, free, others.len() as int);
    lemma_narrowed_still(r, others, gap, free, n);
    assert(widened(r, free, min_w, min_h) == q);
    assert(trimmed(q, screen, free) == q);
    lemma_clear_rests(q, others, gap, free, others.len() as int);
    lemma_narrowed_still(q, others, gap, free, n);
}

/// How much of its lengths `r` lost.
pub open spec fn lost(r: Rect<i64>, q: Rect<i64>) -> int {
    (r.w - q.w) + (r.h - q.h)
}

proof fn lemma_shortest_one(r: Rect<i64>, others: Seq<Rect<i64>>, gap: i64, free: FreeSides, k: int, n: int)
    requires
        0 <= n <= others.len(),
        0 <= k < others.len(),
        forall|i: int| 0 <= i < others.len() && i != k ==> apart(r, #[trigger] others[i], gap),
    ensures
        n <= k ==> shortest(r, others, gap, free, n) is None,
        n > k ==> shortest(r, others, gap, free, n) == shortest(r, seq![others[k]], gap, free, 1),
    decreases n,
{
    if n > 0 {
        lemma_shortest_one(r, others, gap, free, k, n - 1);
        if n - 1 == k {
            reveal_with_fuel(shortest, 2);
            assert(seq![others[k]][0] == others[k]);
            assert(shortest(r, seq![others[k]], gap, free, 0) is None);
        } else {
            assert(apart(r, others[n - 1], gap));
        }
    }
}

/// The retreat from one fence is by a free edge, to the distance `gap`, and the shortest.
proof fn lemma_least_retreat(r: Rect<i64>, o: Rect<i64>, gap: i64, free: FreeSides)
    requires
        moderate(r),
        moderate(o),
        0 < gap <= 0x100_0000_0000,
        !(free is Move),
        too_close(r, o, gap),
        free.frees_right() ==> r.x <= o.x - gap,
        free.frees_left() ==> o.x + o.w + gap <= r.x + r.w,
        free.frees_bottom() ==> r.y <= o.y - gap,
        free.frees_top() ==> o.y + o.h + gap <= r.y + r.h,
    ensures
        shortest(r, seq![o], gap, free, 1) matches Some((d, e)) && {
            &&& frees(free, e)
            &&& 0 < d
            &&& d == match e {
                Edge::Right => r.x + r.w + gap - o.x,
                Edge::Left => o.x + o.w + gap - r.x,
                Edge::Bottom => r.y + r.h + gap - o.y,
                Edge::Top => o.y + o.h + gap - r.y,
            }
            &&& free.frees_right() ==> d <= r.x + r.w + gap - o.x
            &&& free.frees_left() ==> d <= o.x + o.w + gap - r.x
            &&& free.frees_bottom() ==> d <= r.y + r.h + gap - o.y
            &&& free.frees_top() ==> d <= o.y + o.h + gap - r.y
        },
{
    assert(scalar::num::<i64>(0) == 0);
    lemma_too_close(r, o, gap);
    reveal_with_fuel(shortest, 2);
    assert(seq![o][0] == o);
    assert(free.frees_right() ==> retreat(r, o, gap, Edge::Right) == Some((r.x + r.w + gap - o.x) as i64));
    assert(free.frees_left() ==> retreat(r, o, gap, Edge::Left) == Some((o.x + o.w + gap - r.x) as i64));
    assert(free.frees_bottom() ==> retreat(r, o, gap, Edge::Bottom) == Some((r.y + r.h + gap - o.y) as i64));
    assert(free.frees_top() ==> retreat(r, o, gap, Edge::Top) == Some((o.y + o.h + gap - r.y) as i64));
}

/// What is left of a fence after it has drawn back from the one that it is too close to.
proof fn lemma_drawn_back(r: Rect<i64>, others: Seq<Rect<i64>>, gap: i64, free: FreeSides, k: int)
    requires
        moderate(r),
        forall|i: int| 0 <= i < others.len() ==> moderate(#[trigger] others[i]),
        0 < gap <= 0x100_0000_0000,
        !(free is Move),
        0 <= k < others.len(),
        too_close(r, others[k], gap),
        forall|i: int| 0 <= i < others.len() && i != k ==> !too_close(r, #[trigger] others[i], gap),
        free.frees_right() ==> r.x <= others[k].x - gap,
        free.frees_left() ==> others[k].x + others[k].w + gap <= r.x + r.w,
        free.frees_bottom() ==> r.y <= others[k].y - gap,
        free.frees_top() ==> others[k].y + others[k].h + gap <= r.y + r.h,
    ensures
        ({
            let o = others[k];
            let q = drawn_back(r, shortest(r, others, gap, free, others.len() as int));
            &&& part_of(q, r)
            &&& q.w == r.w || q.h == r.h
            &&& forall|i: int|
                0 <= i < others.len() ==> apart(q, #[trigger] others[i], gap) && !too_close(q, others[i], gap)
            &&& free.frees_right() ==> q.x == r.x && lost(r, q) <= r.x + r.w + gap - o.x
            &&& free.frees_left() ==> q.x + q.w == r.x + r.w && lost(r, q) <= o.x + o.w + gap - r.x
            &&& free.frees_bottom() ==> q.y == r.y && lost(r, q) <= r.y + r.h + gap - o.y
            &&& free.frees_top() ==> q.y + q.h == r.y + r.h && lost(r, q) <= o.y + o.h + gap - r.y
            &&& !free.frees_right() && !free.frees_left() ==> q.x == r.x && q.w == r.w
            &&& !free.frees_bottom() && !free.frees_top() ==> q.y == r.y && q.h == r.h
        }),
{
    let o = others[k];
    let len = others.len() as int;
    assert(moderate(o));
    assert forall|i: int| 0 <= i < len && i != k implies apart(r, #[trigger] others[i], gap) by {
        assert(moderate(others[i]));
        lemma_too_close(r, others[i], gap);
    }
    lemma_shortest_one(r, others, gap, free, k, len);
    lemma_least_retreat(r, o, gap, free);
    let q = drawn_back(r, shortest(r, others, gap, free, len));
    assert(part_of(q, r));
    assert(!too_close(q, o, gap));
    assert forall|i: int| 0 <= i < len implies apart(q, #[trigger] others[i], gap) && !too_close(q, others[i], gap) by {
        assert(moderate(others[i]));
        lemma_too_close(q, others[i], gap);
        if i != k {
            lemma_part_apart(q, r, others[i], gap);
        }
    }
}

/// A neighbour stops a resize where it must and no earlier: a fence on the screen whose free
/// edges come too close to one other fence loses length on one axis only, ends up clear of
/// every fence, and no free edge would have had to give way by less. Both edges that are free
/// must leave the least size when they give way.
pub proof fn law_resize_gives_way_by_the_least(
    r: Rect<i64>,
    others: Seq<Rect<i64>>,
    screen: Rect<i64>,
    free: FreeSides,
    min_w: i64,
    min_h: i64,
    gap: i64,
    k: int,
)
    requires
        moderate(r),
        moderate(screen),
        inside(r, screen),
        forall|i: int| 0 <= i < others.len() ==> moderate(#[trigger] others[i]),
        0 <= min_w <= r.w,
        0 <= min_h <= r.h,
        0 < gap <= 0x100_0000_0000,
        !(free is Move),
        0 <= k < others.len(),
        too_close(r, others[k], gap),
        forall|i: int| 0 <= i < others.len() && i != k ==> !too_close(r, #[trigger] others[i], gap),
        free is Right || free is BottomRight || free is TopRight ==> r.x + min_w <= others[k].x - gap,
        free is Left || free is BottomLeft ==> others[k].x + others[k].w + gap <= r.x + r.w - min_w,
        free is Bottom || free is BottomRight || free is BottomLeft ==> r.y + min_h <= others[k].y - gap,
        free is TopRight ==> others[k].y + others[k].h + gap <= r.y + r.h - min_h,
    ensures
        ({
            let o = others[k];
            let q = settled_resize(r, others, screen, free, min_w, min_h, gap);
            &&& part_of(q, r)
            &&& q.w == r.w || q.h == r.h
            &&& forall|i: int| 0 <= i < others.len() ==> !too_close(q, #[trigger] others[i], gap)
            &&& free is Right || free is BottomRight || free is TopRight ==> q.x == r.x && lost(r, q) <= r.x + r.w + gap
                - o.x
            &&& free is Left || free is BottomLeft ==> q.x + q.w == r.x + r.w && lost(r, q) <= o.x + o.w + gap - r.x
            &&& free is Bottom || free is BottomRight || free is BottomLeft ==> q.y == r.y && lost(r, q) <= r.y + r.h
                + gap - o.y
            &&& free is TopRight ==> q.y + q.h == r.y + r.h && lost(r, q) <= o.y + o.h + gap - r.y
            &&& free is Bottom ==> q.x == r.x && q.w == r.w
            &&& free is Left || free is Right ==> q.y == r.y && q.h == r.h
        }),
{
    assert(scalar::num::<i64>(0) == 0);
    let len = others.len() as int;
    lemma_drawn_back(r, others, gap, free, k);
    let q = drawn_back(r, shortest(r, others, gap, free, len));
    let n = enough(others);
    lemma_clear_rests(q, others, gap, free, len);
    lemma_narrowed_still(q, others, gap, free, n - 1);
    assert(narrowed(r, others, gap, free, n) == q);
    lemma_narrowed_still(q, others, gap, free, n);
    assert(widened(q, free, min_w, min_h) == q);
    assert(trimmed(q, screen, free) == q);
}

/// The screen stops an edge at its side: with no other fence in the way, a fence that is
/// large enough keeps what of it is on the screen.
pub proof fn law_screen_stops_resize(
    r: Rect<i64>,
    screen: Rect<i64>,
    free: FreeSides,
    gap: i64,
)
    requires
        moderate(r),
        moderate(screen),
        0 < gap <= 0x100_0000_0000,
        !(free is Move),
        screen.x <= r.x + r.w && r.x <= screen.x + screen.w,
        screen.y <= r.y + r.h && r.y <= screen.y + screen.h,
    ensures
        ({
            let q = settled_resize(r, Seq::empty(), screen, free, 0, 0, gap);
            &&& q.x == if (free is Left || free is BottomLeft) && r.x < screen.x {
                screen.x
            } else {
                r.x
            }
            &&& q.y == if free is TopRight && r.y < screen.y {
                screen.y
            } else {
                r.y
            }
            &&& q.x + q.w == if (free is Right || free is BottomRight || free is TopRight) && screen.x + screen.w < r.x
                + r.w {
                screen.x + screen.w
            } else {
                r.x + r.w
            }
            &&& q.y + q.h == if (free is Bottom || free is BottomRight || free is BottomLeft) && screen.y + screen.h
                < r.y + r.h {
                screen.y + screen.h
            } else {
                r.y + r.h
            }
        }),
{
    assert(scalar::num::<i64>(0) == 0);
    let others = Seq::<Rect<i64>>::empty();
    let n = enough(others);
    lemma_narrowed_still(r, others, gap, free, n);
    let w = widened(r, free, 0, 0);
    assert(w == r);
    let b = trimmed(r, screen, free);
    lemma_narrowed_still(b, others, gap, free, n);
    assert(trimmed(b, screen, free) == b);
}

} // verus!
