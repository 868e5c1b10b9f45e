//! Making fences, shaping them and taking them away.

use vstd::prelude::*;
use vstd::string::*;

use crate::chars;
use crate::chars::{same, trim};
use crate::console;
use crate::console::name_of;
use crate::fence_view;
use crate::fence_view::list_auto_width;
use crate::geometry::Rect;
use crate::intake;
use crate::lists;
use crate::lists::copy_texts;
use crate::magnet;
use crate::magnet::{settle_move, FENCE_GAP};
use crate::model::{
    Desk, Fence, FenceAppearance, FenceLayout, FenceState, FenceStyle, Icon, SidebarPosition,
};
use crate::numbers;
use crate::numbers::push_decimal;
use crate::paths;
use crate::paths::file_name_of;
use crate::placement;
use crate::placement::{dock_place, other_bounds, screen_rect};
use crate::scalar;
use crate::scalar::{whole_number, Scalar};
use crate::stock;
use crate::stock::free_icon;
use crate::theme::Theme;

verus! {

/// The chosen fence, the last one where the choice is out of range.
pub fn chosen_fence(selected: usize, n: usize) -> (i: usize)
    ensures
        i == console::choice(selected, n as int),
{
    if n == 0 {
        0
    } else if selected < n {
        selected
    } else {
        n - 1
    }
}

/// A fence in another layout: a list gets the width that suits it, and a sidebar is docked.
pub open spec fn laid<S: Scalar>(
    f: Fence<S>,
    icons: Map<Seq<char>, Icon>,
    t: Theme<S>,
    layout: FenceLayout,
    wa: Rect<S>,
) -> Fence<S> {
    let g = Fence { appearance: FenceAppearance { layout, ..f.appearance }, ..f };
    match layout {
        FenceLayout::List => Fence {
            bounds: Rect { w: fence_view::list_width(t, f, icons), ..f.bounds },
            ..g
        },
        FenceLayout::Sidebar => {
            let open = Fence { sidebar_collapsed: false, ..g };
            Fence { bounds: placement::docked(t.scale, open, wa), ..open }
        },
        FenceLayout::Grid => g,
    }
}

/// The fences with `f` in the `i`-th place, if there is one.
pub open spec fn replaced<S>(fences: Seq<Fence<S>>, i: int, f: Fence<S>) -> Seq<Fence<S>> {
    if 0 <= i < fences.len() {
        fences.update(i, f)
    } else {
        fences
    }
}

/// Gives a fence another layout.
pub fn set_layout<S: Scalar>(desk: &mut Desk<S>, theme: &Theme<S>, i: usize, layout: FenceLayout, wa: Rect<S>)
    requires
        placement::countable(old(desk).fences@),
    ensures
        final(desk).same_but_fences(*old(desk)),
        final(desk).fences@ == replaced(
            old(desk).fences@,
            i as int,
            laid(old(desk).fences[i as int], old(desk).icons@, *theme, layout, wa),
        ),
{
    if i < desk.fences.len() {
        let ghost was = desk.fences@;
        match layout {
            FenceLayout::List => {
                let w = list_auto_width(theme, &desk.fences[i], &desk.icons);
                desk.fences[i].appearance.layout = layout;
                desk.fences[i].bounds.w = w;
            },
            FenceLayout::Sidebar => {
                desk.fences[i].appearance.layout = layout;
                desk.fences[i].sidebar_collapsed = false;
                let b = dock_place(theme.scale, &desk.fences[i], &wa);
                desk.fences[i].bounds = b;
            },
            FenceLayout::Grid => {
                desk.fences[i].appearance.layout = layout;
            },
        }
        proof {
            let want = laid(was[i as int], old(desk).icons@, *theme, layout, wa);
            assert(desk.fences@[i as int] == want);
            assert(desk.fences@ =~= was.update(i as int, want));
        }
    }
}

/// A fence with icons of another size.
pub open spec fn with_icon_size<S>(f: Fence<S>, icon_size: S) -> Fence<S> {
    Fence { appearance: FenceAppearance { icon_size, ..f.appearance }, ..f }
}

pub fn set_icon_size<S: Scalar>(desk: &mut Desk<S>, i: usize, size: S)
    ensures
        final(desk).same_but_fences(*old(desk)),
        final(desk).fences@ == replaced(
            old(desk).fences@,
            i as int,
            with_icon_size(old(desk).fences[i as int], size),
        ),
{
    if i < desk.fences.len() {
        desk.fences[i].appearance.icon_size = size;
        proof {
            assert(desk.fences@ =~= replaced(
                old(desk).fences@,
                i as int,
                with_icon_size(old(desk).fences[i as int], size),
            ));
        }
    }
}

/// A fence in another style.
pub open spec fn with_style<S>(f: Fence<S>, bg_style: FenceStyle) -> Fence<S> {
    Fence { appearance: FenceAppearance { bg_style, ..f.appearance }, ..f }
}

pub fn set_style<S: Scalar>(desk: &mut Desk<S>, i: usize, style: FenceStyle)
    ensures
        final(desk).same_but_fences(*old(desk)),
        final(desk).fences@ == replaced(old(desk).fences@, i as int, with_style(old(desk).fences[i as int], style)),
{
    if i < desk.fences.len() {
        desk.fences[i].appearance.bg_style = style;
        proof {
            assert(desk.fences@ =~= replaced(
                old(desk).fences@,
                i as int,
                with_style(old(desk).fences[i as int], style),
            ));
        }
    }
}

/// A fence in another tint.
pub open spec fn with_tint<S>(f: Fence<S>, tint: Option<[S; 3]>) -> Fence<S> {
    Fence { appearance: FenceAppearance { tint, ..f.appearance }, ..f }
}

pub fn set_tint<S: Scalar>(desk: &mut Desk<S>, i: usize, tint: Option<[S; 3]>)
    ensures
        final(desk).same_but_fences(*old(desk)),
        final(desk).fences@ == replaced(old(desk).fences@, i as int, with_tint(old(desk).fences[i as int], tint)),
{
    if i < desk.fences.len() {
        desk.fences[i].appearance.tint = tint;
        proof {
            assert(desk.fences@ =~= replaced(
                old(desk).fences@,
                i as int,
                with_tint(old(desk).fences[i as int], tint),
            ));
        }
    }
}

/// A fence with its sidebar at another edge; a sidebar goes there.
pub open spec fn at_edge<S: Scalar>(f: Fence<S>, scale: S, pos: SidebarPosition, wa: Rect<S>) -> Fence<S> {
    let g = Fence { appearance: FenceAppearance { sidebar_pos: pos, ..f.appearance }, ..f };
    if f.appearance.layout == FenceLayout::Sidebar {
        Fence { bounds: placement::docked(scale, g, wa), ..g }
    } else {
        g
    }
}

pub fn set_sidebar_pos<S: Scalar>(desk: &mut Desk<S>, scale: S, i: usize, pos: SidebarPosition, wa: Rect<S>)
    requires
        placement::countable(old(desk).fences@),
    ensures
        final(desk).same_but_fences(*old(desk)),
        final(desk).fences@ == replaced(
            old(desk).fences@,
            i as int,
            at_edge(old(desk).fences[i as int], scale, pos, wa),
        ),
{
    if i < desk.fences.len() {
        let ghost was = desk.fences@;
        desk.fences[i].appearance.sidebar_pos = pos;
        if desk.fences[i].appearance.layout == FenceLayout::Sidebar {
            let b = dock_place(scale, &desk.fences[i], &wa);
            desk.fences[i].bounds = b;
        }
        proof {
            assert(desk.fences@[i as int] == at_edge(was[i as int], scale, pos, wa));
            assert(desk.fences@ =~= replaced(was, i as int, at_edge(was[i as int], scale, pos, wa)));
        }
    }
}

/// Where a new fence is put: near the upper left corner, clear of the others.
pub open spec fn new_place<S: Scalar>(fences: Seq<Fence<S>>, heights: Seq<S>, s: S, vw: S, vh: S) -> Rect<S> {
    let w = scalar::num::<S>(360).mul(s);
    let h = scalar::num::<S>(220).mul(s);
    let out = magnet::settled_move(
        Rect { x: scalar::num::<S>(80).mul(s), y: scalar::num::<S>(120).mul(s), w, h },
        placement::taken_by_others(fences, heights, fences.len() as int, fences.len() as int),
        placement::screen(vw, vh),
        scalar::num(FENCE_GAP as int),
    );
    Rect { x: out.x.rounded(), y: out.y.rounded(), w: w.rounded(), h: h.rounded() }
}

/// `f` is a new fence that mirrors the folder `dir`, named after it.
pub open spec fn is_new_fence<S: Scalar>(f: Fence<S>, fences: Seq<Fence<S>>, dir: Seq<char>, place: Rect<S>) -> bool {
    &&& forall|i: int| 0 <= i < fences.len() ==> (#[trigger] fences[i]).id < f.id
    &&& fences.len() == 0 ==> f.id == 1
    &&& fences.len() > 0 ==> exists|i: int| 0 <= i < fences.len() && (#[trigger] fences[i]).id + 1 == f.id
    &&& f.title matches Some(t) && t@ == match paths::file_name(dir) {
        Some(n) => n,
        None => "栅栏 "@ + numbers::decimal(f.id as nat),
    }
    &&& f.monitor_id == 0
    &&& f.bounds == place
    &&& f.state == FenceState::Expanded
    &&& f.icon_ids.len() == 0
    &&& f.appearance.usual()
    &&& f.scroll == scalar::num::<S>(0)
    &&& f.storage_path matches Some(p) && p@ == dir
    &&& !f.sidebar_collapsed
}

/// Identifiers of fences can be counted on.
pub open spec fn has_room<S>(fences: Seq<Fence<S>>) -> bool {
    forall|i: int| 0 <= i < fences.len() ==> (#[trigger] fences[i]).id < u64::MAX
}

/// Makes a fence that mirrors the folder `dir`.
pub fn add_fence<S: Scalar>(desk: &mut Desk<S>, heights: &Vec<S>, s: S, vw: S, vh: S, dir: String)
    requires
        has_room(old(desk).fences@),
    ensures
        final(desk).same_but_fences(*old(desk)),
        final(desk).fences.len() == old(desk).fences.len() + 1,
        final(desk).fences@.drop_last() == old(desk).fences@,
        is_new_fence(
            final(desk).fences@.last(),
            old(desk).fences@,
            dir@,
            new_place(old(desk).fences@, heights@, s, vw, vh),
        ),
{
    let ghost was = desk.fences@;
    let id = desk.next_fence_id();
    let title = match file_name_of(dir.as_str()) {
        Some(n) => n,
        None => {
            let mut t = "栅栏 ".to_owned();
            push_decimal(&mut t, id);
            t
        },
    };
    let w = whole_number::<S>(360).times(s);
    let h = whole_number::<S>(220).times(s);
    let start = Rect { x: whole_number::<S>(80).times(s), y: whole_number::<S>(120).times(s), w, h };
    let others = other_bounds(&desk.fences, heights, desk.fences.len());
    let out = settle_move(&start, &others, &screen_rect(vw, vh), whole_number(FENCE_GAP));
    let bounds = Rect { x: out.x.nearest(), y: out.y.nearest(), w: w.nearest(), h: h.nearest() };
    let f = Fence {
        id,
        title: Some(title),
        monitor_id: 0,
        bounds,
        state: FenceState::Expanded,
        icon_ids: Vec::new(),
        appearance: FenceAppearance::default(),
        scroll: whole_number(0),
        storage_path: Some(dir),
        sidebar_collapsed: false,
    };
    desk.fences.push(f);
    proof {
        assert(desk.fences@.drop_last() =~= was);
        if was.len() > 0 {
            let i = choose|i: int| 0 <= i < was.len() && was[i].id + 1 == id;
            assert(was[i].id + 1 == f.id);
        }
    }
}

/// The places after the first `n` of the icons have left their fences.
pub open spec fn freed_all(p: stock::Places, ids: Seq<Seq<char>>, n: int) -> stock::Places
    decreases n,
{
    if n <= 0 {
        p
    } else {
        stock::freed(freed_all(p, ids, n - 1), ids[n - 1])
    }
}

/// The places without the `i`-th fence, whose members have left it.
pub open spec fn without_fence(p: stock::Places, i: int) -> stock::Places {
    let q = freed_all(p, p.members[i], p.members[i].len() as int);
    stock::Places { ids: q.ids.remove(i), members: q.members.remove(i), free: q.free }
}

/// Takes a fence away; its members go to those in no fence, and the folder it mirrors stays.
pub fn remove_fence<S>(desk: &mut Desk<S>, i: usize)
    ensures
        i >= old(desk).fences.len() ==> *final(desk) == *old(desk),
        i < old(desk).fences.len() ==> {
            &&& final(desk).same_but_icons(*old(desk))
            &&& final(desk).fences.len() == old(desk).fences.len() - 1
            &&& forall|j: int|
                0 <= j < final(desk).fences.len() ==> (#[trigger] final(desk).fences[j]).same_but_members(
                    old(desk).fences[if j < i {
                        j
                    } else {
                        j + 1
                    }],
                )
            &&& stock::places(*final(desk)) == without_fence(stock::places(*old(desk)), i as int)
        },
{
    if i >= desk.fences.len() {
        return;
    }
    let ghost a = *desk;
    let ids = copy_texts(&desk.fences[i].icon_ids);
    let ghost t = chars::texts(ids@);
    let ghost p = stock::places(a);
    let mut k: usize = 0;
    while k < ids.len()
        invariant
            k <= ids.len(),
            t == chars::texts(ids@),
            p == stock::places(a),
            i < a.fences.len(),
            stock::kept(a, *desk),
            desk.icons == a.icons,
            stock::places(*desk) == freed_all(p, t, k as int),
        decreases ids.len() - k,
    {
        let ghost b = *desk;
        proof {
            assert(t[k as int] == ids@[k as int]@);
        }
        free_icon(desk, ids[k].as_str());
        proof {
            intake::lemma_kept_twice(a, b, *desk);
        }
        k += 1;
    }
    let ghost m = *desk;
    proof {
        assert(p.members[i as int] == t);
    }
    let _ = desk.fences.remove(i);
    proof {
        let q = stock::places(m);
        let got = stock::places(*desk);
        assert(got.ids =~= q.ids.remove(i as int));
        assert(got.members =~= q.members.remove(i as int));
        assert forall|j: int| 0 <= j < desk.fences.len() implies (#[trigger] desk.fences[j]).same_but_members(
            a.fences[if j < i {
                j
            } else {
                j + 1
            }],
        ) by {
            let o = if j < i {
                j
            } else {
                j + 1
            };
            assert(desk.fences[j] == m.fences[o]);
            assert(m.fences[o].same_but_members(a.fences[o]));
        }
    }
}

proof fn lemma_freed(p: stock::Places, icon: Seq<char>, x: Seq<char>)
    requires
        p.ids.len() == p.members.len(),
    ensures
        stock::freed(p, icon).ids == p.ids,
        stock::freed(p, icon).members.len() == p.members.len(),
        p.free.contains(x) ==> stock::freed(p, icon).free.contains(x),
        (exists|i: int| 0 <= i < p.members.len() && (#[trigger] p.members[i]).contains(icon))
            ==> stock::freed(p, icon).free.contains(icon),
{
    let q = stock::freed(p, icon);
    lemma_leaves_from(p, icon);
    if p.free.contains(x) {
        let j = choose|j: int| 0 <= j < p.free.len() && p.free[j] == x;
        assert(q.free[j] == x);
    }
    if exists|i: int| 0 <= i < p.members.len() && (#[trigger] p.members[i]).contains(icon) {
        let i = choose|i: int| 0 <= i < p.members.len() && (#[trigger] p.members[i]).contains(icon);
        lemma_holder(p.members, icon, 0, i);
        if !p.free.contains(icon) {
            assert(q.free[q.free.len() - 1] == icon);
        }
    }
}

proof fn lemma_holder_low(members: Seq<Seq<Seq<char>>>, icon: Seq<char>, from: int)
    requires
        0 <= from <= members.len(),
    ensures
        from <= stock::holder(members, icon, from) <= members.len(),
    decreases members.len() - from,
{
    if from < members.len() && !members[from].contains(icon) {
        lemma_holder_low(members, icon, from + 1);
    }
}

proof fn lemma_first_id(ids: Seq<u64>, id: u64, from: int, h: int)
    requires
        0 <= from <= h < ids.len(),
        ids[h] == id,
    ensures
        from <= stock::first_id(ids, id, from) <= h,
    decreases h - from,
{
    if ids[from] != id {
        lemma_first_id(ids, id, from + 1, h);
    }
}

proof fn lemma_leaves_from(p: stock::Places, icon: Seq<char>)
    requires
        p.ids.len() == p.members.len(),
    ensures
        ({
            let h = stock::holder(p.members, icon, 0);
            &&& 0 <= h
            &&& h < p.members.len() ==> 0 <= stock::first_id(p.ids, p.ids[h], 0) < p.members.len()
        }),
{
    lemma_holder_low(p.members, icon, 0);
    let h = stock::holder(p.members, icon, 0);
    if h < p.members.len() {
        lemma_first_id(p.ids, p.ids[h], 0, h);
    }
}

proof fn lemma_holder(members: Seq<Seq<Seq<char>>>, icon: Seq<char>, from: int, i: int)
    requires
        0 <= from <= i < members.len(),
        members[i].contains(icon),
    ensures
        from <= stock::holder(members, icon, from) <= i,
    decreases i - from,
{
    if !members[from].contains(icon) {
        lemma_holder(members, icon, from + 1, i);
    }
}

proof fn lemma_freed_all(p: stock::Places, ids: Seq<Seq<char>>, n: int, f: int, k: int)
    requires
        p.ids.len() == p.members.len(),
        0 <= n <= ids.len(),
        0 <= f < p.members.len(),
        0 <= k < ids.len(),
        p.members[f].contains(ids[k]),
    ensures
        freed_all(p, ids, n).ids == p.ids,
        freed_all(p, ids, n).members.len() == p.members.len(),
        k < n ==> freed_all(p, ids, n).free.contains(ids[k]),
        freed_all(p, ids, n).free.contains(ids[k]) || freed_all(p, ids, n).members[f].contains(ids[k]),
    decreases n,
{
    if n > 0 {
        let q = freed_all(p, ids, n - 1);
        let icon = ids[n - 1];
        lemma_freed_all(p, ids, n - 1, f, k);
        lemma_freed(q, icon, ids[k]);
        lemma_leaves_from(q, icon);
        if k == n - 1 {
            if !q.free.contains(icon) {
                assert(q.members[f].contains(icon));
            }
        } else if !q.free.contains(ids[k]) {
            assert(q.members[f].contains(ids[k]));
            let r = stock::freed(q, icon);
            let h = stock::holder(q.members, icon, 0);
            if !(q.free.contains(icon) || h >= q.members.len()) {
                let z = stock::first_id(q.ids, q.ids[h], 0);
                if z == f && icon != ids[k] {
                    lists::lemma_without(q.members[f], icon);
                }
                if icon == ids[k] {
                    assert(r.free[r.free.len() - 1] == icon);
                }
            }
        }
    }
}

/// No icon is lost when its fence is taken away: it is among those in no fence.
pub proof fn law_removed_fence_keeps_icons(p: stock::Places, i: int, icon: Seq<char>)
    requires
        p.ids.len() == p.members.len(),
        0 <= i < p.members.len(),
        p.members[i].contains(icon),
    ensures
        without_fence(p, i).free.contains(icon),
{
    let ids = p.members[i];
    let k = choose|k: int| 0 <= k < ids.len() && ids[k] == icon;
    lemma_freed_all(p, ids, ids.len() as int, i, k);
}

/// The list with the member at `from` put before the one at `to`.
pub open spec fn reordered(v: Seq<Seq<char>>, from: int, to: int) -> Seq<Seq<char>> {
    if 0 <= from < v.len() && 0 <= to <= v.len() && from != to {
        v.remove(from).insert(
            if to > from {
                to - 1
            } else {
                to
            },
            v[from],
        )
    } else {
        v
    }
}

/// Puts the member at `from` of a fence before the one at `to`; gives whether there is
/// anything to put.
pub fn reorder_members<S>(desk: &mut Desk<S>, fence: usize, from: usize, to: usize) -> (moved: bool)
    ensures
        final(desk).same_but_fences(*old(desk)),
        moved == (fence < old(desk).fences.len() && from < old(desk).fences[fence as int].icon_ids.len() && to
            <= old(desk).fences[fence as int].icon_ids.len() && from != to),
        !moved ==> *final(desk) == *old(desk),
        moved ==> {
            &&& final(desk).fences@ == old(desk).fences@.update(fence as int, final(desk).fences[fence as int])
            &&& final(desk).fences[fence as int].same_but_members(old(desk).fences[fence as int])
            &&& final(desk).fences[fence as int].members() == reordered(
                old(desk).fences[fence as int].members(),
                from as int,
                to as int,
            )
        },
{
    if fence >= desk.fences.len() {
        return false;
    }
    let n = desk.fences[fence].icon_ids.len();
    if from >= n || to > n || from == to {
        return false;
    }
    let ghost a = *desk;
    let id = desk.fences[fence].icon_ids.remove(from);
    let at: usize = if to > from {
        to - 1
    } else {
        to
    };
    desk.fences[fence].icon_ids.insert(at, id);
    proof {
        let m = a.fences[fence as int].members();
        assert(desk.fences[fence as int].members() =~= reordered(m, from as int, to as int));
        assert(desk.fences@ =~= a.fences@.update(fence as int, desk.fences[fence as int]));
    }
    true
}

/// Putting a member elsewhere loses none and adds none.
pub proof fn law_reorder_keeps_members(v: Seq<Seq<char>>, from: int, to: int)
    ensures
        reordered(v, from, to).to_multiset() == v.to_multiset(),
{
    broadcast use vstd::seq_lib::group_to_multiset_ensures;

    if 0 <= from < v.len() && 0 <= to <= v.len() && from != to {
        let w = v.remove(from);
        let at = if to > from {
            to - 1
        } else {
            to
        };
        assert(w.insert(at, v[from]).to_multiset() =~= w.to_multiset().insert(v[from]));
        assert(w.to_multiset() =~= v.to_multiset().remove(v[from]));
        assert(v.to_multiset().contains(v[from])) by {
            assert(v.contains(v[from]));
        }
        assert(w.to_multiset().insert(v[from]) =~= v.to_multiset());
    }
}

/// A fence may be called something by that name: it is not empty, and not its name already.
pub open spec fn new_title<S>(fences: Seq<Fence<S>>, fence: int, name: Seq<char>) -> bool {
    name.len() > 0 && 0 <= fence < fences.len() && console::fence_name(fences[fence], fence) != name
}

/// Calls a fence `name`, without white space at its ends; gives whether that is new.
pub fn retitle_fence<S>(desk: &mut Desk<S>, fence: usize, name: &str) -> (changed: bool)
    requires
        old(desk).fences.len() <= i64::MAX,
    ensures
        changed == new_title(old(desk).fences@, fence as int, chars::trimmed(name@)),
        !changed ==> *final(desk) == *old(desk),
        changed ==> {
            &&& final(desk).same_but_fences(*old(desk))
            &&& final(desk).fences@ == old(desk).fences@.update(fence as int, final(desk).fences[fence as int])
            &&& final(desk).fences[fence as int] == (Fence {
                title: final(desk).fences[fence as int].title,
                ..old(desk).fences[fence as int]
            })
            &&& final(desk).fences[fence as int].title matches Some(t) && t@ == chars::trimmed(name@)
        },
{
    let new = trim(name);
    if chars::chars_of(new.as_str()).len() == 0 || fence >= desk.fences.len() {
        return false;
    }
    if same(name_of(&desk.fences[fence], fence).as_str(), new.as_str()) {
        return false;
    }
    let ghost was = desk.fences@;
    desk.fences[fence].title = Some(new);
    proof {
        assert(desk.fences@ =~= was.update(fence as int, desk.fences@[fence as int]));
    }
    true
}

/// A member that is put before another one stands before it, or last if it is put at the end;
/// the others follow each other as before.
pub proof fn law_reordered_stands_before(v: Seq<Seq<char>>, from: int, to: int)
    requires
        0 <= from < v.len(),
        0 <= to <= v.len(),
    ensures
        ({
            let r = reordered(v, from, to);
            let k = if to > from {
                to - 1
            } else {
                to
            };
            &&& r.len() == v.len()
            &&& from != to ==> r[k] == v[from]
            &&& to < v.len() && from != to ==> k + 1 < r.len() && r[k + 1] == v[to]
            &&& to == v.len() && from != to ==> r.last() == v[from]
            &&& r.remove(if from == to {
                from
            } else {
                k
            }) =~= v.remove(from)
        }),
{
}

/// A new fence comes to lie on no other and on the screen, at the size of new fences, if there
/// is any place `p` on the screen for it.
pub proof fn law_new_fence_lies_on_none(
    fences: Seq<Fence<i64>>,
    heights: Seq<i64>,
    s: i64,
    vw: i64,
    vh: i64,
    p: Rect<i64>,
    j: int,
)
    requires
        placement::moderate_fences(fences, heights),
        1 <= s <= 16,
        0 <= vw <= 0x100_0000_0000,
        0 <= vh <= 0x100_0000_0000,
        0 <= j < fences.len(),
        p.w == 360 * s,
        p.h == 220 * s,
        magnet::inside(p, Rect { x: 0, y: 0, w: vw, h: vh }),
        placement::keeps_away(fences, heights, fences.len() as int, p, 12),
    ensures
        ({
            let b = new_place(fences, heights, s, vw, vh);
            let t = placement::taken(fences, heights, j);
            &&& b.w == 360 * s && b.h == 220 * s
            &&& magnet::inside(b, Rect { x: 0, y: 0, w: vw, h: vh })
            &&& magnet::shared_x(b, t) == 0 || magnet::shared_y(b, t) == 0
        }),
{
    assert(Scalar::mul(scalar::num::<i64>(360), s) == 360 * s);
    assert(Scalar::mul(scalar::num::<i64>(220), s) == 220 * s);
    assert(Scalar::mul(scalar::num::<i64>(80), s) == 80 * s);
    assert(Scalar::mul(scalar::num::<i64>(120), s) == 120 * s);
    assert(scalar::num::<i64>(0) == 0 && scalar::num::<i64>(FENCE_GAP as int) == 12);
    let r = Rect { x: (80 * s) as i64, y: (120 * s) as i64, w: (360 * s) as i64, h: (220 * s) as i64 };
    placement::lemma_place(fences, heights, fences.len() as int, r, placement::screen(vw, vh), p, j);
}

/// A fence that gets another layout keeps what it holds and how it is called and painted; a
/// sidebar is unfolded and put at its edge, a list is made as wide as its names need, and a
/// grid stays where it is.
pub proof fn law_layout_keeps_fence<S: Scalar>(
    f: Fence<S>,
    icons: Map<Seq<char>, Icon>,
    t: Theme<S>,
    layout: FenceLayout,
    wa: Rect<S>,
)
    ensures
        ({
            let g = laid(f, icons, t, layout, wa);
            &&& g.appearance.layout == layout
            &&& g.appearance == (FenceAppearance { layout, ..f.appearance })
            &&& g.id == f.id && g.title == f.title && g.icon_ids == f.icon_ids && g.storage_path == f.storage_path
            &&& layout is Grid ==> g.bounds == f.bounds
            &&& layout is List ==> g.bounds.x == f.bounds.x && g.bounds.y == f.bounds.y && g.bounds.h == f.bounds.h
            &&& layout is Sidebar ==> !g.sidebar_collapsed && g.bounds == placement::docked(t.scale, g, wa)
        }),
{
}

} // verus!
