//! What of a picture reacts to the pointer, made from the same places that are drawn.

use vstd::prelude::*;

use crate::console;
use crate::console::{tint_color, TINT_COUNT};
use crate::model::{FenceLayout, FenceStyle, SidebarPosition};
use crate::overlay::{ConsoleHit, ConsoleZone, FenceHit, HitModel, IconHit, RectF, GRIP_SIZE};
use crate::scalar;
use crate::scalar::{whole_number, Scalar};
use crate::scene::{Scene, SceneConsole, SceneFence, SceneFenceDetail, SceneFenceRow, SceneIcon};
use crate::theme::Theme;

verus! {

/// The fence is seen at all.
pub open spec fn seen<S: Scalar>(f: SceneFence<S>) -> bool {
    !f.alpha.le(S::lit(1, 100))
}

/// The areas of the fence with the index `i`.
pub open spec fn fence_hit<S: Scalar>(t: Theme<S>, f: SceneFence<S>, i: int) -> FenceHit<S> {
    let title_h = t.title.size.mul(S::lit(16, 10)).add(t.title_padding_bottom).add(
        scalar::num::<S>(2).mul(t.fence_padding),
    ).min(f.height);
    let grip = scalar::num::<S>(26);
    FenceHit {
        body: f.area(),
        title: RectF { x: f.x, y: f.y, w: f.width, h: title_h },
        grip: RectF { x: f.x.add(f.width).sub(grip), y: f.y.add(f.height).sub(grip), w: grip, h: grip },
        tooltip: f.tooltip_rect,
        is_sidebar: f.layout is Sidebar,
        id: i as usize,
    }
}

/// Top and bottom of the part of the fence in which icons are seen.
pub open spec fn view_range<S: Scalar>(f: SceneFence<S>) -> (S, S) {
    let top = f.content_top.add(
        match f.list_cols {
            Some(c) => c.header_h,
            None => scalar::num(0),
        },
    );
    (top, top.add(f.scroll_view))
}

/// The icon is scrolled out of sight.
pub open spec fn out_of_view<S: Scalar>(f: SceneFence<S>, ic: SceneIcon<S>) -> bool {
    let (top, bottom) = view_range(f);
    ic.y.add(ic.size).lt(top) || bottom.lt(ic.y)
}

/// The area of an icon: in a list, its whole row.
pub open spec fn icon_area<S: Scalar>(t: Theme<S>, f: SceneFence<S>, ic: SceneIcon<S>) -> RectF<S> {
    if f.layout is List {
        let pad = f.content_left.sub(f.x);
        RectF {
            x: f.content_left,
            y: ic.y,
            w: f.width.sub(scalar::num::<S>(2).mul(pad)).max(scalar::num(1)),
            h: ic.size.max(t.label.size.mul(S::lit(16, 10))).add(t.list_row_gap),
        }
    } else {
        RectF { x: ic.x, y: ic.y, w: ic.size, h: ic.size }
    }
}

/// The areas of the first `n` icons of the fence with the index `i`.
pub open spec fn icon_hits<S: Scalar>(t: Theme<S>, f: SceneFence<S>, i: int, n: int) -> Seq<IconHit<S>>
    decreases n,
{
    if n <= 0 {
        Seq::empty()
    } else {
        let ic = f.icons[n - 1];
        let upto = icon_hits(t, f, i, n - 1);
        if out_of_view(f, ic) {
            upto
        } else {
            upto.push(IconHit { rect: icon_area(t, f, ic), fence: i as usize, icon: (n - 1) as usize })
        }
    }
}

/// The areas of the first `n` fences; a fence that is not seen has none.
pub open spec fn fence_hits<S: Scalar>(t: Theme<S>, fences: Seq<SceneFence<S>>, n: int) -> Seq<FenceHit<S>>
    decreases n,
{
    if n <= 0 {
        Seq::empty()
    } else {
        let upto = fence_hits(t, fences, n - 1);
        if seen(fences[n - 1]) {
            upto.push(fence_hit(t, fences[n - 1], n - 1))
        } else {
            upto
        }
    }
}

/// The areas of the icons of the first `n` fences.
pub open spec fn all_icon_hits<S: Scalar>(t: Theme<S>, fences: Seq<SceneFence<S>>, n: int) -> Seq<IconHit<S>>
    decreases n,
{
    if n <= 0 {
        Seq::empty()
    } else {
        let f = fences[n - 1];
        let upto = all_icon_hits(t, fences, n - 1);
        if seen(f) {
            upto + icon_hits(t, f, n - 1, f.icons.len() as int)
        } else {
            upto
        }
    }
}

/// The row is scrolled out of the list's sight.
pub open spec fn row_hidden<S: Scalar>(r: RectF<S>, view: RectF<S>) -> bool {
    r.y.add(r.h).lt(view.y) || view.y.add(view.h).lt(r.y)
}

/// The controls that choose one of the first `n` fences.
pub open spec fn row_zones<S: Scalar>(rows: Seq<SceneFenceRow<S>>, view: RectF<S>, n: int) -> Seq<(
    ConsoleZone<S>,
    RectF<S>,
)>
    decreases n,
{
    if n <= 0 {
        Seq::empty()
    } else {
        let upto = row_zones(rows, view, n - 1);
        if row_hidden(rows[n - 1].rect, view) {
            upto
        } else {
            upto.push((ConsoleZone::FenceSelect((n - 1) as usize), rows[n - 1].rect))
        }
    }
}

/// The controls of the chosen fence, but for the tints.
pub open spec fn detail_zones<S: Scalar>(d: SceneFenceDetail<S>) -> Seq<(ConsoleZone<S>, RectF<S>)> {
    seq![
        (ConsoleZone::ChangeStoragePath, d.storage_btn),
        (ConsoleZone::FenceLayout(FenceLayout::Grid), d.layout_grid),
        (ConsoleZone::FenceLayout(FenceLayout::List), d.layout_list),
        (ConsoleZone::FenceLayout(FenceLayout::Sidebar), d.layout_sidebar),
        (ConsoleZone::FenceSidebarPos(SidebarPosition::Left), d.sidebar_left),
        (ConsoleZone::FenceSidebarPos(SidebarPosition::Top), d.sidebar_top),
        (ConsoleZone::FenceSidebarPos(SidebarPosition::Right), d.sidebar_right),
        (ConsoleZone::FenceIconSize(scalar::num(32)), d.size_s),
        (ConsoleZone::FenceIconSize(scalar::num(48)), d.size_m),
        (ConsoleZone::FenceIconSize(scalar::num(64)), d.size_l),
        (ConsoleZone::FenceStyle(FenceStyle::Glass), d.style_glass),
        (ConsoleZone::FenceStyle(FenceStyle::Outline), d.style_outline),
        (ConsoleZone::FenceStyle(FenceStyle::Filled), d.style_filled),
        (ConsoleZone::FenceStyle(FenceStyle::Blur), d.style_blur),
        (ConsoleZone::FenceTint(None), d.tint_default),
    ]
}

/// `v` chooses the `i`-th tint at `r`.
pub open spec fn tint_zone<S: Scalar>(v: (ConsoleZone<S>, RectF<S>), i: int, r: RectF<S>) -> bool {
    v.1 == r && (v.0 matches ConsoleZone::FenceTint(Some(c)) && console::is_tint(c, i))
}

pub open spec fn tints_shown(n: int) -> int {
    if n < 9 {
        n
    } else {
        9
    }
}

/// `z` are the controls of the console: none while it is less than half unfolded.
pub open spec fn console_zones<S: Scalar>(z: Seq<(ConsoleZone<S>, RectF<S>)>, c: SceneConsole<S>) -> bool {
    if !S::lit(5, 10).le(c.panel) {
        z.len() == 0
    } else {
        let head = seq![
            (ConsoleZone::Close, c.close),
            (ConsoleZone::AddFence, c.add_fence),
            (ConsoleZone::RemoveFence, c.remove_btn),
            (ConsoleZone::DesktopToggle, c.desktop_toggle),
        ] + row_zones(c.fence_rows@, c.fence_list_view, c.fence_rows.len() as int);
        match c.fence_detail {
            None => z == head,
            Some(d) => {
                let fixed = head + detail_zones(d);
                let m = tints_shown(d.tints.len() as int);
                &&& z.len() == fixed.len() + m
                &&& z.take(fixed.len() as int) == fixed
                &&& forall|k: int| 0 <= k < m ==> tint_zone(#[trigger] z[fixed.len() + k], k, d.tints[k])
            },
        }
    }
}

/// `m` is what of the picture reacts to the pointer.
pub open spec fn reacts<S: Scalar>(m: HitModel<S>, t: Theme<S>, s: Scene<S>) -> bool {
    let n = s.fences.len() as int;
    &&& m.fences@ == fence_hits(t, s.fences@, n)
    &&& m.icons@ == all_icon_hits(t, s.fences@, n)
    &&& match s.console {
        None => m.console is None,
        Some(c) => m.console matches Some(h) && h.rect == c.area() && h.title == (RectF {
            x: c.x,
            y: c.y,
            w: c.width,
            h: c.title_h,
        }) && console_zones(h.zones@, c),
    }
    &&& m.edit_rect == (match s.edit {
        Some(e) => Some(e.rect),
        None => None,
    })
}

fn hit_of<S: Scalar>(t: &Theme<S>, f: &SceneFence<S>, i: usize) -> (h: FenceHit<S>)
    ensures
        h == fence_hit(*t, *f, i as int),
{
    let title_h = t.title.size.times(S::ratio(16, 10)).plus(t.title_padding_bottom).plus(
        whole_number::<S>(2).times(t.fence_padding),
    ).least(f.height);
    let grip = whole_number::<S>(GRIP_SIZE);
    FenceHit {
        body: RectF { x: f.x, y: f.y, w: f.width, h: f.height },
        title: RectF { x: f.x, y: f.y, w: f.width, h: title_h },
        grip: RectF { x: f.x.plus(f.width).minus(grip), y: f.y.plus(f.height).minus(grip), w: grip, h: grip },
        tooltip: f.tooltip_rect,
        is_sidebar: f.layout == FenceLayout::Sidebar,
        id: i,
    }
}

fn area_of<S: Scalar>(t: &Theme<S>, f: &SceneFence<S>, ic: &SceneIcon<S>) -> (r: RectF<S>)
    ensures
        r == icon_area(*t, *f, *ic),
{
    if f.layout == FenceLayout::List {
        let pad = f.content_left.minus(f.x);
        RectF {
            x: f.content_left,
            y: ic.y,
            w: f.width.minus(whole_number::<S>(2).times(pad)).greatest(whole_number(1)),
            h: ic.size.greatest(t.label.size.times(S::ratio(16, 10))).plus(t.list_row_gap),
        }
    } else {
        RectF { x: ic.x, y: ic.y, w: ic.size, h: ic.size }
    }
}

fn push_icons<S: Scalar>(out: &mut Vec<IconHit<S>>, t: &Theme<S>, f: &SceneFence<S>, i: usize)
    ensures
        final(out)@ == old(out)@ + icon_hits(*t, *f, i as int, f.icons.len() as int),
{
    let header = match f.list_cols {
        Some(c) => c.header_h,
        None => whole_number(0),
    };
    let top = f.content_top.plus(header);
    let bottom = top.plus(f.scroll_view);
    let mut k: usize = 0;
    proof {
        assert(out@ =~= old(out)@ + icon_hits(*t, *f, i as int, 0));
    }
    while k < f.icons.len()
        invariant
            k <= f.icons.len(),
            (top, bottom) == view_range(*f),
            out@ == old(out)@ + icon_hits(*t, *f, i as int, k as int),
        decreases f.icons.len() - k,
    {
        let ic = &f.icons[k];
        if !(ic.y.plus(ic.size).below(top) || bottom.below(ic.y)) {
            out.push(IconHit { rect: area_of(t, f, ic), fence: i, icon: k });
        }
        proof {
            assert(out@ =~= old(out)@ + icon_hits(*t, *f, i as int, k + 1));
        }
        k += 1;
    }
}

fn zones_of<S: Scalar>(c: &SceneConsole<S>) -> (z: Vec<(ConsoleZone<S>, RectF<S>)>)
    ensures
        console_zones(z@, *c),
{
    let mut z: Vec<(ConsoleZone<S>, RectF<S>)> = Vec::new();
    if !S::ratio(5, 10).at_most(c.panel) {
        return z;
    }
    z.push((ConsoleZone::Close, c.close));
    z.push((ConsoleZone::AddFence, c.add_fence));
    z.push((ConsoleZone::RemoveFence, c.remove_btn));
    z.push((ConsoleZone::DesktopToggle, c.desktop_toggle));
    let ghost top: Seq<(ConsoleZone<S>, RectF<S>)> = seq![
        (ConsoleZone::Close, c.close),
        (ConsoleZone::AddFence, c.add_fence),
        (ConsoleZone::RemoveFence, c.remove_btn),
        (ConsoleZone::DesktopToggle, c.desktop_toggle),
    ];
    let view = c.fence_list_view;
    let mut i: usize = 0;
    proof {
        assert(z@ =~= top + row_zones(c.fence_rows@, view, 0));
    }
    while i < c.fence_rows.len()
        invariant
            i <= c.fence_rows.len(),
            view == c.fence_list_view,
            z@ == top + row_zones(c.fence_rows@, view, i as int),
        decreases c.fence_rows.len() - i,
    {
        let r = c.fence_rows[i].rect;
        if !(r.y.plus(r.h).below(view.y) || view.y.plus(view.h).below(r.y)) {
            z.push((ConsoleZone::FenceSelect(i), r));
        }
        proof {
            assert(z@ =~= top + row_zones(c.fence_rows@, view, i + 1));
        }
        i += 1;
    }
    let ghost head = z@;
    match &c.fence_detail {
        None => {},
        Some(d) => {
            push_detail(&mut z, d);
            let ghost fixed = head + detail_zones(*d);
            let mut k: usize = 0;
            proof {
                assert(z@.take(fixed.len() as int) =~= fixed);
            }
            while k < d.tints.len() && k < TINT_COUNT
                invariant
                    k <= d.tints.len(),
                    k <= TINT_COUNT,
                    z.len() == fixed.len() + k,
                    z@.take(fixed.len() as int) == fixed,
                    forall|j: int| 0 <= j < k ==> tint_zone(#[trigger] z[fixed.len() + j], j, d.tints[j]),
                decreases d.tints.len() - k,
            {
                let ghost before = z@;
                z.push((ConsoleZone::FenceTint(Some(tint_color(k))), d.tints[k]));
                proof {
                    assert(z@.take(fixed.len() as int) =~= before.take(fixed.len() as int));
                    assert forall|j: int| 0 <= j < k + 1 implies tint_zone(
                        #[trigger] z[fixed.len() + j],
                        j,
                        d.tints[j],
                    ) by {
                        if j < k {
                            assert(z[fixed.len() + j] == before[fixed.len() + j]);
                        }
                    }
                }
                k += 1;
            }
        },
    }
    z
}

fn push_detail<S: Scalar>(z: &mut Vec<(ConsoleZone<S>, RectF<S>)>, d: &SceneFenceDetail<S>)
    ensures
        final(z)@ == old(z)@ + detail_zones(*d),
{
    z.push((ConsoleZone::ChangeStoragePath, d.storage_btn));
    z.push((ConsoleZone::FenceLayout(FenceLayout::Grid), d.layout_grid));
    z.push((ConsoleZone::FenceLayout(FenceLayout::List), d.layout_list));
    z.push((ConsoleZone::FenceLayout(FenceLayout::Sidebar), d.layout_sidebar));
    z.push((ConsoleZone::FenceSidebarPos(SidebarPosition::Left), d.sidebar_left));
    z.push((ConsoleZone::FenceSidebarPos(SidebarPosition::Top), d.sidebar_top));
    z.push((ConsoleZone::FenceSidebarPos(SidebarPosition::Right), d.sidebar_right));
    z.push((ConsoleZone::FenceIconSize(whole_number(32)), d.size_s));
    z.push((ConsoleZone::FenceIconSize(whole_number(48)), d.size_m));
    z.push((ConsoleZone::FenceIconSize(whole_number(64)), d.size_l));
    z.push((ConsoleZone::FenceStyle(FenceStyle::Glass), d.style_glass));
    z.push((ConsoleZone::FenceStyle(FenceStyle::Outline), d.style_outline));
    z.push((ConsoleZone::FenceStyle(FenceStyle::Filled), d.style_filled));
    z.push((ConsoleZone::FenceStyle(FenceStyle::Blur), d.style_blur));
    z.push((ConsoleZone::FenceTint(None), d.tint_default));
    proof {
        assert(z@ =~= old(z)@ + detail_zones(*d));
    }
}

/// What of the picture reacts to the pointer. Fences that have faded away do not, nor do
/// icons that are scrolled out of sight.
pub fn hit_model_from<S: Scalar>(theme: &Theme<S>, scene: &Scene<S>) -> (m: HitModel<S>)
    ensures
        reacts(m, *theme, *scene),
{
    let mut fences: Vec<FenceHit<S>> = Vec::new();
    let mut icons: Vec<IconHit<S>> = Vec::new();
    let mut i: usize = 0;
    while i < scene.fences.len()
        invariant
            i <= scene.fences.len(),
            fences@ == fence_hits(*theme, scene.fences@, i as int),
            icons@ == all_icon_hits(*theme, scene.fences@, i as int),
        decreases scene.fences.len() - i,
    {
        let f = &scene.fences[i];
        if !f.alpha.at_most(S::ratio(1, 100)) {
            fences.push(hit_of(theme, f, i));
            push_icons(&mut icons, theme, f, i);
        }
        i += 1;
    }
    let console = match &scene.console {
        None => None,
        Some(c) => Some(
            ConsoleHit {
                rect: RectF { x: c.x, y: c.y, w: c.width, h: c.height },
                title: RectF { x: c.x, y: c.y, w: c.width, h: c.title_h },
                zones: zones_of(c),
            },
        ),
    };
    let edit_rect = match &scene.edit {
        Some(e) => Some(e.rect),
        None => None,
    };
    HitModel { fences, icons, console, edit_rect }
}

proof fn lemma_icon_hits<S: Scalar>(t: Theme<S>, f: SceneFence<S>, i: int, n: int, h: IconHit<S>)
    requires
        0 <= n <= f.icons.len(),
        0 <= i <= usize::MAX,
        icon_hits(t, f, i, n).contains(h),
    ensures
        h.fence == i,
        h.icon < n,
        !out_of_view(f, f.icons[h.icon as int]),
    decreases n,
{
    if n > 0 {
        let k = choose|k: int| 0 <= k < icon_hits(t, f, i, n).len() && icon_hits(t, f, i, n)[k] == h;
        let upto = icon_hits(t, f, i, n - 1);
        if k < upto.len() {
            assert(upto[k] == h);
            lemma_icon_hits(t, f, i, n - 1, h);
        }
    }
}

/// Every icon that reacts is a member of a fence that is seen, and is not scrolled out of
/// sight.
pub proof fn law_hits_are_seen<S: Scalar>(t: Theme<S>, fences: Seq<SceneFence<S>>, n: int, h: IconHit<S>)
    requires
        0 <= n <= fences.len() <= usize::MAX,
        all_icon_hits(t, fences, n).contains(h),
    ensures
        h.fence < n,
        seen(fences[h.fence as int]),
        h.icon < fences[h.fence as int].icons.len(),
        !out_of_view(fences[h.fence as int], fences[h.fence as int].icons[h.icon as int]),
    decreases n,
{
    if n > 0 {
        let all = all_icon_hits(t, fences, n);
        let upto = all_icon_hits(t, fences, n - 1);
        let k = choose|k: int| 0 <= k < all.len() && all[k] == h;
        if k < upto.len() {
            assert(upto[k] == h);
            law_hits_are_seen(t, fences, n - 1, h);
        } else {
            let f = fences[n - 1];
            let here = icon_hits(t, f, n - 1, f.icons.len() as int);
            assert(here[k - upto.len()] == h);
            lemma_icon_hits(t, f, n - 1, f.icons.len() as int, h);
        }
    }
}

proof fn lemma_icon_reacts<S: Scalar>(t: Theme<S>, f: SceneFence<S>, i: int, n: int, k: int)
    requires
        0 <= k < n <= f.icons.len() <= usize::MAX,
        0 <= i <= usize::MAX,
        !out_of_view(f, f.icons[k]),
    ensures
        icon_hits(t, f, i, n).contains(
            (IconHit { rect: icon_area(t, f, f.icons[k]), fence: i as usize, icon: k as usize }),
        ),
    decreases n,
{
    let h = IconHit { rect: icon_area(t, f, f.icons[k]), fence: i as usize, icon: k as usize };
    let upto = icon_hits(t, f, i, n - 1);
    let all = icon_hits(t, f, i, n);
    if k == n - 1 {
        assert(all[upto.len() as int] == h);
    } else {
        lemma_icon_reacts(t, f, i, n - 1, k);
        let j = choose|j: int| 0 <= j < upto.len() && upto[j] == h;
        assert(all[j] == h);
    }
}

proof fn lemma_fence_icons_react<S: Scalar>(t: Theme<S>, fences: Seq<SceneFence<S>>, n: int, i: int, k: int)
    requires
        0 <= i < n <= fences.len() <= usize::MAX,
        0 <= k < fences[i].icons.len(),
        seen(fences[i]),
        !out_of_view(fences[i], fences[i].icons[k]),
    ensures
        all_icon_hits(t, fences, n).contains(
            (IconHit { rect: icon_area(t, fences[i], fences[i].icons[k]), fence: i as usize, icon: k as usize }),
        ),
    decreases n,
{
    let h = IconHit { rect: icon_area(t, fences[i], fences[i].icons[k]), fence: i as usize, icon: k as usize };
    let upto = all_icon_hits(t, fences, n - 1);
    let all = all_icon_hits(t, fences, n);
    if i == n - 1 {
        let f = fences[i];
        let own = icon_hits(t, f, i, f.icons.len() as int);
        lemma_icon_reacts(t, f, i, f.icons.len() as int, k);
        let j = choose|j: int| 0 <= j < own.len() && own[j] == h;
        assert(all[upto.len() + j] == h);
    } else {
        lemma_fence_icons_react(t, fences, n - 1, i, k);
        let j = choose|j: int| 0 <= j < upto.len() && upto[j] == h;
        assert(all[j] == h);
    }
}

/// Every icon of a fence that is seen, and that is not scrolled out of sight, reacts to the
/// pointer: at the place where it is drawn, as an icon of that fence.
pub proof fn law_seen_icons_react(t: Theme<i64>, s: Scene<i64>, m: HitModel<i64>, i: int, k: int)
    requires
        reacts(m, t, s),
        0 <= i < s.fences.len(),
        0 <= k < s.fences[i].icons.len(),
        s.fences[i].alpha > 0,
        ({
            let f = s.fences[i];
            let ic = f.icons[k];
            let top = f.content_top + match f.list_cols {
                Some(c) => c.header_h as int,
                None => 0,
            };
            &&& -0x1_0000_0000 <= ic.y <= 0x1_0000_0000 && 0 <= ic.size <= 0x1_0000_0000
            &&& -0x1_0000_0000 <= f.content_top <= 0x1_0000_0000 && 0 <= f.scroll_view <= 0x1_0000_0000
            &&& f.list_cols matches Some(c) ==> 0 <= c.header_h <= 0x1_0000_0000
            &&& top <= ic.y + ic.size && ic.y <= top + f.scroll_view
        }),
    ensures
        exists|j: int|
            0 <= j < m.icons.len() && (#[trigger] m.icons@[j]).fence == i && m.icons@[j].icon == k && m.icons@[j].rect.y
                == s.fences[i].icons[k].y && (!(s.fences[i].layout is List) ==> m.icons@[j].rect.x
                == s.fences[i].icons[k].x && m.icons@[j].rect.w == s.fences[i].icons[k].size && m.icons@[j].rect.h
                == s.fences[i].icons[k].size) && (s.fences[i].layout is List ==> m.icons@[j].rect.x
                == s.fences[i].content_left),
{
    let n = s.fences.len() as int;
    let f = s.fences@[i];
    assert(i64::lit(1, 100) == 0 && scalar::num::<i64>(0) == 0);
    assert(f.icons@[k] == f.icons[k]);
    lemma_fence_icons_react(t, s.fences@, n, i, k);
    let h = IconHit { rect: icon_area(t, f, f.icons[k]), fence: i as usize, icon: k as usize };
    let j = choose|j: int| 0 <= j < m.icons@.len() && m.icons@[j] == h;
    assert(m.icons@[j].fence == i);
}

proof fn lemma_fence_reacts<S: Scalar>(t: Theme<S>, fences: Seq<SceneFence<S>>, n: int, i: int)
    requires
        0 <= i < n <= fences.len() <= usize::MAX,
        seen(fences[i]),
    ensures
        fence_hits(t, fences, n).contains(fence_hit(t, fences[i], i)),
    decreases n,
{
    let h = fence_hit(t, fences[i], i);
    let upto = fence_hits(t, fences, n - 1);
    let all = fence_hits(t, fences, n);
    if i == n - 1 {
        assert(all[upto.len() as int] == h);
    } else {
        lemma_fence_reacts(t, fences, n - 1, i);
        let j = choose|j: int| 0 <= j < upto.len() && upto[j] == h;
        assert(all[j] == h);
    }
}

/// Every fence that is seen reacts to the pointer: over the area in which it is drawn, with
/// its title along the upper edge and its handle in the lower right corner.
pub proof fn law_seen_fences_react(t: Theme<i64>, s: Scene<i64>, m: HitModel<i64>, i: int)
    requires
        reacts(m, t, s),
        0 <= i < s.fences.len(),
        s.fences[i].alpha > 0,
        -0x1_0000_0000 <= s.fences[i].x <= 0x1_0000_0000,
        -0x1_0000_0000 <= s.fences[i].y <= 0x1_0000_0000,
        0 <= s.fences[i].width <= 0x1_0000_0000,
        0 <= s.fences[i].height <= 0x1_0000_0000,
    ensures
        exists|j: int| 0 <= j < m.fences.len() && {
            let h = #[trigger] m.fences@[j];
            let f = s.fences[i];
            &&& h.id == i
            &&& h.body == (RectF { x: f.x, y: f.y, w: f.width, h: f.height })
            &&& h.title.x == f.x && h.title.y == f.y && h.title.w == f.width && h.title.h <= f.height
            &&& h.grip.x + h.grip.w == f.x + f.width && h.grip.y + h.grip.h == f.y + f.height
            &&& h.grip.w > 0 && h.grip.h > 0
        },
{
    let n = s.fences.len() as int;
    assert(i64::lit(1, 100) == 0 && scalar::num::<i64>(26) == 26);
    lemma_fence_reacts(t, s.fences@, n, i);
    let h = fence_hit(t, s.fences@[i], i);
    let j = choose|j: int| 0 <= j < m.fences@.len() && m.fences@[j] == h;
    assert(m.fences@[j].id == i);
}

/// The buttons of an unfolded console react where they are drawn: each is the control that it
/// is drawn for.
pub proof fn law_console_buttons_react(z: Seq<(ConsoleZone<i64>, RectF<i64>)>, c: SceneConsole<i64>)
    requires
        console_zones(z, c),
        c.panel == 1,
    ensures
        z.contains((ConsoleZone::<i64>::Close, c.close)),
        z.contains((ConsoleZone::<i64>::AddFence, c.add_fence)),
        z.contains((ConsoleZone::<i64>::RemoveFence, c.remove_btn)),
        z.contains((ConsoleZone::<i64>::DesktopToggle, c.desktop_toggle)),
        c.fence_detail matches Some(d) ==> {
            &&& z.contains((ConsoleZone::<i64>::FenceLayout(FenceLayout::Grid), d.layout_grid))
            &&& z.contains((ConsoleZone::<i64>::FenceLayout(FenceLayout::List), d.layout_list))
            &&& z.contains((ConsoleZone::<i64>::FenceLayout(FenceLayout::Sidebar), d.layout_sidebar))
            &&& z.contains((ConsoleZone::<i64>::FenceIconSize(32), d.size_s))
            &&& z.contains((ConsoleZone::<i64>::FenceIconSize(48), d.size_m))
            &&& z.contains((ConsoleZone::<i64>::FenceIconSize(64), d.size_l))
            &&& z.contains((ConsoleZone::<i64>::FenceStyle(FenceStyle::Glass), d.style_glass))
            &&& z.contains((ConsoleZone::<i64>::FenceStyle(FenceStyle::Outline), d.style_outline))
            &&& z.contains((ConsoleZone::<i64>::FenceStyle(FenceStyle::Filled), d.style_filled))
            &&& z.contains((ConsoleZone::<i64>::FenceStyle(FenceStyle::Blur), d.style_blur))
            &&& z.contains((ConsoleZone::<i64>::FenceTint(None), d.tint_default))
            &&& z.contains((ConsoleZone::<i64>::FenceSidebarPos(SidebarPosition::Left), d.sidebar_left))
            &&& z.contains((ConsoleZone::<i64>::FenceSidebarPos(SidebarPosition::Top), d.sidebar_top))
            &&& z.contains((ConsoleZone::<i64>::FenceSidebarPos(SidebarPosition::Right), d.sidebar_right))
            &&& z.contains((ConsoleZone::<i64>::ChangeStoragePath, d.storage_btn))
        },
{
    let top = seq![
        (ConsoleZone::<i64>::Close, c.close),
        (ConsoleZone::<i64>::AddFence, c.add_fence),
        (ConsoleZone::<i64>::RemoveFence, c.remove_btn),
        (ConsoleZone::<i64>::DesktopToggle, c.desktop_toggle),
    ];
    let head = top + row_zones(c.fence_rows@, c.fence_list_view, c.fence_rows.len() as int);
    assert(i64::lit(5, 10) == 0);
    assert(scalar::num::<i64>(32) == 32 && scalar::num::<i64>(48) == 48 && scalar::num::<i64>(64) == 64);
    match c.fence_detail {
        None => {
            assert forall|k: int| 0 <= k < 4 implies z[k] == #[trigger] top[k] by {}
            assert(z[0] == top[0] && z[1] == top[1] && z[2] == top[2] && z[3] == top[3]);
        },
        Some(d) => {
            let own = detail_zones(d);
            let fixed = head + own;
            let n = head.len() as int;
            assert forall|k: int| 0 <= k < fixed.len() implies #[trigger] z[k] == fixed[k] by {
                assert(z.take(fixed.len() as int)[k] == fixed[k]);
            }
            assert(z[0] == top[0] && z[1] == top[1] && z[2] == top[2] && z[3] == top[3]);
            assert forall|k: int| 0 <= k < 15 implies z.contains(#[trigger] own[k]) by {
                assert(z[n + k] == own[k]);
            }
            assert(own[0] == (ConsoleZone::<i64>::ChangeStoragePath, d.storage_btn));
            assert(own[1] == (ConsoleZone::<i64>::FenceLayout(FenceLayout::Grid), d.layout_grid));
            assert(own[2] == (ConsoleZone::<i64>::FenceLayout(FenceLayout::List), d.layout_list));
            assert(own[3] == (ConsoleZone::<i64>::FenceLayout(FenceLayout::Sidebar), d.layout_sidebar));
            assert(own[4] == (ConsoleZone::<i64>::FenceSidebarPos(SidebarPosition::Left), d.sidebar_left));
            assert(own[5] == (ConsoleZone::<i64>::FenceSidebarPos(SidebarPosition::Top), d.sidebar_top));
            assert(own[6] == (ConsoleZone::<i64>::FenceSidebarPos(SidebarPosition::Right), d.sidebar_right));
            assert(own[7] == (ConsoleZone::<i64>::FenceIconSize(32), d.size_s));
            assert(own[8] == (ConsoleZone::<i64>::FenceIconSize(48), d.size_m));
            assert(own[9] == (ConsoleZone::<i64>::FenceIconSize(64), d.size_l));
            assert(own[10] == (ConsoleZone::<i64>::FenceStyle(FenceStyle::Glass), d.style_glass));
            assert(own[11] == (ConsoleZone::<i64>::FenceStyle(FenceStyle::Outline), d.style_outline));
            assert(own[12] == (ConsoleZone::<i64>::FenceStyle(FenceStyle::Filled), d.style_filled));
            assert(own[13] == (ConsoleZone::<i64>::FenceStyle(FenceStyle::Blur), d.style_blur));
            assert(own[14] == (ConsoleZone::<i64>::FenceTint(None), d.tint_default));
        },
    }
}

/// A fence of the console's list that is in sight is chosen by its row.
pub proof fn law_console_rows_react(rows: Seq<SceneFenceRow<i64>>, view: RectF<i64>, n: int, k: int)
    requires
        0 <= k < n <= rows.len() <= usize::MAX,
        -0x1_0000_0000_0000 <= view.y <= 0x1_0000_0000_0000,
        0 <= view.h <= 0x1_0000_0000_0000,
        -0x1_0000_0000_0000 <= rows[k].rect.y <= 0x1_0000_0000_0000,
        0 <= rows[k].rect.h <= 0x1_0000_0000_0000,
        view.y <= rows[k].rect.y + rows[k].rect.h,
        rows[k].rect.y <= view.y + view.h,
    ensures
        row_zones(rows, view, n).contains((ConsoleZone::<i64>::FenceSelect(k as usize), rows[k].rect)),
    decreases n,
{
    let z = (ConsoleZone::<i64>::FenceSelect(k as usize), rows[k].rect);
    let upto = row_zones(rows, view, n - 1);
    let all = row_zones(rows, view, n);
    if k == n - 1 {
        assert(all[upto.len() as int] == z);
    } else {
        law_console_rows_react(rows, view, n - 1, k);
        let j = choose|j: int| 0 <= j < upto.len() && upto[j] == z;
        assert(all[j] == z);
    }
}

} // verus!
