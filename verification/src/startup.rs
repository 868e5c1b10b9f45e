//! How a run begins: the pictures that could be had, the state before the first event, and
//! the kinds of file that menus are made ready for.

use vstd::prelude::*;
use vstd::string::*;

use crate::chars::same;
use crate::fence_view;
use crate::items::DesktopItem;
use crate::menus;
use crate::menus::type_key;
use crate::motion::Motion;
use crate::scalar;
use crate::scalar::{whole_number, Scalar};
use crate::session::{Look, Pick, Session};
use crate::stock;
use crate::stock::{put_bitmap, Stock};
use crate::theme::Theme;

verus! {

/// The picture of `id` among the first `n` items: the place of the last one of that name
/// whose picture was had.
pub open spec fn picture_in(items: Seq<DesktopItem>, loaded: Seq<bool>, id: Seq<char>, n: int) -> u64
    decreases n,
{
    if n <= 0 {
        u64::MAX
    } else if loaded[n - 1] && items[n - 1].id@ == id {
        (n - 1) as u64
    } else {
        picture_in(items, loaded, id, n - 1)
    }
}

/// The numbers of the pictures, from which items had one.
pub fn first_pictures(items: &Vec<DesktopItem>, loaded: &Vec<bool>) -> (r: Vec<(String, u64)>)
    requires
        loaded.len() == items.len(),
        items.len() < u64::MAX,
    ensures
        forall|id: Seq<char>| #[trigger]
            fence_view::bitmap_from(r@, id, 0) == picture_in(items@, loaded@, id, items.len() as int),
{
    let mut r: Vec<(String, u64)> = Vec::new();
    let mut i: usize = 0;
    while i < items.len()
        invariant
            i <= items.len(),
            loaded.len() == items.len(),
            items.len() < u64::MAX,
            forall|id: Seq<char>| #[trigger]
                fence_view::bitmap_from(r@, id, 0) == picture_in(items@, loaded@, id, i as int),
        decreases items.len() - i,
    {
        if loaded[i] {
            let ghost a = r@;
            let name = &items[i].id;
            put_bitmap(&mut r, name.as_str(), i as u64);
            proof {
                assert(stock::pictured(a, r@, name@, i as u64));
                assert forall|id: Seq<char>| #[trigger]
                    fence_view::bitmap_from(r@, id, 0) == picture_in(items@, loaded@, id, i + 1) by {
                    stock::law_picture_is_kept(a, r@, name@, i as u64, id);
                }
            }
        }
        i += 1;
    }
    r
}

impl<S: Scalar> Session<S> {
    /// The state before the first event: nothing moves, nothing is selected or edited, and
    /// nothing has been shown yet.
    pub fn start(stock: Stock<S>, theme: Theme<S>, size: (S, S), origin: (S, S), now: u64) -> (r: Self)
        ensures
            r.stock == stock,
            r.motion.console.panel_tween is None,
            r.motion.console.panel == scalar::num::<S>(
                if stock.desk.console_open {
                    1
                } else {
                    0
                },
            ),
            r.motion.desktop_fade is None,
            r.motion.fence_tweens.len() == 0,
            r.motion.icon_hover is None,
            r.pick.selected.len() == 0,
            r.pick.band is None,
            r.pick.hover is None,
            r.pick.cursor is None,
            r.pick.console_hover is None,
            r.pick.reorder is None,
            r.look.theme == theme,
            (r.look.vw, r.look.vh) == size,
            r.look.origin == origin,
            r.look.heights@ == Seq::new(stock.desk.fences@.len(), |i: int| scalar::num::<S>(0)),
            r.look.selected_fence == 0,
            r.look.fence_scroll == scalar::num::<S>(0),
            r.edit is None,
            r.edit_high is None,
            r.last_activity == now,
            r.last_trim == now,
            r.wf(),
    {
        let mut heights: Vec<S> = Vec::new();
        while heights.len() < stock.desk.fences.len()
            invariant
                heights.len() <= stock.desk.fences.len(),
                forall|i: int| 0 <= i < heights.len() ==> heights[i] == scalar::num::<S>(0),
            decreases stock.desk.fences.len() - heights.len(),
        {
            heights.push(whole_number(0));
        }
        let motion = Motion::new(stock.desk.console_open);
        Session {
            stock,
            motion,
            pick: Pick {
                selected: Vec::new(),
                band: None,
                hover: None,
                cursor: None,
                console_hover: None,
                reorder: None,
            },
            look: Look {
                theme,
                vw: size.0,
                vh: size.1,
                origin,
                heights,
                selected_fence: 0,
                fence_scroll: whole_number(0),
            },
            edit: None,
            edit_high: None,
            last_activity: now,
            last_trim: now,
        }
    }
}

/// The place of the last path of a kind among the first `n`, or -1.
pub open spec fn last_of_kind(paths: Seq<String>, dirs: Seq<bool>, key: Seq<char>, n: int) -> int
    decreases n,
{
    if n <= 0 {
        -1
    } else if menus::kind_key(paths[n - 1]@, dirs[n - 1]) == key {
        n - 1
    } else {
        last_of_kind(paths, dirs, key, n - 1)
    }
}

/// The path by which menus for a kind of file are made ready: the last one of that kind.
pub fn path_to_prime(paths: &Vec<String>, dirs: &Vec<bool>, key: &str) -> (r: Option<usize>)
    requires
        dirs.len() == paths.len(),
    ensures
        match r {
            Some(i) => last_of_kind(paths@, dirs@, key@, paths.len() as int) == i && i < paths.len(),
            None => last_of_kind(paths@, dirs@, key@, paths.len() as int) == -1,
        },
{
    let mut i: usize = paths.len();
    while i > 0
        invariant
            i <= paths.len(),
            dirs.len() == paths.len(),
            last_of_kind(paths@, dirs@, key@, i as int) == last_of_kind(paths@, dirs@, key@, paths.len() as int),
        decreases i,
    {
        let k = type_key(paths[i - 1].as_str(), dirs[i - 1]);
        let hit = same(k.as_str(), key);
        if hit {
            return Some(i - 1);
        }
        i -= 1;
    }
    None
}

/// The picture of an item is one that could be had, of an item of that name; where several
/// of that name had one, it is that of the last. Where none had, there is no picture.
pub proof fn law_picture_is_of_the_item(items: Seq<DesktopItem>, loaded: Seq<bool>, id: Seq<char>, n: int)
    requires
        0 <= n <= items.len(),
        loaded.len() == items.len(),
        items.len() < u64::MAX,
    ensures
        ({
            let k = picture_in(items, loaded, id, n);
            &&& k != u64::MAX ==> k < n && loaded[k as int] && items[k as int].id@ == id
            &&& forall|j: int|
                0 <= j < n && loaded[j] && (#[trigger] items[j]).id@ == id ==> k != u64::MAX && j <= k
        }),
    decreases n,
{
    if n > 0 {
        law_picture_is_of_the_item(items, loaded, id, n - 1);
    }
}

/// Menus for a kind are made ready by a path of that kind, wherever there is one.
pub proof fn law_primed_by_its_kind(paths: Seq<String>, dirs: Seq<bool>, key: Seq<char>, n: int)
    requires
        0 <= n <= paths.len(),
        dirs.len() == paths.len(),
    ensures
        ({
            let k = last_of_kind(paths, dirs, key, n);
            &&& k >= 0 ==> k < n && menus::kind_key(paths[k]@, dirs[k]) == key
            &&& forall|j: int| 0 <= j < n && menus::kind_key((#[trigger] paths[j])@, dirs[j]) == key ==> j <= k
        }),
    decreases n,
{
    if n > 0 {
        law_primed_by_its_kind(paths, dirs, key, n - 1);
    }
}

} // verus!
