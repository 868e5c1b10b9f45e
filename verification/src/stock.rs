//! The icons of a desk, the items behind them and their pictures: taking icons in, putting
//! them out, renaming and reordering them.

use vstd::prelude::*;
use vstd::string::*;

use crate::chars::same;
use crate::fence_view;
use crate::items::DesktopItem;
use crate::lists;
use crate::lists::remove_all;
use crate::model;
use crate::model::{Desk, Icon};

verus! {

/// A desk with the items behind its icons and the numbers of their pictures.
#[derive(Debug)]
pub struct Stock<S> {
    pub desk: Desk<S>,
    pub items: Vec<DesktopItem>,
    pub bitmaps: Vec<(String, u64)>,
}

/// Which icon is where: the members of each fence, and the icons in no fence.
pub struct Places {
    pub ids: Seq<u64>,
    pub members: Seq<Seq<Seq<char>>>,
    pub free: Seq<Seq<char>>,
}

/// What a stock holds.
pub struct Holdings {
    pub places: Places,
    pub icons: Map<Seq<char>, Icon>,
    pub items: Seq<DesktopItem>,
    pub bitmaps: Seq<(String, u64)>,
}

pub open spec fn places<S>(d: Desk<S>) -> Places {
    Places {
        ids: Seq::new(d.fences@.len(), |i: int| d.fences@[i].id),
        members: Seq::new(d.fences@.len(), |i: int| d.fences@[i].members()),
        free: d.free(),
    }
}

/// Nothing but icons and where they are differs.
pub open spec fn kept<S>(a: Desk<S>, b: Desk<S>) -> bool {
    &&& b.version == a.version
    &&& b.settings == a.settings
    &&& b.todos == a.todos
    &&& b.next_todo_id == a.next_todo_id
    &&& b.console_open == a.console_open
    &&& b.console_pos == a.console_pos
    &&& b.console_size == a.console_size
    &&& b.plugins == a.plugins
    &&& b.desktop_mode == a.desktop_mode
    &&& b.fences.len() == a.fences.len()
    &&& forall|i: int| 0 <= i < a.fences.len() ==> (#[trigger] b.fences[i]).same_but_members(a.fences[i])
}

impl<S> Stock<S> {
    pub open spec fn view(self) -> Holdings {
        Holdings {
            places: places(self.desk),
            icons: self.desk.icons@,
            items: self.items@,
            bitmaps: self.bitmaps@,
        }
    }
}

/// Index of the first list from `from` on that has the icon, or the number of lists.
pub open spec fn holder(members: Seq<Seq<Seq<char>>>, icon: Seq<char>, from: int) -> int
    decreases members.len() - from,
{
    if from < 0 || from >= members.len() || members[from].contains(icon) {
        from
    } else {
        holder(members, icon, from + 1)
    }
}

/// Index of the first `id` from `from` on, or the number of them all.
pub open spec fn first_id(ids: Seq<u64>, id: u64, from: int) -> int
    decreases ids.len() - from,
{
    if from < 0 || from >= ids.len() || ids[from] == id {
        from
    } else {
        first_id(ids, id, from + 1)
    }
}

/// The icon taken out of its fence and put at the end of those in no fence. An icon that is
/// in none already, or nowhere, stays.
pub open spec fn freed(p: Places, icon: Seq<char>) -> Places {
    let h = holder(p.members, icon, 0);
    if p.free.contains(icon) || h >= p.members.len() {
        p
    } else {
        let k = first_id(p.ids, p.ids[h], 0);
        Places {
            members: p.members.update(k, lists::without(p.members[k], icon)),
            free: p.free.push(icon),
            ..p
        }
    }
}

/// The icon taken out of every fence and out of those in no fence.
pub open spec fn dropped(p: Places, icon: Seq<char>) -> Places {
    Places {
        members: Seq::new(p.members.len(), |i: int| lists::without(p.members[i], icon)),
        free: lists::without(p.free, icon),
        ..p
    }
}

proof fn lemma_lookups<S>(d: Desk<S>, icon: Seq<char>, id: u64, from: int)
    requires
        0 <= from <= d.fences.len(),
    ensures
        holder(places(d).members, icon, from) == model::holder_from(d.fences@, icon, from),
        first_id(places(d).ids, id, from) == model::fence_from(d.fences@, id, from),
    decreases d.fences.len() - from,
{
    if from < d.fences.len() {
        assert(places(d).members[from] == d.fences@[from].members());
        assert(places(d).ids[from] == d.fences@[from].id);
        lemma_lookups(d, icon, id, from + 1);
    }
}

/// Moves an icon out of its fence, to those that are in none.
pub fn free_icon<S>(desk: &mut Desk<S>, id: &str)
    ensures
        kept(*old(desk), *final(desk)),
        final(desk).icons == old(desk).icons,
        places(*final(desk)) == freed(places(*old(desk)), id@),
{
    let ghost a = *desk;
    let ghost p = places(a);
    let r = desk.move_icon(id, None);
    proof {
        lemma_lookups(a, id@, 0, 0);
        model::lemma_holder_from(a.fences@, id@, 0);
        let h = model::holder_from(a.fences@, id@, 0);
        let want = freed(p, id@);
        if a.free().contains(id@) || h >= a.fences.len() {
            assert(*desk == a);
        } else {
            let fid = a.fences@[h].id;
            lemma_lookups(a, id@, fid, 0);
            model::lemma_fence_from(a.fences@, fid, 0);
            let k = model::fence_from(a.fences@, fid, 0);
            assert(p.ids[h] == fid);
            lists::lemma_without(a.free(), id@);
            let got = places(*desk);
            assert(got.free == want.free);
            assert(got.ids =~= want.ids) by {
                assert forall|i: int| 0 <= i < got.ids.len() implies got.ids[i] == want.ids[i] by {
                    assert(desk.fences[i].same_but_members(a.fences[i]));
                }
            }
            assert(got.members =~= want.members) by {
                assert forall|i: int| 0 <= i < got.members.len() implies got.members[i] == want.members[i] by {
                    assert(desk.fences[i].members() == a.members_moved(i, id@, None));
                }
            }
        }
    }
}

/// The pictures without that of `id`.
pub open spec fn without_bitmap(v: Seq<(String, u64)>, id: Seq<char>) -> Seq<(String, u64)> {
    v.filter(|b: (String, u64)| b.0@ != id)
}

/// Takes the picture of `id` away.
pub fn drop_bitmap(v: &mut Vec<(String, u64)>, id: &str)
    ensures
        final(v)@ == without_bitmap(old(v)@, id@),
{
    let mut out: Vec<(String, u64)> = Vec::new();
    let mut i: usize = 0;
    while i < v.len()
        invariant
            i <= v.len(),
            v@ == old(v)@,
            out@ == without_bitmap(v@.take(i as int), id@),
        decreases v.len() - i,
    {
        proof {
            reveal(Seq::filter);
            assert(v@.take(i + 1).drop_last() =~= v@.take(i as int));
        }
        if !same(v[i].0.as_str(), id) {
            out.push((v[i].0.clone(), v[i].1));
        }
        i += 1;
    }
    proof {
        assert(v@.take(i as int) =~= v@);
    }
    *v = out;
}

/// Gives the icon `id` the picture `n`, in place of the one it has.
pub fn put_bitmap(v: &mut Vec<(String, u64)>, id: &str, n: u64)
    ensures
        exists|key: String|
            key@ == id@ && final(v)@ == #[trigger] without_bitmap(old(v)@, id@).push((key, n)),
{
    drop_bitmap(v, id);
    let mut key = String::new();
    key.append(id);
    proof {
        assert(key@ =~= id@);
    }
    v.push((key, n));
}

/// The picture `id` gets is `n`, and every other icon keeps its own.
pub open spec fn pictured(a: Seq<(String, u64)>, b: Seq<(String, u64)>, id: Seq<char>, n: u64) -> bool {
    exists|key: String| key@ == id && b == #[trigger] without_bitmap(a, id).push((key, n))
}

proof fn lemma_bitmap_miss(v: Seq<(String, u64)>, id: Seq<char>, from: int)
    requires
        0 <= from <= v.len(),
        forall|i: int| from <= i < v.len() ==> (#[trigger] v[i]).0@ != id,
    ensures
        fence_view::bitmap_from(v, id, from) == u64::MAX,
    decreases v.len() - from,
{
    if from < v.len() {
        lemma_bitmap_miss(v, id, from + 1);
    }
}

proof fn lemma_bitmap_push(v: Seq<(String, u64)>, e: (String, u64), id: Seq<char>, from: int)
    requires
        0 <= from <= v.len(),
    ensures
        e.0@ != id ==> fence_view::bitmap_from(v.push(e), id, from) == fence_view::bitmap_from(v, id, from),
        e.0@ == id && (forall|i: int| from <= i < v.len() ==> (#[trigger] v[i]).0@ != id)
            ==> fence_view::bitmap_from(v.push(e), id, from) == e.1,
    decreases v.len() - from,
{
    if from < v.len() {
        assert(v.push(e)[from] == v[from]);
        lemma_bitmap_push(v, e, id, from + 1);
    } else {
        assert(v.push(e)[from] == e);
        reveal_with_fuel(fence_view::bitmap_from, 2);
    }
}

/// Whether `id` has a picture.
pub open spec fn has_bitmap(v: Seq<(String, u64)>, id: Seq<char>) -> bool {
    exists|i: int| 0 <= i < v.len() && (#[trigger] v[i]).0@ == id
}

proof fn lemma_has_bitmap_push(v: Seq<(String, u64)>, e: (String, u64), id: Seq<char>)
    ensures
        has_bitmap(v.push(e), id) <==> has_bitmap(v, id) || e.0@ == id,
{
    if has_bitmap(v, id) {
        let i = choose|i: int| 0 <= i < v.len() && (#[trigger] v[i]).0@ == id;
        assert(v.push(e)[i].0@ == id);
    }
    if e.0@ == id {
        assert(v.push(e)[v.len() as int].0@ == id);
    }
    if has_bitmap(v.push(e), id) && e.0@ != id {
        let i = choose|i: int| 0 <= i < v.push(e).len() && (#[trigger] v.push(e)[i]).0@ == id;
        assert(v[i].0@ == id);
    }
}

proof fn lemma_without_bitmap(v: Seq<(String, u64)>, id: Seq<char>, other: Seq<char>)
    ensures
        forall|i: int| 0 <= i < without_bitmap(v, id).len() ==> (#[trigger] without_bitmap(v, id)[i]).0@ != id,
        other != id ==> (has_bitmap(without_bitmap(v, id), other) <==> has_bitmap(v, other)),
        other != id ==> fence_view::bitmap_from(without_bitmap(v, id), other, 0) == fence_view::bitmap_from(
            v,
            other,
            0,
        ),
    decreases v.len(),
{
    reveal(Seq::filter);
    if v.len() > 0 {
        let t = v.drop_last();
        let e = v.last();
        lemma_without_bitmap(t, id, other);
        assert(v =~= t.push(e));
        lemma_has_bitmap_push(t, e, other);
        lemma_has_bitmap_push(without_bitmap(t, id), e, other);
        if other != id {
            lemma_bitmap_ends(t, e, other);
            lemma_bitmap_ends(without_bitmap(t, id), e, other);
        }
    }
}

proof fn lemma_bitmap_ends(v: Seq<(String, u64)>, e: (String, u64), id: Seq<char>)
    ensures
        fence_view::bitmap_from(v.push(e), id, 0) == if has_bitmap(v, id) {
            fence_view::bitmap_from(v, id, 0)
        } else if e.0@ == id {
            e.1
        } else {
            u64::MAX
        },
        has_bitmap(v, id) || fence_view::bitmap_from(v, id, 0) == u64::MAX,
{
    if has_bitmap(v, id) {
        let i = choose|i: int| 0 <= i < v.len() && (#[trigger] v[i]).0@ == id;
        lemma_bitmap_hit(v, e, id, 0, i);
    } else {
        lemma_bitmap_miss(v, id, 0);
        lemma_bitmap_push(v, e, id, 0);
    }
}

proof fn lemma_bitmap_hit(v: Seq<(String, u64)>, e: (String, u64), id: Seq<char>, from: int, i: int)
    requires
        0 <= from <= i < v.len(),
        v[i].0@ == id,
    ensures
        fence_view::bitmap_from(v.push(e), id, from) == fence_view::bitmap_from(v, id, from),
    decreases v.len() - from,
{
    assert(v.push(e)[from] == v[from]);
    if v[from].0@ != id {
        lemma_bitmap_hit(v, e, id, from + 1, i);
    }
}

/// Giving an icon a picture gives it that picture, and changes no other icon's.
pub proof fn law_picture_is_kept(a: Seq<(String, u64)>, b: Seq<(String, u64)>, id: Seq<char>, n: u64, other: Seq<char>)
    requires
        pictured(a, b, id, n),
    ensures
        fence_view::bitmap_from(b, id, 0) == n,
        other != id ==> fence_view::bitmap_from(b, other, 0) == fence_view::bitmap_from(a, other, 0),
{
    let key = choose|key: String| key@ == id && b == #[trigger] without_bitmap(a, id).push((key, n));
    lemma_without_bitmap(a, id, other);
    lemma_bitmap_ends(without_bitmap(a, id), (key, n), id);
    lemma_bitmap_ends(without_bitmap(a, id), (key, n), other);
}

/// Index of the first item `id` from `from` on, or the number of items.
pub open spec fn first_item(v: Seq<DesktopItem>, id: Seq<char>, from: int) -> int
    decreases v.len() - from,
{
    if from < 0 || from >= v.len() || v[from].id@ == id {
        from
    } else {
        first_item(v, id, from + 1)
    }
}

/// Index of the last item `id` among the first `n`, or -1.
pub open spec fn last_item(v: Seq<DesktopItem>, id: Seq<char>, n: int) -> int
    decreases n,
{
    if n <= 0 || v[n - 1].id@ == id {
        n - 1
    } else {
        last_item(v, id, n - 1)
    }
}

/// The last item `id`.
pub fn find_item(v: &Vec<DesktopItem>, id: &str) -> (r: Option<usize>)
    ensures
        match r {
            Some(i) => i == last_item(v@, id@, v.len() as int) && i < v.len() && v[i as int].id@ == id@,
            None => last_item(v@, id@, v.len() as int) == -1,
        },
{
    let mut n: usize = v.len();
    while n > 0
        invariant
            n <= v.len(),
            last_item(v@, id@, n as int) == last_item(v@, id@, v.len() as int),
        decreases n,
    {
        if same(v[n - 1].id.as_str(), id) {
            return Some(n - 1);
        }
        n -= 1;
    }
    None
}

/// The items without the first `id`.
pub open spec fn without_item(v: Seq<DesktopItem>, id: Seq<char>) -> Seq<DesktopItem> {
    let k = first_item(v, id, 0);
    if k < v.len() {
        v.remove(k)
    } else {
        v
    }
}

fn drop_item(v: &mut Vec<DesktopItem>, id: &str)
    ensures
        final(v)@ == without_item(old(v)@, id@),
{
    let mut i: usize = 0;
    while i < v.len()
        invariant
            i <= v.len(),
            v@ == old(v)@,
            first_item(v@, id@, i as int) == first_item(v@, id@, 0),
        decreases v.len() - i,
    {
        if same(v[i].id.as_str(), id) {
            let _ = v.remove(i);
            return;
        }
        i += 1;
    }
}

/// What is left when nothing of the icon is kept.
pub open spec fn emptied(h: Holdings, id: Seq<char>) -> Holdings {
    Holdings {
        places: dropped(h.places, id),
        icons: h.icons.remove(id),
        items: without_item(h.items, id),
        bitmaps: without_bitmap(h.bitmaps, id),
    }
}

impl<S> Stock<S> {
    /// Takes an icon out altogether; its file stays.
    pub fn remove_icon_entirely(&mut self, id: &str)
        ensures
            kept(old(self).desk, final(self).desk),
            final(self)@ == emptied(old(self)@, id@),
    {
        let ghost a = *self;
        self.desk.icons.remove(id);
        remove_all(&mut self.desk.free_icons, id);
        let mut i: usize = 0;
        while i < self.desk.fences.len()
            invariant
                i <= self.desk.fences.len(),
                self.items == a.items,
                self.bitmaps == a.bitmaps,
                self.desk.icons@ == a.desk.icons@.remove(id@),
                self.desk.free() == lists::without(a.desk.free(), id@),
                kept(a.desk, self.desk),
                forall|j: int|
                    0 <= j < i ==> (#[trigger] self.desk.fences[j]).members() == lists::without(
                        a.desk.fences[j].members(),
                        id@,
                    ),
                forall|j: int|
                    i <= j < a.desk.fences.len() ==> (#[trigger] self.desk.fences[j]).members() == a.desk.fences[j].members(),
            decreases self.desk.fences.len() - i,
        {
            remove_all(&mut self.desk.fences[i].icon_ids, id);
            i += 1;
        }
        drop_bitmap(&mut self.bitmaps, id);
        drop_item(&mut self.items, id);
        proof {
            let want = dropped(places(a.desk), id@);
            let got = places(self.desk);
            assert(got.ids =~= want.ids) by {
                assert forall|i: int| 0 <= i < got.ids.len() implies got.ids[i] == want.ids[i] by {
                    assert(self.desk.fences[i].same_but_members(a.desk.fences[i]));
                }
            }
            assert(got.members =~= want.members) by {
                assert forall|i: int| 0 <= i < got.members.len() implies got.members[i] == want.members[i] by {
                    assert(self.desk.fences[i].members() == lists::without(a.desk.fences[i].members(), id@));
                }
            }
        }
    }
}

/// Nothing is left of an icon that was taken out altogether.
pub proof fn law_emptied_leaves_nothing(h: Holdings, id: Seq<char>)
    ensures
        ({
            let r = emptied(h, id);
            &&& !r.icons.dom().contains(id)
            &&& !r.places.free.contains(id)
            &&& forall|i: int| 0 <= i < r.places.members.len() ==> !(#[trigger] r.places.members[i]).contains(id)
            &&& fence_view::bitmap_from(r.bitmaps, id, 0) == u64::MAX
        }),
{
    let r = emptied(h, id);
    lists::lemma_without(h.places.free, id);
    assert forall|i: int| 0 <= i < r.places.members.len() implies !(#[trigger] r.places.members[i]).contains(id) by {
        lists::lemma_without(h.places.members[i], id);
    }
    lemma_without_bitmap(h.bitmaps, id, id);
    lemma_bitmap_miss(r.bitmaps, id, 0);
}

} // verus!
