//! Files coming into fences, leaving them and changing their names; folders that fences
//! mirror.

use vstd::prelude::*;
use vstd::string::*;

use crate::chars;
use crate::chars::{lower_of, same};
use crate::details;
use crate::items::{enrich, DesktopItem, FileMeta};
use crate::lists;
use crate::model::{copy_text, Desk, Fence, Icon};
use crate::paths;
use crate::paths::{new_path_for_rename, path_in_or_at, path_within};
use crate::stock;
use crate::stock::{find_item, free_icon, put_bitmap, Stock};

verus! {

/// The path of an icon, if it has one.
pub open spec fn path_at(icons: Map<Seq<char>, Icon>, id: Seq<char>) -> Option<Seq<char>> {
    if icons.dom().contains(id) {
        match icons[id].path {
            Some(p) => Some(p@),
            None => None,
        }
    } else {
        None
    }
}

/// Whether the icon was taken in rather than found on the desktop.
pub open spec fn is_added(icons: Map<Seq<char>, Icon>, id: Seq<char>) -> bool {
    icons.dom().contains(id) && icons[id].added
}

fn icon_path<S>(desk: &Desk<S>, id: &str) -> (r: Option<String>)
    ensures
        match r {
            Some(p) => path_at(desk.icons@, id@) == Some(p@),
            None => path_at(desk.icons@, id@) is None,
        },
{
    match desk.icons.get(id) {
        Some(ic) => copy_text(&ic.path),
        None => None,
    }
}

fn icon_added<S>(desk: &Desk<S>, id: &str) -> (r: bool)
    ensures
        r == is_added(desk.icons@, id@),
{
    match desk.icons.get(id) {
        Some(ic) => ic.added,
        None => false,
    }
}

/// Whether the member `m` is the item `id` at `path`, by its identifier or by its path.
pub open spec fn stands_for(icons: Map<Seq<char>, Icon>, m: Seq<char>, id: Seq<char>, path: Seq<char>) -> bool {
    m == id || (path_at(icons, m) matches Some(p) && chars::ascii_lower(p) == chars::ascii_lower(path))
}

/// Whether the `fence`-th fence has the item already.
pub open spec fn already<S>(d: Desk<S>, fence: int, id: Seq<char>, path: Seq<char>) -> bool {
    0 <= fence < d.fences.len() && exists|j: int|
        0 <= j < d.fences[fence].icon_ids.len() && stands_for(
            d.icons@,
            (#[trigger] d.fences[fence].icon_ids[j])@,
            id,
            path,
        )
}

/// The metadata of an item that was just taken in.
pub open spec fn fresh(ic: Icon, item: DesktopItem, path: Seq<char>, meta: Option<FileMeta>) -> bool {
    &&& ic.id@ == item.id@
    &&& ic.display_name@ == item.display_name@
    &&& ic.kind == item.kind
    &&& ic.path matches Some(p) && p@ == path
    &&& ic.added
    &&& ic.type_label@ == details::label_text(item.kind, item.display_name@)
    &&& ic.size_bytes == match meta {
        Some(m) => if m.is_file {
            Some(m.len)
        } else {
            None
        },
        None => None,
    }
    &&& ic.modified_secs == match meta {
        Some(m) => if m.dated {
            m.modified
        } else {
            None
        },
        None => None,
    }
}

/// The icon at the end of the members of the `fence`-th fence, if there is one.
pub open spec fn with_member(p: stock::Places, fence: int, id: Seq<char>) -> stock::Places {
    if 0 <= fence < p.members.len() {
        stock::Places { members: p.members.update(fence, p.members[fence].push(id)), ..p }
    } else {
        p
    }
}

/// `b` is what `a` becomes when the item is taken into the `fence`-th fence.
pub open spec fn taken_in(
    a: stock::Holdings,
    b: stock::Holdings,
    fence: int,
    item: DesktopItem,
    path: Seq<char>,
    meta: Option<FileMeta>,
) -> bool {
    let id = item.id@;
    &&& b.places == with_member(a.places, fence, id)
    &&& b.icons == a.icons.insert(id, b.icons[id])
    &&& fresh(b.icons[id], item, path, meta)
    &&& b.items == a.items.push(item)
    &&& stock::pictured(a.bitmaps, b.bitmaps, id, a.items.len() as u64)
}

fn is_already<S>(desk: &Desk<S>, fence: usize, id: &str, path: &str) -> (r: bool)
    ensures
        r == already(*desk, fence as int, id@, path@),
{
    if fence >= desk.fences.len() {
        return false;
    }
    let low = lower_of(path);
    let f = &desk.fences[fence];
    let mut i: usize = 0;
    while i < f.icon_ids.len()
        invariant
            i <= f.icon_ids.len(),
            fence < desk.fences.len(),
            *f == desk.fences[fence as int],
            low@ == chars::ascii_lower(path@),
            forall|j: int| 0 <= j < i ==> !stands_for(desk.icons@, (#[trigger] f.icon_ids[j])@, id@, path@),
        decreases f.icon_ids.len() - i,
    {
        if same(f.icon_ids[i].as_str(), id) {
            assert(stands_for(desk.icons@, desk.fences[fence as int].icon_ids[i as int]@, id@, path@));
            return true;
        }
        if let Some(p) = icon_path(desk, f.icon_ids[i].as_str()) {
            if same(lower_of(p.as_str()).as_str(), low.as_str()) {
                assert(stands_for(desk.icons@, desk.fences[fence as int].icon_ids[i as int]@, id@, path@));
                return true;
            }
        }
        i += 1;
    }
    false
}

impl<S> Stock<S> {
    /// Takes the item at `path` into the `fence`-th fence, unless the fence has it already;
    /// gives whether it was taken in. Its picture gets the number of items there were.
    pub fn register_fence_item(&mut self, fence: usize, item: DesktopItem, path: &str, meta: Option<FileMeta>) -> (added: bool)
        ensures
            added == !already(old(self).desk, fence as int, item.id@, path@),
            !added ==> *final(self) == *old(self),
            added ==> stock::kept(old(self).desk, final(self).desk) && taken_in(
                old(self)@,
                final(self)@,
                fence as int,
                item,
                path@,
                meta,
            ),
    {
        if is_already(&self.desk, fence, item.id.as_str(), path) {
            return false;
        }
        let ghost a = *self;
        let id = item.id.clone();
        let mut own_path = String::new();
        own_path.append(path);
        proof {
            assert(own_path@ =~= path@);
        }
        let mut ic = Icon::new(item.id.clone(), item.display_name.clone(), item.kind);
        ic.path = Some(own_path);
        ic.added = true;
        enrich(&mut ic, meta);
        self.desk.icons.insert(item.id.clone(), ic);
        let slot: u64 = self.items.len() as u64;
        put_bitmap(&mut self.bitmaps, item.id.as_str(), slot);
        self.items.push(item);
        if fence < self.desk.fences.len() {
            let ghost m = self.desk.fences[fence as int].icon_ids@;
            self.desk.fences[fence].icon_ids.push(id);
            proof {
                lists::lemma_texts_push(m, id);
            }
        }
        proof {
            let got = stock::places(self.desk);
            let want = with_member(stock::places(a.desk), fence as int, item.id@);
            assert(got.ids =~= want.ids);
            assert(got.members =~= want.members);
            assert(self@.icons =~= a@.icons.insert(item.id@, self@.icons[item.id@]));
        }
        true
    }
}

/// Whether the path lies in a folder that a fence mirrors.
pub open spec fn linked<S>(fences: Seq<Fence<S>>, path: Seq<char>) -> bool {
    exists|i: int|
        0 <= i < fences.len() && ((#[trigger] fences[i]).storage_path matches Some(d) && paths::strictly_within(
            d@,
            path,
        ))
}

/// Whether the path lies in a folder that a fence mirrors.
pub fn is_linked_path<S>(desk: &Desk<S>, path: &str) -> (r: bool)
    ensures
        r == linked(desk.fences@, path@),
{
    let mut i: usize = 0;
    while i < desk.fences.len()
        invariant
            i <= desk.fences.len(),
            forall|j: int|
                0 <= j < i ==> !((#[trigger] desk.fences@[j]).storage_path matches Some(d) && paths::strictly_within(
                    d@,
                    path@,
                )),
        decreases desk.fences.len() - i,
    {
        if let Some(d) = &desk.fences[i].storage_path {
            if path_within(d.as_str(), path) {
                assert(desk.fences@[i as int].storage_path matches Some(e) && paths::strictly_within(e@, path@));
                return true;
            }
        }
        i += 1;
    }
    false
}

/// Whether files at the path are the program's to delete: in its library, or in a folder
/// that a fence mirrors.
pub fn is_managed_path<S>(desk: &Desk<S>, library: &str, path: &str) -> (r: bool)
    ensures
        r == managed(desk.fences@, library@, path@),
{
    path_in_or_at(library, path) || is_linked_path(desk, path)
}

pub open spec fn managed<S>(fences: Seq<Fence<S>>, library: Seq<char>, path: Seq<char>) -> bool {
    paths::leads(library, path) || linked(fences, path)
}

proof fn lemma_links_kept<S>(a: Desk<S>, b: Desk<S>, path: Seq<char>)
    requires
        stock::kept(a, b),
    ensures
        linked(a.fences@, path) == linked(b.fences@, path),
{
    if linked(a.fences@, path) {
        let i = choose|i: int|
            0 <= i < a.fences@.len() && ((#[trigger] a.fences@[i]).storage_path matches Some(d)
                && paths::strictly_within(d@, path));
        assert(b.fences[i].same_but_members(a.fences[i]));
        assert(b.fences@[i].storage_path == a.fences@[i].storage_path);
    }
    if linked(b.fences@, path) {
        let i = choose|i: int|
            0 <= i < b.fences@.len() && ((#[trigger] b.fences@[i]).storage_path matches Some(d)
                && paths::strictly_within(d@, path));
        assert(b.fences[i].same_but_members(a.fences[i]));
        assert(a.fences@[i].storage_path == b.fences@[i].storage_path);
    }
}

/// What is left when an icon is put out of its fence: nothing of one that was taken in, and
/// an icon of the desktop goes to those in no fence.
pub open spec fn put_out(h: stock::Holdings, id: Seq<char>) -> stock::Holdings {
    if is_added(h.icons, id) {
        stock::emptied(h, id)
    } else {
        stock::Holdings { places: stock::freed(h.places, id), ..h }
    }
}

/// The holdings after the first `n` of the icons were put out.
pub open spec fn put_out_all(h: stock::Holdings, ids: Seq<Seq<char>>, n: int) -> stock::Holdings
    decreases n,
{
    if n <= 0 {
        h
    } else {
        put_out(put_out_all(h, ids, n - 1), ids[n - 1])
    }
}

/// Which files go with icons that are put out.
#[derive(Debug, Clone, Copy, PartialEq, Eq, Structural)]
pub enum Purge {
    /// Those in folders that fences mirror, from where they would come back.
    Linked,
    /// All that are the program's to delete.
    Managed,
}

/// The file that goes with an icon that is put out, if one does.
pub open spec fn doomed<S>(
    fences: Seq<Fence<S>>,
    library: Seq<char>,
    purge: Purge,
    h: stock::Holdings,
    id: Seq<char>,
) -> Option<Seq<char>> {
    if is_added(h.icons, id) {
        match path_at(h.icons, id) {
            Some(p) => if linked(fences, p) || (purge == Purge::Managed && paths::leads(library, p)) {
                Some(p)
            } else {
                None
            },
            None => None,
        }
    } else {
        None
    }
}

/// The files that go with the first `n` of the icons.
pub open spec fn doomed_all<S>(
    fences: Seq<Fence<S>>,
    library: Seq<char>,
    purge: Purge,
    h: stock::Holdings,
    ids: Seq<Seq<char>>,
    n: int,
) -> Seq<Seq<char>>
    decreases n,
{
    if n <= 0 {
        Seq::empty()
    } else {
        let v = doomed_all(fences, library, purge, h, ids, n - 1);
        match doomed(fences, library, purge, put_out_all(h, ids, n - 1), ids[n - 1]) {
            Some(p) => v.push(p),
            None => v,
        }
    }
}

impl<S> Stock<S> {
    /// Puts one icon out of its fence; gives the file that is to be deleted with it.
    pub fn put_icon_out(&mut self, library: &str, purge: Purge, id: &str) -> (r: Option<String>)
        ensures
            stock::kept(old(self).desk, final(self).desk),
            final(self)@ == put_out(old(self)@, id@),
            match r {
                Some(p) => doomed(old(self).desk.fences@, library@, purge, old(self)@, id@) == Some(p@),
                None => doomed(old(self).desk.fences@, library@, purge, old(self)@, id@) is None,
            },
    {
        if icon_added(&self.desk, id) {
            let mut file: Option<String> = None;
            if let Some(p) = icon_path(&self.desk, id) {
                let goes = match purge {
                    Purge::Linked => is_linked_path(&self.desk, p.as_str()),
                    Purge::Managed => is_managed_path(&self.desk, library, p.as_str()),
                };
                if goes {
                    file = Some(p);
                }
            }
            self.remove_icon_entirely(id);
            file
        } else {
            free_icon(&mut self.desk, id);
            None
        }
    }

    /// Puts icons out of their fences, one after the other; gives the files that are to be
    /// deleted with them.
    pub fn put_icons_out(&mut self, library: &str, purge: Purge, ids: &Vec<String>) -> (files: Vec<String>)
        ensures
            stock::kept(old(self).desk, final(self).desk),
            final(self)@ == put_out_all(old(self)@, chars::texts(ids@), ids.len() as int),
            chars::texts(files@) == doomed_all(
                old(self).desk.fences@,
                library@,
                purge,
                old(self)@,
                chars::texts(ids@),
                ids.len() as int,
            ),
    {
        let ghost a = *self;
        let ghost t = chars::texts(ids@);
        let mut files: Vec<String> = Vec::new();
        let mut i: usize = 0;
        proof {
            assert(chars::texts(files@) =~= Seq::<Seq<char>>::empty());
        }
        while i < ids.len()
            invariant
                i <= ids.len(),
                t == chars::texts(ids@),
                stock::kept(a.desk, self.desk),
                self@ == put_out_all(a@, t, i as int),
                chars::texts(files@) == doomed_all(a.desk.fences@, library@, purge, a@, t, i as int),
            decreases ids.len() - i,
        {
            let ghost b = *self;
            proof {
                assert(t[i as int] == ids@[i as int]@);
                match path_at(b@.icons, t[i as int]) {
                    Some(p) => {
                        lemma_links_kept(a.desk, b.desk, p);
                    },
                    None => {},
                }
                assert(doomed(b.desk.fences@, library@, purge, b@, t[i as int]) == doomed(
                    a.desk.fences@,
                    library@,
                    purge,
                    b@,
                    t[i as int],
                ));
            }
            let gone = self.put_icon_out(library, purge, ids[i].as_str());
            proof {
                assert forall|k: int| 0 <= k < a.desk.fences.len() implies (#[trigger] self.desk.fences[k]).same_but_members(
                    a.desk.fences[k],
                ) by {
                    assert(b.desk.fences[k].same_but_members(a.desk.fences[k]));
                }
            }
            if let Some(p) = gone {
                let ghost o = files@;
                files.push(p);
                proof {
                    lists::lemma_texts_push(o, p);
                }
            }
            i += 1;
        }
        files
    }
}

/// The member at a place of a fence, if there is one.
pub open spec fn member_at<S>(d: Desk<S>, fence: int, icon: int) -> Option<Seq<char>> {
    if 0 <= fence < d.fences.len() && 0 <= icon < d.fences[fence].icon_ids.len() {
        Some(d.fences[fence].icon_ids[icon]@)
    } else {
        None
    }
}

/// The members at the first `n` of the places.
pub open spec fn chosen<S>(d: Desk<S>, selected: Seq<(usize, usize)>, n: int) -> Seq<Seq<char>>
    decreases n,
{
    if n <= 0 {
        Seq::empty()
    } else {
        let v = chosen(d, selected, n - 1);
        match member_at(d, selected[n - 1].0 as int, selected[n - 1].1 as int) {
            Some(id) => v.push(id),
            None => v,
        }
    }
}

/// The member at a place of a fence, if there is one.
pub fn member_of<S>(desk: &Desk<S>, fence: usize, icon: usize) -> (r: Option<String>)
    ensures
        match r {
            Some(id) => member_at(*desk, fence as int, icon as int) == Some(id@),
            None => member_at(*desk, fence as int, icon as int) is None,
        },
{
    if fence < desk.fences.len() && icon < desk.fences[fence].icon_ids.len() {
        Some(desk.fences[fence].icon_ids[icon].clone())
    } else {
        None
    }
}

/// The selected icons.
pub fn selected_ids<S>(desk: &Desk<S>, selected: &Vec<(usize, usize)>) -> (r: Vec<String>)
    ensures
        chars::texts(r@) == chosen(*desk, selected@, selected.len() as int),
{
    let mut out: Vec<String> = Vec::new();
    let mut i: usize = 0;
    proof {
        assert(chars::texts(out@) =~= Seq::<Seq<char>>::empty());
    }
    while i < selected.len()
        invariant
            i <= selected.len(),
            chars::texts(out@) == chosen(*desk, selected@, i as int),
        decreases selected.len() - i,
    {
        if let Some(id) = member_of(desk, selected[i].0, selected[i].1) {
            let ghost o = out@;
            out.push(id);
            proof {
                lists::lemma_texts_push(o, id);
            }
        }
        i += 1;
    }
    out
}

/// The paths of the first `n` of the icons, of those that have one.
pub open spec fn paths_of(icons: Map<Seq<char>, Icon>, ids: Seq<Seq<char>>, n: int) -> Seq<Seq<char>>
    decreases n,
{
    if n <= 0 {
        Seq::empty()
    } else {
        let v = paths_of(icons, ids, n - 1);
        match path_at(icons, ids[n - 1]) {
            Some(p) => v.push(p),
            None => v,
        }
    }
}

/// The paths of the selected icons, of those that have one.
pub fn selected_paths<S>(desk: &Desk<S>, selected: &Vec<(usize, usize)>) -> (r: Vec<String>)
    ensures
        ({
            let ids = chosen(*desk, selected@, selected.len() as int);
            chars::texts(r@) == paths_of(desk.icons@, ids, ids.len() as int)
        }),
{
    let ids = selected_ids(desk, selected);
    let ghost t = chars::texts(ids@);
    let mut out: Vec<String> = Vec::new();
    let mut i: usize = 0;
    proof {
        assert(chars::texts(out@) =~= Seq::<Seq<char>>::empty());
    }
    while i < ids.len()
        invariant
            i <= ids.len(),
            t == chars::texts(ids@),
            chars::texts(out@) == paths_of(desk.icons@, t, i as int),
        decreases ids.len() - i,
    {
        proof {
            assert(t[i as int] == ids@[i as int]@);
        }
        if let Some(p) = icon_path(desk, ids[i].as_str()) {
            let ghost o = out@;
            out.push(p);
            proof {
                lists::lemma_texts_push(o, p);
            }
        }
        i += 1;
    }
    out
}

/// A renaming of a file that is to be done on the disk.
#[derive(Debug, PartialEq)]
pub struct RenamePlan {
    pub id: String,
    pub old_path: String,
    pub new_path: String,
}

/// The icon, its path and its new path, where a member of a fence is to be called `name`.
/// Nothing is to be done for a virtual item, or where nothing would change.
pub open spec fn renaming<S>(d: Desk<S>, fence: int, icon: int, name: Seq<char>) -> Option<(Seq<char>, Seq<char>, Seq<char>)> {
    match member_at(d, fence, icon) {
        Some(id) => if !d.icons@.dom().contains(id) || d.icons@[id].display_name@ == name {
            None
        } else {
            match path_at(d.icons@, id) {
                Some(old_path) => match paths::rename_target(old_path, name) {
                    Some(new_path) => if new_path == old_path {
                        None
                    } else {
                        Some((id, old_path, new_path))
                    },
                    None => None,
                },
                None => None,
            }
        },
        None => None,
    }
}

/// What is to be done on the disk so that a member of a fence is called `name`.
pub fn plan_icon_rename<S>(desk: &Desk<S>, fence: usize, icon: usize, name: &str) -> (r: Option<RenamePlan>)
    ensures
        match r {
            Some(p) => renaming(*desk, fence as int, icon as int, name@) == Some(
                (p.id@, p.old_path@, p.new_path@),
            ),
            None => renaming(*desk, fence as int, icon as int, name@) is None,
        },
{
    let id = match member_of(desk, fence, icon) {
        Some(id) => id,
        None => {
            return None;
        },
    };
    match desk.icons.get(id.as_str()) {
        Some(ic) => {
            if same(ic.display_name.as_str(), name) {
                return None;
            }
        },
        None => {
            return None;
        },
    }
    let old_path = match icon_path(desk, id.as_str()) {
        Some(p) => p,
        None => {
            return None;
        },
    };
    match new_path_for_rename(old_path.as_str(), name) {
        Some(new_path) => {
            if same(new_path.as_str(), old_path.as_str()) {
                None
            } else {
                Some(RenamePlan { id, old_path, new_path })
            }
        },
        None => None,
    }
}

/// The list with its first `a` made `b`.
pub open spec fn swapped(v: Seq<Seq<char>>, a: Seq<char>, b: Seq<char>) -> Seq<Seq<char>> {
    let k = lists::find_from(v, a, 0);
    if k < v.len() {
        v.update(k, b)
    } else {
        v
    }
}

fn swap_first(v: &mut Vec<String>, a: &str, b: &str)
    ensures
        chars::texts(final(v)@) == swapped(chars::texts(old(v)@), a@, b@),
{
    let ghost t = chars::texts(v@);
    let mut i: usize = 0;
    while i < v.len()
        invariant
            i <= v.len(),
            v@ == old(v)@,
            t == chars::texts(v@),
            lists::find_from(t, a@, i as int) == lists::find_from(t, a@, 0),
        decreases v.len() - i,
    {
        proof {
            assert(t[i as int] == v@[i as int]@);
        }
        if same(v[i].as_str(), a) {
            let mut s = String::new();
            s.append(b);
            proof {
                assert(s@ =~= b@);
            }
            v.set(i, s);
            proof {
                assert(chars::texts(v@) =~= t.update(i as int, b@));
            }
            return;
        }
        i += 1;
    }
}

/// The metadata of an icon whose file is now the item at `path`.
pub open spec fn retitled(a: Icon, b: Icon, item: DesktopItem, path: Seq<char>, meta: Option<FileMeta>) -> bool {
    &&& b.id@ == item.id@
    &&& b.display_name@ == item.display_name@
    &&& b.kind == a.kind
    &&& b.path matches Some(p) && p@ == path
    &&& b.added == a.added
    &&& b.type_label@ == if a.type_label@.len() == 0 {
        details::label_text(a.kind, item.display_name@)
    } else {
        a.type_label@
    }
    &&& b.size_bytes == match meta {
        Some(m) => if m.is_file {
            Some(m.len)
        } else if m.is_dir {
            None
        } else {
            a.size_bytes
        },
        None => a.size_bytes,
    }
    &&& b.modified_secs == match meta {
        Some(m) => if m.dated {
            m.modified
        } else {
            a.modified_secs
        },
        None => a.modified_secs,
    }
}

/// `b` is what `a` becomes when the file of the icon `id` has become `item` at `path`. Its
/// picture is to be made anew.
pub open spec fn renamed(
    a: stock::Holdings,
    b: stock::Holdings,
    id: Seq<char>,
    item: DesktopItem,
    path: Seq<char>,
    meta: Option<FileMeta>,
) -> bool {
    let new = item.id@;
    let k = stock::last_item(a.items, id, a.items.len() as int);
    &&& b.items == if k >= 0 {
        a.items.update(k, item)
    } else {
        a.items
    }
    &&& if a.icons.dom().contains(id) {
        b.icons == a.icons.remove(id).insert(new, b.icons[new]) && retitled(a.icons[id], b.icons[new], item, path, meta)
    } else {
        b.icons == a.icons
    }
    &&& b.places.ids == a.places.ids
    &&& b.places.members == Seq::new(a.places.members.len(), |i: int| swapped(a.places.members[i], id, new))
    &&& b.places.free == swapped(a.places.free, id, new)
    &&& b.bitmaps == stock::without_bitmap(a.bitmaps, id)
}

impl<S> Stock<S> {
    /// Takes over that the file of the icon `id` has become `item` at `path`.
    pub fn rename_icon(&mut self, id: &str, item: DesktopItem, path: &str, meta: Option<FileMeta>)
        ensures
            stock::kept(old(self).desk, final(self).desk),
            renamed(old(self)@, final(self)@, id@, item, path@, meta),
    {
        let ghost a = *self;
        let new_id = item.id.clone();
        let icon = match self.desk.icons.get(id) {
            Some(ic) => Some(ic.clone()),
            None => None,
        };
        if let Some(ic) = icon {
            let mut ic = ic;
            let mut own_path = String::new();
            own_path.append(path);
            proof {
                assert(own_path@ =~= path@);
            }
            ic.id = item.id.clone();
            ic.display_name = item.display_name.clone();
            ic.path = Some(own_path);
            enrich(&mut ic, meta);
            self.desk.icons.remove(id);
            self.desk.icons.insert(item.id.clone(), ic);
        }
        if let Some(k) = find_item(&self.items, id) {
            self.items.set(k, item);
        }
        let ghost mid = *self;
        let mut i: usize = 0;
        while i < self.desk.fences.len()
            invariant
                i <= self.desk.fences.len(),
                new_id@ == item.id@,
                self.items == mid.items,
                self.desk.icons == mid.desk.icons,
                self.bitmaps == a.bitmaps,
                self.desk.free_icons == a.desk.free_icons,
                stock::kept(a.desk, self.desk),
                forall|j: int|
                    0 <= j < i ==> (#[trigger] self.desk.fences[j]).members() == swapped(
                        a.desk.fences[j].members(),
                        id@,
                        new_id@,
                    ),
                forall|j: int|
                    i <= j < a.desk.fences.len() ==> (#[trigger] self.desk.fences[j]).members()
                        == a.desk.fences[j].members(),
            decreases self.desk.fences.len() - i,
        {
            swap_first(&mut self.desk.fences[i].icon_ids, id, new_id.as_str());
            i += 1;
        }
        swap_first(&mut self.desk.free_icons, id, new_id.as_str());
        stock::drop_bitmap(&mut self.bitmaps, id);
        proof {
            let got = stock::places(self.desk);
            let want = Seq::new(
                a@.places.members.len(),
                |i: int| swapped(a@.places.members[i], id@, item.id@),
            );
            assert(got.ids =~= a@.places.ids) by {
                assert forall|i: int| 0 <= i < got.ids.len() implies got.ids[i] == a@.places.ids[i] by {
                    assert(self.desk.fences[i].same_but_members(a.desk.fences[i]));
                }
            }
            assert(got.members =~= want) by {
                assert forall|i: int| 0 <= i < got.members.len() implies got.members[i] == want[i] by {
                    assert(self.desk.fences[i].members() == swapped(a.desk.fences[i].members(), id@, new_id@));
                }
            }
        }
    }

    /// A number that no picture has: one more than the greatest.
    pub fn next_bitmap(&self) -> (r: u64)
        requires
            forall|i: int| 0 <= i < self.bitmaps.len() ==> (#[trigger] self.bitmaps[i]).1 < u64::MAX,
        ensures
            forall|i: int| 0 <= i < self.bitmaps.len() ==> (#[trigger] self.bitmaps[i]).1 < r,
            self.bitmaps.len() == 0 ==> r == 1,
            self.bitmaps.len() > 0 ==> exists|i: int|
                0 <= i < self.bitmaps.len() && (#[trigger] self.bitmaps[i]).1 + 1 == r,
    {
        let mut top: u64 = 0;
        let mut i: usize = 0;
        while i < self.bitmaps.len()
            invariant
                i <= self.bitmaps.len(),
                forall|j: int| 0 <= j < self.bitmaps.len() ==> (#[trigger] self.bitmaps[j]).1 < u64::MAX,
                forall|j: int| 0 <= j < i ==> (#[trigger] self.bitmaps[j]).1 <= top,
                top < u64::MAX,
                i == 0 ==> top == 0,
                i > 0 ==> exists|j: int| 0 <= j < i && (#[trigger] self.bitmaps[j]).1 == top,
            decreases self.bitmaps.len() - i,
        {
            if i == 0 || self.bitmaps[i].1 > top {
                top = self.bitmaps[i].1;
                proof {
                    assert(self.bitmaps[i as int].1 == top);
                }
            }
            i += 1;
        }
        top + 1
    }
}

/// The file that opening the member at a place opens, if there is one.
pub open spec fn file_to_open(h: stock::Holdings, fence: int, icon: int) -> Option<Seq<char>> {
    if 0 <= fence < h.places.members.len() && 0 <= icon < h.places.members[fence].len() {
        let k = stock::last_item(h.items, h.places.members[fence][icon], h.items.len() as int);
        if k < 0 {
            None
        } else {
            match h.items[k].path {
                Some(p) => Some(p@),
                None => None,
            }
        }
    } else {
        None
    }
}

impl<S> Stock<S> {
    /// The file that opening the member at a place opens; things without a file are not
    /// opened.
    pub fn launch(&self, fence: usize, icon: usize) -> (r: Option<String>)
        ensures
            match r {
                Some(p) => file_to_open(self@, fence as int, icon as int) == Some(p@),
                None => file_to_open(self@, fence as int, icon as int) is None,
            },
    {
        let id = match member_of(&self.desk, fence, icon) {
            Some(id) => id,
            None => {
                return None;
            },
        };
        match find_item(&self.items, id.as_str()) {
            Some(k) => copy_text(&self.items[k].path),
            None => None,
        }
    }
}

/// The holdings after nothing is kept of the first `n` of the icons.
pub open spec fn emptied_all(h: stock::Holdings, ids: Seq<Seq<char>>, n: int) -> stock::Holdings
    decreases n,
{
    if n <= 0 {
        h
    } else {
        stock::emptied(emptied_all(h, ids, n - 1), ids[n - 1])
    }
}

pub proof fn lemma_kept_twice<S>(a: Desk<S>, b: Desk<S>, c: Desk<S>)
    requires
        stock::kept(a, b),
        stock::kept(b, c),
    ensures
        stock::kept(a, c),
{
    assert forall|k: int| 0 <= k < a.fences.len() implies (#[trigger] c.fences[k]).same_but_members(a.fences[k]) by {
        assert(b.fences[k].same_but_members(a.fences[k]));
    }
}

/// Whether the icon was taken in and lies in the library.
pub open spec fn in_library(icons: Map<Seq<char>, Icon>, library: Seq<char>) -> spec_fn(Seq<char>) -> bool {
    |id: Seq<char>| is_added(icons, id) && (path_at(icons, id) matches Some(p) && paths::leads(library, p))
}

/// Whether the icon was taken in and lies in the old folder but not in the new one.
pub open spec fn left_behind(icons: Map<Seq<char>, Icon>, old_dir: Seq<char>, new_dir: Seq<char>) -> spec_fn(
    Seq<char>,
) -> bool {
    |id: Seq<char>|
        is_added(icons, id) && (path_at(icons, id) matches Some(p) && paths::strictly_within(old_dir, p)
            && !paths::strictly_within(new_dir, p))
}

/// The members of a fence; none where there is no such fence.
pub open spec fn members_of<S>(d: Desk<S>, fence: int) -> Seq<Seq<char>> {
    if 0 <= fence < d.fences.len() {
        d.fences[fence].members()
    } else {
        Seq::empty()
    }
}

/// The members of a fence that move with it to another folder: those that lie in the library.
pub fn items_to_move<S>(desk: &Desk<S>, library: &str, fence: usize) -> (r: Vec<String>)
    ensures
        chars::texts(r@) == members_of(*desk, fence as int).filter(in_library(desk.icons@, library@)),
{
    let mut out: Vec<String> = Vec::new();
    let ghost keep = in_library(desk.icons@, library@);
    proof {
        reveal(Seq::filter);
        assert(chars::texts(out@) =~= Seq::<Seq<char>>::empty());
    }
    if fence < desk.fences.len() {
        let ids = &desk.fences[fence].icon_ids;
        let ghost t = chars::texts(ids@);
        let mut i: usize = 0;
        proof {
            assert(chars::texts(out@) =~= t.take(0).filter(keep));
        }
        while i < ids.len()
            invariant
                i <= ids.len(),
                t == chars::texts(ids@),
                keep == in_library(desk.icons@, library@),
                chars::texts(out@) == t.take(i as int).filter(keep),
            decreases ids.len() - i,
        {
            proof {
                reveal(Seq::filter);
                assert(t.take(i + 1).drop_last() =~= t.take(i as int));
                assert(t[i as int] == ids@[i as int]@);
            }
            let id = ids[i].as_str();
            if icon_added(desk, id) {
                if let Some(p) = icon_path(desk, id) {
                    if path_in_or_at(library, p.as_str()) {
                        let ghost o = out@;
                        out.push(ids[i].clone());
                        proof {
                            lists::lemma_texts_push(o, ids@[i as int]);
                        }
                    }
                }
            }
            i += 1;
        }
        proof {
            assert(t.take(i as int) =~= t);
        }
    }
    out
}

fn stale_members<S>(desk: &Desk<S>, fence: usize, old_dir: &str, new_dir: &str) -> (r: Vec<String>)
    ensures
        chars::texts(r@) == members_of(*desk, fence as int).filter(
            left_behind(desk.icons@, old_dir@, new_dir@),
        ),
{
    let mut out: Vec<String> = Vec::new();
    let ghost keep = left_behind(desk.icons@, old_dir@, new_dir@);
    proof {
        reveal(Seq::filter);
        assert(chars::texts(out@) =~= Seq::<Seq<char>>::empty());
    }
    if fence < desk.fences.len() {
        let ids = &desk.fences[fence].icon_ids;
        let ghost t = chars::texts(ids@);
        let mut i: usize = 0;
        proof {
            assert(chars::texts(out@) =~= t.take(0).filter(keep));
        }
        while i < ids.len()
            invariant
                i <= ids.len(),
                t == chars::texts(ids@),
                keep == left_behind(desk.icons@, old_dir@, new_dir@),
                chars::texts(out@) == t.take(i as int).filter(keep),
            decreases ids.len() - i,
        {
            proof {
                reveal(Seq::filter);
                assert(t.take(i + 1).drop_last() =~= t.take(i as int));
                assert(t[i as int] == ids@[i as int]@);
            }
            let id = ids[i].as_str();
            if icon_added(desk, id) {
                if let Some(p) = icon_path(desk, id) {
                    if path_within(old_dir, p.as_str()) && !path_within(new_dir, p.as_str()) {
                        let ghost o = out@;
                        out.push(ids[i].clone());
                        proof {
                            lists::lemma_texts_push(o, ids@[i as int]);
                        }
                    }
                }
            }
            i += 1;
        }
        proof {
            assert(t.take(i as int) =~= t);
        }
    }
    out
}

/// `b` is `a` with the file of the icon `id` at `path`.
pub open spec fn moved_file(a: stock::Holdings, b: stock::Holdings, id: Seq<char>, path: Seq<char>) -> bool {
    let k = stock::last_item(a.items, id, a.items.len() as int);
    &&& b.places == a.places
    &&& b.bitmaps == a.bitmaps
    &&& if a.icons.dom().contains(id) {
        &&& b.icons == a.icons.insert(id, b.icons[id])
        &&& b.icons[id].path matches Some(p) && p@ == path
        &&& b.icons[id] == (Icon { path: b.icons[id].path, ..a.icons[id] })
    } else {
        b.icons == a.icons
    }
    &&& if k >= 0 {
        &&& b.items == a.items.update(k, b.items[k])
        &&& b.items[k].path matches Some(p) && p@ == path
        &&& b.items[k] == (DesktopItem { path: b.items[k].path, ..a.items[k] })
    } else {
        b.items == a.items
    }
}

impl<S> Stock<S> {
    /// Takes over that the file of an icon has been moved.
    pub fn set_icon_path(&mut self, id: &str, path: &str)
        ensures
            stock::kept(old(self).desk, final(self).desk),
            moved_file(old(self)@, final(self)@, id@, path@),
    {
        let ghost a = *self;
        let icon = match self.desk.icons.get(id) {
            Some(ic) => Some(ic.clone()),
            None => None,
        };
        if let Some(ic) = icon {
            let mut ic = ic;
            let mut own_path = String::new();
            own_path.append(path);
            let mut key = String::new();
            key.append(id);
            proof {
                assert(own_path@ =~= path@);
                assert(key@ =~= id@);
            }
            ic.path = Some(own_path);
            self.desk.icons.insert(key, ic);
        }
        if let Some(k) = find_item(&self.items, id) {
            let mut own_path = String::new();
            own_path.append(path);
            proof {
                assert(own_path@ =~= path@);
            }
            self.items[k].path = Some(own_path);
            proof {
                assert(self.items@ =~= a.items@.update(k as int, self.items@[k as int]));
            }
        }
        proof {
            assert(stock::places(self.desk) == stock::places(a.desk)) by {
                assert(stock::places(self.desk).ids =~= stock::places(a.desk).ids);
                assert(stock::places(self.desk).members =~= stock::places(a.desk).members);
            }
        }
    }

    /// Takes icons out altogether, one after the other.
    pub fn remove_icons(&mut self, ids: &Vec<String>)
        ensures
            stock::kept(old(self).desk, final(self).desk),
            final(self)@ == emptied_all(old(self)@, chars::texts(ids@), ids.len() as int),
    {
        let ghost a = *self;
        let ghost t = chars::texts(ids@);
        let mut i: usize = 0;
        while i < ids.len()
            invariant
                i <= ids.len(),
                t == chars::texts(ids@),
                stock::kept(a.desk, self.desk),
                self@ == emptied_all(a@, t, i as int),
            decreases ids.len() - i,
        {
            let ghost b = *self;
            proof {
                assert(t[i as int] == ids@[i as int]@);
            }
            self.remove_icon_entirely(ids[i].as_str());
            proof {
                lemma_kept_twice(a.desk, b.desk, self.desk);
            }
            i += 1;
        }
    }

    /// After a fence was given another folder: takes the icons of the old one out; their
    /// files stay.
    pub fn clear_stale_linked_items(&mut self, fence: usize, old_dir: &str, new_dir: &str)
        ensures
            stock::kept(old(self).desk, final(self).desk),
            ({
                let ids = members_of(old(self).desk, fence as int).filter(
                    left_behind(old(self).desk.icons@, old_dir@, new_dir@),
                );
                final(self)@ == emptied_all(old(self)@, ids, ids.len() as int)
            }),
    {
        let ids = stale_members(&self.desk, fence, old_dir, new_dir);
        self.remove_icons(&ids);
    }
}

/// Lets a fence mirror a folder.
pub fn set_storage<S>(desk: &mut Desk<S>, fence: usize, dir: String)
    ensures
        final(desk).same_but_fences(*old(desk)),
        final(desk).fences@ == if fence < old(desk).fences.len() {
            old(desk).fences@.update(
                fence as int,
                Fence { storage_path: Some(dir), ..old(desk).fences[fence as int] },
            )
        } else {
            old(desk).fences@
        },
{
    if fence < desk.fences.len() {
        desk.fences[fence].storage_path = Some(dir);
        proof {
            assert(desk.fences@ =~= old(desk).fences@.update(
                fence as int,
                Fence { storage_path: Some(dir), ..old(desk).fences[fence as int] },
            ));
        }
    }
}

/// Where a file that is dropped on a fence goes.
#[derive(Debug, PartialEq)]
pub enum Destination {
    /// It is where it belongs.
    Stay,
    /// It is to be copied into the folder.
    CopyInto(String),
}

/// The folder that the file `src` is to be copied into so that the fence can have it: the
/// one that the fence mirrors, or the library; none where it lies there.
pub open spec fn folder_for<S>(d: Desk<S>, library: Seq<char>, fence: int, src: Seq<char>) -> Option<Seq<char>> {
    if 0 <= fence < d.fences.len() && d.fences[fence].storage_path is Some {
        let dir = d.fences[fence].storage_path->0@;
        if paths::strictly_within(dir, src) {
            None
        } else {
            Some(dir)
        }
    } else if paths::leads(library, src) {
        None
    } else {
        Some(library)
    }
}

/// Where the file `src` goes that is dropped on a fence.
pub fn destination<S>(desk: &Desk<S>, library: &str, fence: usize, src: &str) -> (r: Destination)
    ensures
        match r {
            Destination::Stay => folder_for(*desk, library@, fence as int, src@) is None,
            Destination::CopyInto(d) => folder_for(*desk, library@, fence as int, src@) == Some(d@),
        },
{
    if fence < desk.fences.len() {
        if let Some(d) = &desk.fences[fence].storage_path {
            return if path_within(d.as_str(), src) {
                Destination::Stay
            } else {
                Destination::CopyInto(d.clone())
            };
        }
    }
    if path_in_or_at(library, src) {
        Destination::Stay
    } else {
        Destination::CopyInto(library.to_owned())
    }
}

/// The name that a copy of the file `src` is tried under first.
pub fn copy_name(src: &str) -> (r: String)
    ensures
        r@ == match paths::file_name(src@) {
            Some(n) => n,
            None => "item"@,
        },
{
    match paths::file_name_of(src) {
        Some(n) => n,
        None => "item".to_owned(),
    }
}

/// The path is the program's to delete: it is the library or lies in it, or it lies strictly
/// within a folder that some fence mirrors.
pub open spec fn own_place<S>(fences: Seq<Fence<S>>, library: Seq<char>, path: Seq<char>) -> bool {
    paths::leads(library, path) || exists|i: int|
        0 <= i < fences.len() && ((#[trigger] fences[i]).storage_path matches Some(d) && paths::strictly_within(
            d@,
            path,
        ))
}

/// Putting an icon out of its fence deletes no file of the user: a file goes only with an icon
/// that was taken in, it is the file of that icon, and it lies where files are the program's
/// to delete. For an icon of the desktop no file goes at all. The file of an icon that was
/// taken in does go where it would come back from, a folder that a fence mirrors, and if all
/// that is managed is purged, from the library too.
pub proof fn law_only_own_files_go<S>(
    fences: Seq<Fence<S>>,
    library: Seq<char>,
    purge: Purge,
    h: stock::Holdings,
    id: Seq<char>,
)
    ensures
        doomed(fences, library, purge, h, id) matches Some(p) ==> h.icons.dom().contains(id) && h.icons[id].added && (
        h.icons[id].path matches Some(q) && q@ == p) && own_place(fences, library, p),
        !(h.icons.dom().contains(id) && h.icons[id].added) ==> doomed(fences, library, purge, h, id) is None,
        h.icons.dom().contains(id) && h.icons[id].added ==> (h.icons[id].path matches Some(q) ==> {
            &&& (exists|i: int|
                0 <= i < fences.len() && ((#[trigger] fences[i]).storage_path matches Some(d) && paths::strictly_within(
                    d@,
                    q@,
                ))) ==> doomed(fences, library, purge, h, id) == Some(q@)
            &&& purge is Managed && paths::leads(library, q@) ==> doomed(fences, library, purge, h, id) == Some(q@)
            &&& purge is Linked && !(exists|i: int|
                0 <= i < fences.len() && ((#[trigger] fences[i]).storage_path matches Some(d) && paths::strictly_within(
                    d@,
                    q@,
                ))) ==> doomed(fences, library, purge, h, id) is None
        }),
{
}

/// Putting icons out makes none: what is left of the metadata is as it was.
proof fn lemma_put_out_icons(h: stock::Holdings, ids: Seq<Seq<char>>, n: int, id: Seq<char>)
    requires
        put_out_all(h, ids, n).icons.dom().contains(id),
    ensures
        h.icons.dom().contains(id),
        put_out_all(h, ids, n).icons[id] == h.icons[id],
    decreases n,
{
    if n > 0 {
        lemma_put_out_icons(h, ids, n - 1, id);
    }
}

/// Of many icons that are put out, too, every file that goes is that of one of them that was
/// taken in, and lies where files are the program's to delete.
pub proof fn law_only_own_files_of_many_go<S>(
    fences: Seq<Fence<S>>,
    library: Seq<char>,
    purge: Purge,
    h: stock::Holdings,
    ids: Seq<Seq<char>>,
    n: int,
    p: Seq<char>,
)
    requires
        0 <= n <= ids.len(),
        doomed_all(fences, library, purge, h, ids, n).contains(p),
    ensures
        own_place(fences, library, p),
        exists|j: int|
            0 <= j < n && h.icons.dom().contains(#[trigger] ids[j]) && h.icons[ids[j]].added && (
            h.icons[ids[j]].path matches Some(q) && q@ == p),
    decreases n,
{
    if n > 0 {
        let v = doomed_all(fences, library, purge, h, ids, n - 1);
        let before = put_out_all(h, ids, n - 1);
        let id = ids[n - 1];
        law_only_own_files_go(fences, library, purge, before, id);
        match doomed(fences, library, purge, before, id) {
            Some(q) => {
                if q == p {
                    lemma_put_out_icons(h, ids, n - 1, id);
                    assert(h.icons.dom().contains(ids[n - 1]));
                } else {
                    let k = choose|k: int| 0 <= k < v.push(q).len() && v.push(q)[k] == p;
                    assert(v[k] == p);
                    law_only_own_files_of_many_go(fences, library, purge, h, ids, n - 1, p);
                }
            },
            None => {
                law_only_own_files_of_many_go(fences, library, purge, h, ids, n - 1, p);
            },
        }
    }
}

/// An icon that is put out is in no fence afterwards, and no other icon is touched. One that
/// was taken in is gone altogether; one of the desktop is kept, among those in no fence.
pub proof fn law_put_out_leaves_the_fence(h: stock::Holdings, id: Seq<char>, other: Seq<char>, f: int)
    requires
        0 <= f < h.places.members.len(),
        h.places.members[f].contains(id),
        h.places.ids.len() == h.places.members.len(),
        // fences are told apart by their numbers, and an icon is in one of them
        forall|i: int, j: int| 0 <= i < j < h.places.ids.len() ==> h.places.ids[i] != h.places.ids[j],
        forall|i: int| 0 <= i < h.places.members.len() && i != f ==> !(#[trigger] h.places.members[i]).contains(id),
        !h.places.free.contains(id),
        other != id,
    ensures
        ({
            let r = put_out(h, id);
            &&& r.places.members.len() == h.places.members.len()
            &&& forall|i: int| 0 <= i < r.places.members.len() ==> !(#[trigger] r.places.members[i]).contains(id)
            &&& forall|i: int|
                0 <= i < r.places.members.len() ==> ((#[trigger] r.places.members[i]).contains(other)
                    <==> h.places.members[i].contains(other))
            &&& r.places.free.contains(other) <==> h.places.free.contains(other)
            &&& r.icons.dom().contains(other) <==> h.icons.dom().contains(other)
            &&& h.icons.dom().contains(other) ==> r.icons[other] == h.icons[other]
            &&& is_added(h.icons, id) ==> !r.icons.dom().contains(id) && !r.places.free.contains(id)
            &&& !is_added(h.icons, id) ==> r.icons == h.icons && r.places.free.contains(id) && r.items == h.items
                && r.bitmaps == h.bitmaps
        }),
{
    let r = put_out(h, id);
    if is_added(h.icons, id) {
        lists::lemma_without(h.places.free, id);
        assert forall|i: int| 0 <= i < r.places.members.len() implies !(#[trigger] r.places.members[i]).contains(id) && (
        r.places.members[i].contains(other) <==> h.places.members[i].contains(other)) by {
            lists::lemma_without(h.places.members[i], id);
        }
    } else {
        lemma_holder(h.places.members, id, f, 0);
        lemma_first_id(h.places.ids, f, 0);
        lists::lemma_without(h.places.members[f], id);
        let free = h.places.free.push(id);
        assert(free[h.places.free.len() as int] == id);
        if h.places.free.contains(other) {
            let k = choose|k: int| 0 <= k < h.places.free.len() && h.places.free[k] == other;
            assert(free[k] == other);
        }
    }
}

proof fn lemma_holder(members: Seq<Seq<Seq<char>>>, icon: Seq<char>, f: int, from: int)
    requires
        0 <= from <= f < members.len(),
        members[f].contains(icon),
        forall|i: int| 0 <= i < members.len() && i != f ==> !(#[trigger] members[i]).contains(icon),
    ensures
        stock::holder(members, icon, from) == f,
    decreases f - from,
{
    if from < f {
        assert(!members[from].contains(icon));
        lemma_holder(members, icon, f, from + 1);
    }
}

proof fn lemma_first_id(ids: Seq<u64>, f: int, from: int)
    requires
        0 <= from <= f < ids.len(),
        forall|i: int, j: int| 0 <= i < j < ids.len() ==> ids[i] != ids[j],
    ensures
        stock::first_id(ids, ids[f], from) == f,
    decreases f - from,
{
    if from < f {
        lemma_first_id(ids, f, from + 1);
    }
}

/// What was taken into a fence is in it, with its path, and taking it in once more changes
/// nothing, by its name or by its path in any case. No other icon moves.
pub proof fn law_taken_in_once<S>(
    a: Stock<S>,
    b: Stock<S>,
    fence: int,
    item: DesktopItem,
    path: Seq<char>,
    meta: Option<FileMeta>,
    again: Seq<char>,
    other: Seq<char>,
)
    requires
        taken_in(a@, b@, fence, item, path, meta),
        stock::kept(a.desk, b.desk),
        0 <= fence < a.desk.fences.len(),
        other != item.id@,
    ensures
        b.desk.fences[fence].members().contains(item.id@),
        path_at(b.desk.icons@, item.id@) == Some(path),
        is_added(b.desk.icons@, item.id@),
        already(b.desk, fence, item.id@, path),
        chars::ascii_lower(again) == chars::ascii_lower(path) ==> already(b.desk, fence, other, again),
        forall|i: int|
            0 <= i < a.desk.fences.len() ==> ((#[trigger] b.desk.fences[i]).members().contains(other)
                <==> a.desk.fences[i].members().contains(other)),
        path_at(b.desk.icons@, other) == path_at(a.desk.icons@, other),
{
    let id = item.id@;
    let m = b.desk.fences[fence].icon_ids@;
    assert(stock::places(b.desk).members[fence] == b.desk.fences[fence].members());
    assert(stock::places(a.desk).members[fence] == a.desk.fences[fence].members());
    let old = a.desk.fences[fence].members();
    assert(b.desk.fences[fence].members() == old.push(id));
    assert(old.push(id)[old.len() as int] == id);
    let k = old.len() as int;
    assert(chars::texts(m)[k] == id);
    assert(m[k]@ == id);
    assert(stands_for(b.desk.icons@, b.desk.fences[fence].icon_ids[k]@, id, path));
    if chars::ascii_lower(again) == chars::ascii_lower(path) {
        assert(stands_for(b.desk.icons@, b.desk.fences[fence].icon_ids[k]@, other, again));
    }
    assert forall|i: int| 0 <= i < a.desk.fences.len() implies ((#[trigger] b.desk.fences[i]).members().contains(other)
        <==> a.desk.fences[i].members().contains(other)) by {
        assert(stock::places(b.desk).members[i] == b.desk.fences[i].members());
        assert(stock::places(a.desk).members[i] == a.desk.fences[i].members());
        if i == fence && old.contains(other) {
            let j = choose|j: int| 0 <= j < old.len() && old[j] == other;
            assert(old.push(id)[j] == other);
        }
    }
}

/// What a member is opened by is the file of the item at that place of that fence.
pub proof fn law_opens_what_is_there(h: stock::Holdings, fence: int, icon: int)
    ensures
        file_to_open(h, fence, icon) matches Some(p) ==> 0 <= fence < h.places.members.len() && 0 <= icon
            < h.places.members[fence].len() && exists|k: int|
            0 <= k < h.items.len() && (#[trigger] h.items[k]).id@ == h.places.members[fence][icon] && (
            h.items[k].path matches Some(q) && q@ == p),
{
    if 0 <= fence < h.places.members.len() && 0 <= icon < h.places.members[fence].len() {
        lemma_last_item(h.items, h.places.members[fence][icon], h.items.len() as int);
    }
}

proof fn lemma_last_item(v: Seq<DesktopItem>, id: Seq<char>, n: int)
    requires
        0 <= n <= v.len(),
    ensures
        -1 <= stock::last_item(v, id, n) < n || n == 0,
        stock::last_item(v, id, n) >= 0 ==> stock::last_item(v, id, n) < v.len() && v[stock::last_item(v, id, n)].id@ == id,
    decreases n,
{
    if n > 0 && v[n - 1].id@ != id {
        lemma_last_item(v, id, n - 1);
    }
}

/// A file that is renamed is that of the member it is renamed for, and what is to be done
/// changes its path; an icon without a file, or with that name already, is left alone.
pub proof fn law_rename_is_of_the_member<S>(d: Desk<S>, fence: int, icon: int, name: Seq<char>)
    ensures
        renaming(d, fence, icon, name) matches Some((id, old_path, new_path)) ==> {
            &&& 0 <= fence < d.fences.len() && 0 <= icon < d.fences[fence].icon_ids.len()
            &&& id == d.fences[fence].icon_ids[icon]@
            &&& d.icons@.dom().contains(id) && d.icons@[id].display_name@ != name
            &&& d.icons@[id].path matches Some(p) && p@ == old_path
            &&& new_path != old_path
        },
{
}

/// An icon whose file was renamed stays at its place in its fence, under its new name, and so
/// does every other icon; that it was taken in is kept.
pub proof fn law_renamed_icon_stays(
    a: stock::Holdings,
    b: stock::Holdings,
    id: Seq<char>,
    item: DesktopItem,
    path: Seq<char>,
    meta: Option<FileMeta>,
    f: int,
    k: int,
)
    requires
        renamed(a, b, id, item, path, meta),
        0 <= f < a.places.members.len(),
        0 <= k < a.places.members[f].len(),
        // an icon is in a fence once
        forall|i: int, j: int|
            0 <= i < j < a.places.members[f].len() ==> a.places.members[f][i] != a.places.members[f][j],
    ensures
        b.places.members[f].len() == a.places.members[f].len(),
        b.places.members[f][k] == if a.places.members[f][k] == id {
            item.id@
        } else {
            a.places.members[f][k]
        },
        a.icons.dom().contains(id) ==> b.icons.dom().contains(item.id@) && b.icons[item.id@].added == a.icons[id].added
            && b.icons[item.id@].display_name@ == item.display_name@ && path_at(b.icons, item.id@) == Some(path),
        item.id@ != id ==> !b.icons.dom().contains(id),
{
    lemma_find(a.places.members[f], id, 0);
}

proof fn lemma_find(v: Seq<Seq<char>>, id: Seq<char>, from: int)
    requires
        0 <= from <= v.len(),
    ensures
        from <= lists::find_from(v, id, from) <= v.len(),
        lists::find_from(v, id, from) < v.len() ==> v[lists::find_from(v, id, from)] == id,
        forall|i: int| from <= i < lists::find_from(v, id, from) ==> v[i] != id,
    decreases v.len() - from,
{
    if from < v.len() && v[from] != id {
        lemma_find(v, id, from + 1);
    }
}

/// The members of a selection are those at the selected places, in that order, and each of
/// them is in the fence it was selected in.
pub proof fn law_selection_is_what_is_there<S>(d: Desk<S>, selected: Seq<(usize, usize)>, n: int, id: Seq<char>)
    requires
        0 <= n <= selected.len(),
    ensures
        chosen(d, selected, n).contains(id) <==> exists|k: int|
            0 <= k < n && (#[trigger] selected[k]).0 < d.fences.len() && selected[k].1 < d.fences[selected[k].0 as int].icon_ids.len()
                && d.fences[selected[k].0 as int].icon_ids[selected[k].1 as int]@ == id,
    decreases n,
{
    if n > 0 {
        law_selection_is_what_is_there(d, selected, n - 1, id);
        let v = chosen(d, selected, n - 1);
        let s = selected[n - 1];
        match member_at(d, s.0 as int, s.1 as int) {
            Some(m) => {
                let w = v.push(m);
                assert(w[v.len() as int] == m);
                if v.contains(id) {
                    let j = choose|j: int| 0 <= j < v.len() && v[j] == id;
                    assert(w[j] == id);
                }
                if w.contains(id) && m != id {
                    let j = choose|j: int| 0 <= j < w.len() && w[j] == id;
                    assert(v[j] == id);
                }
                assert(selected[n - 1] == s);
            },
            None => {},
        }
    }
}

/// Nothing is left of any of the icons that were taken out, and every other one stays as it
/// was.
pub proof fn law_emptied_all_leaves_the_others(h: stock::Holdings, ids: Seq<Seq<char>>, n: int, other: Seq<char>)
    requires
        0 <= n <= ids.len(),
        forall|i: int| 0 <= i < n ==> #[trigger] ids[i] != other,
    ensures
        ({
            let r = emptied_all(h, ids, n);
            &&& forall|i: int| 0 <= i < n ==> !r.icons.dom().contains(#[trigger] ids[i])
            &&& r.icons.dom().contains(other) <==> h.icons.dom().contains(other)
            &&& h.icons.dom().contains(other) ==> r.icons[other] == h.icons[other]
            &&& r.places.members.len() == h.places.members.len()
            &&& forall|i: int, k: int|
                0 <= i < n && 0 <= k < r.places.members.len() ==> !(#[trigger] r.places.members[k]).contains(
                    #[trigger] ids[i],
                )
            &&& forall|k: int|
                0 <= k < r.places.members.len() ==> ((#[trigger] r.places.members[k]).contains(other)
                    <==> h.places.members[k].contains(other))
        }),
    decreases n,
{
    if n > 0 {
        law_emptied_all_leaves_the_others(h, ids, n - 1, other);
        let g = emptied_all(h, ids, n - 1);
        let id = ids[n - 1];
        let r = stock::emptied(g, id);
        assert forall|k: int| 0 <= k < r.places.members.len() implies ((#[trigger] r.places.members[k]).contains(other)
            <==> h.places.members[k].contains(other)) by {
            lists::lemma_without(g.places.members[k], id);
            assert(g.places.members[k].contains(other) <==> h.places.members[k].contains(other));
        }
        assert forall|i: int, k: int| 0 <= i < n && 0 <= k < r.places.members.len() implies !(
        #[trigger] r.places.members[k]).contains(#[trigger] ids[i]) by {
            lists::lemma_without(g.places.members[k], id);
            if i < n - 1 {
                assert(!g.places.members[k].contains(ids[i]));
            }
        }
    }
}

/// Where a fence gets another folder, only files that were taken in are moved there, out of
/// the library or out of the old folder, and all of them.
pub proof fn law_only_own_files_move<S>(
    d: Desk<S>,
    library: Seq<char>,
    old_dir: Seq<char>,
    new_dir: Seq<char>,
    fence: int,
    id: Seq<char>,
    p: Seq<char>,
)
    requires
        path_at(d.icons@, id) == Some(p),
        0 <= fence < d.fences.len(),
    ensures
        members_of(d, fence).filter(in_library(d.icons@, library)).contains(id) <==> d.fences[fence].members().contains(id)
            && d.icons@[id].added && paths::leads(library, p),
        members_of(d, fence).filter(left_behind(d.icons@, old_dir, new_dir)).contains(id)
            <==> d.fences[fence].members().contains(id) && d.icons@[id].added && paths::strictly_within(old_dir, p)
            && !paths::strictly_within(new_dir, p),
{
    crate::search::lemma_filtered(members_of(d, fence), in_library(d.icons@, library), id);
    crate::search::lemma_filtered(members_of(d, fence), left_behind(d.icons@, old_dir, new_dir), id);
}

/// A file that was moved is found at its new place, under the icon that it always had; no
/// other file is looked for elsewhere than before.
pub proof fn law_moved_file_is_found(
    a: stock::Holdings,
    b: stock::Holdings,
    id: Seq<char>,
    path: Seq<char>,
    other: Seq<char>,
)
    requires
        moved_file(a, b, id, path),
        a.icons.dom().contains(id),
        other != id,
    ensures
        path_at(b.icons, id) == Some(path),
        path_at(b.icons, other) == path_at(a.icons, other),
        is_added(b.icons, id) == is_added(a.icons, id),
        b.icons[id].display_name == a.icons[id].display_name,
        b.icons[id].kind == a.icons[id].kind,
        b.places == a.places,
{
}

/// A file that is dropped on a fence is copied unless it lies where the fence has its files,
/// and into that place only: the folder that the fence mirrors, or else the library.
pub proof fn law_dropped_file_is_copied_once<S>(d: Desk<S>, library: Seq<char>, fence: int, src: Seq<char>)
    requires
        0 <= fence < d.fences.len(),
    ensures
        match d.fences[fence].storage_path {
            Some(dir) => (paths::strictly_within(dir@, src) ==> folder_for(d, library, fence, src) is None) && (
            !paths::strictly_within(dir@, src) ==> folder_for(d, library, fence, src) == Some(dir@)),
            None => (paths::leads(library, src) ==> folder_for(d, library, fence, src) is None) && (!paths::leads(
                library,
                src,
            ) ==> folder_for(d, library, fence, src) == Some(library)),
        },
{
}

} // verus!
