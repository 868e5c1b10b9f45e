//! Keeping fences in step with the disk: the library, the folders that fences mirror, and
//! the items that are there when the program starts.

use vstd::prelude::*;
use vstd::string::*;

use crate::chars;
use crate::chars::lower_of;
use crate::geometry::Rect;
use crate::intake;
use crate::items;
use crate::items::{enrich, DesktopItem, FileMeta};
use crate::lists;
use crate::lists::{copy_texts, has};
use crate::model::{copy_text, Desk, Fence, FenceAppearance, FenceLayout, FenceState, Icon, SidebarPosition};
use crate::paths;
use crate::paths::{path_in_or_at, path_within};
use crate::scalar;
use crate::scalar::{whole_number, Scalar};
use crate::stock;
use crate::stock::{find_item, Stock};

verus! {

/// What a filter keeps.
proof fn lemma_filter(s: Seq<Seq<char>>, p: spec_fn(Seq<char>) -> bool)
    ensures
        forall|x: Seq<char>| #[trigger] s.filter(p).contains(x) <==> s.contains(x) && p(x),
        s.no_duplicates() ==> s.filter(p).no_duplicates(),
    decreases s.len(),
{
    reveal(Seq::filter);
    if s.len() > 0 {
        let t = s.drop_last();
        let e = s.last();
        lemma_filter(t, p);
        assert(s =~= t.push(e));
        assert forall|x: Seq<char>| #[trigger] s.filter(p).contains(x) <==> s.contains(x) && p(x) by {
            if s.filter(p).contains(x) {
                let i = choose|i: int| 0 <= i < s.filter(p).len() && s.filter(p)[i] == x;
                if i < t.filter(p).len() {
                    assert(t.filter(p)[i] == x);
                    assert(t.filter(p).contains(x));
                    let j = choose|j: int| 0 <= j < t.len() && t[j] == x;
                    assert(s[j] == x);
                } else {
                    assert(s[s.len() - 1] == x);
                }
            }
            if s.contains(x) && p(x) {
                let j = choose|j: int| 0 <= j < s.len() && s[j] == x;
                if j < t.len() {
                    assert(t[j] == x);
                    assert(t.filter(p).contains(x));
                    let i = choose|i: int| 0 <= i < t.filter(p).len() && t.filter(p)[i] == x;
                    assert(s.filter(p)[i] == x);
                } else {
                    assert(s.filter(p)[s.filter(p).len() - 1] == x);
                }
            }
        }
        if s.no_duplicates() {
            assert(t.no_duplicates()) by {
                assert forall|i: int, j: int| 0 <= i < t.len() && 0 <= j < t.len() && i != j implies t[i] != t[j] by {
                    assert(s[i] == t[i] && s[j] == t[j]);
                }
            }
            assert forall|i: int, j: int|
                0 <= i < s.filter(p).len() && 0 <= j < s.filter(p).len() && i != j implies s.filter(p)[i] != s.filter(
                p,
            )[j] by {
                let w = t.filter(p);
                if i < w.len() && j < w.len() {
                    assert(w[i] != w[j]);
                } else {
                    let k = if i < w.len() {
                        i
                    } else {
                        j
                    };
                    if k < w.len() {
                        assert(w.contains(w[k]));
                        let m = choose|m: int| 0 <= m < t.len() && t[m] == w[k];
                        assert(s[m] != s[s.len() - 1]);
                    }
                }
            }
        }
    }
}

/// Whether the icon was taken into the library and its file is among those missing.
pub open spec fn lost(icons: Map<Seq<char>, Icon>, library: Seq<char>, missing: Seq<Seq<char>>) -> spec_fn(
    Seq<char>,
) -> bool {
    |id: Seq<char>|
        intake::is_added(icons, id) && (intake::path_at(icons, id) matches Some(p) && paths::leads(library, p)
            && missing.contains(p))
}

/// `ids` are the icons whose files are missing, each once.
pub open spec fn lists_lost(
    ids: Seq<Seq<char>>,
    icons: Map<Seq<char>, Icon>,
    library: Seq<char>,
    missing: Seq<Seq<char>>,
) -> bool {
    &&& ids.no_duplicates()
    &&& forall|x: Seq<char>| #[trigger] ids.contains(x) <==> lost(icons, library, missing)(x)
}

fn lost_icons<S>(desk: &Desk<S>, library: &str, missing: &Vec<String>) -> (r: Vec<String>)
    ensures
        lists_lost(chars::texts(r@), desk.icons@, library@, chars::texts(missing@)),
{
    let keys = desk.icons.key_list();
    let ghost t = chars::texts(keys@);
    let ghost keep = lost(desk.icons@, library@, chars::texts(missing@));
    let mut out: Vec<String> = Vec::new();
    let mut i: usize = 0;
    proof {
        reveal(Seq::filter);
        assert(chars::texts(out@) =~= t.take(0).filter(keep));
    }
    while i < keys.len()
        invariant
            i <= keys.len(),
            t == chars::texts(keys@),
            keep == lost(desk.icons@, library@, chars::texts(missing@)),
            chars::texts(out@) == t.take(i as int).filter(keep),
        decreases keys.len() - i,
    {
        proof {
            reveal(Seq::filter);
            assert(t.take(i + 1).drop_last() =~= t.take(i as int));
            assert(t[i as int] == keys@[i as int]@);
        }
        if let Some(ic) = desk.icons.get(keys[i].as_str()) {
            if ic.added {
                if let Some(p) = &ic.path {
                    if path_in_or_at(library, p.as_str()) && has(missing, p.as_str()) {
                        let ghost o = out@;
                        out.push(keys[i].clone());
                        proof {
                            lists::lemma_texts_push(o, keys@[i as int]);
                        }
                    }
                }
            }
        }
        i += 1;
    }
    proof {
        assert(t.take(i as int) =~= t);
        lemma_filter(t, keep);
    }
    out
}

/// The paths of the icons that were taken into the library.
pub fn library_paths<S>(desk: &Desk<S>, library: &str) -> (r: Vec<String>)
    ensures
        forall|p: Seq<char>| #[trigger]
            chars::texts(r@).contains(p) <==> exists|id: Seq<char>|
                intake::is_added(desk.icons@, id) && #[trigger] intake::path_at(desk.icons@, id) == Some(p)
                    && paths::leads(library@, p),
{
    let keys = desk.icons.key_list();
    let ghost t = chars::texts(keys@);
    let mut out: Vec<String> = Vec::new();
    let mut i: usize = 0;
    while i < keys.len()
        invariant
            i <= keys.len(),
            t == chars::texts(keys@),
            forall|p: Seq<char>| #[trigger]
                chars::texts(out@).contains(p) <==> exists|j: int|
                    0 <= j < i && intake::is_added(desk.icons@, t[j]) && #[trigger] intake::path_at(desk.icons@, t[j])
                        == Some(p) && paths::leads(library@, p),
        decreases keys.len() - i,
    {
        let ghost o = out@;
        let ghost before = chars::texts(out@);
        proof {
            assert(t[i as int] == keys@[i as int]@);
        }
        if let Some(ic) = desk.icons.get(keys[i].as_str()) {
            if ic.added {
                if let Some(p) = &ic.path {
                    if path_in_or_at(library, p.as_str()) {
                        out.push(p.clone());
                        proof {
                            lists::lemma_texts_push(o, *p);
                        }
                    }
                }
            }
        }
        proof {
            let k = i as int;
            let now = chars::texts(out@);
            assert forall|p: Seq<char>| #[trigger] now.contains(p) <==> exists|j: int|
                0 <= j < i + 1 && intake::is_added(desk.icons@, t[j]) && #[trigger] intake::path_at(desk.icons@, t[j])
                    == Some(p) && paths::leads(library@, p) by {
                let here = intake::is_added(desk.icons@, t[k]) && intake::path_at(desk.icons@, t[k]) == Some(p)
                    && paths::leads(library@, p);
                if now.contains(p) {
                    let m = choose|m: int| 0 <= m < now.len() && now[m] == p;
                    if m < before.len() {
                        assert(before[m] == p);
                        assert(before.contains(p));
                    } else {
                        assert(here);
                    }
                }
                if before.contains(p) {
                    let m = choose|m: int| 0 <= m < before.len() && before[m] == p;
                    assert(now[m] == p);
                }
                if here {
                    assert(now[now.len() - 1] == p);
                }
            }
        }
        i += 1;
    }
    proof {
        assert forall|p: Seq<char>| #[trigger] chars::texts(out@).contains(p) <==> exists|id: Seq<char>|
            intake::is_added(desk.icons@, id) && #[trigger] intake::path_at(desk.icons@, id) == Some(p)
                && paths::leads(library@, p) by {
            if exists|id: Seq<char>|
                intake::is_added(desk.icons@, id) && #[trigger] intake::path_at(desk.icons@, id) == Some(p)
                    && paths::leads(library@, p) {
                let id = choose|id: Seq<char>|
                    intake::is_added(desk.icons@, id) && #[trigger] intake::path_at(desk.icons@, id) == Some(p)
                        && paths::leads(library@, p);
                assert(desk.icons@.dom().contains(id));
                assert(t.contains(id));
                let j = choose|j: int| 0 <= j < t.len() && t[j] == id;
                assert(intake::path_at(desk.icons@, t[j]) == Some(p));
            }
        }
    }
    out
}

impl<S> Stock<S> {
    /// Takes the icons out whose files have gone from the library, `missing` being the paths
    /// at which nothing was found; gives whether there were any.
    pub fn reconcile_library(&mut self, library: &str, missing: &Vec<String>) -> (changed: bool)
        ensures
            stock::kept(old(self).desk, final(self).desk),
            exists|ids: Seq<Seq<char>>|
                #[trigger] lists_lost(ids, old(self).desk.icons@, library@, chars::texts(missing@)) && final(self)@
                    == intake::emptied_all(old(self)@, ids, ids.len() as int) && changed == (ids.len() > 0),
    {
        let ids = lost_icons(&self.desk, library, missing);
        self.remove_icons(&ids);
        ids.len() > 0
    }
}

/// Whether a member of the fence lies in the folder at a path that is `low` in lower case.
pub open spec fn mirrored<S>(d: Desk<S>, fence: int, dir: Seq<char>, low: Seq<char>) -> bool {
    exists|j: int|
        0 <= j < intake::members_of(d, fence).len() && (intake::path_at(
            d.icons@,
            #[trigger] intake::members_of(d, fence)[j],
        ) matches Some(p) && paths::strictly_within(dir, p) && chars::ascii_lower(p) == low)
}

/// Whether an entry of the folder is `low` in lower case.
pub open spec fn listed(entries: Seq<Seq<char>>, low: Seq<char>) -> bool {
    exists|j: int| 0 <= j < entries.len() && chars::ascii_lower(#[trigger] entries[j]) == low
}

/// The fence shows what is in the folder, and nothing else of it.
pub open spec fn in_step<S>(d: Desk<S>, fence: int, dir: Seq<char>, entries: Seq<Seq<char>>) -> bool {
    forall|low: Seq<char>| #[trigger] mirrored(d, fence, dir, low) <==> listed(entries, low)
}

/// Whether an entry of the folder is not in the fence yet.
pub open spec fn unseen<S>(d: Desk<S>, fence: int, dir: Seq<char>) -> spec_fn(Seq<char>) -> bool {
    |e: Seq<char>| !mirrored(d, fence, dir, chars::ascii_lower(e))
}

fn mirrored_paths<S>(desk: &Desk<S>, fence: usize, dir: &str) -> (r: Vec<String>)
    ensures
        forall|low: Seq<char>| #[trigger]
            chars::texts(r@).contains(low) <==> mirrored(*desk, fence as int, dir@, low),
{
    let mut out: Vec<String> = Vec::new();
    if fence >= desk.fences.len() {
        return out;
    }
    let ids = &desk.fences[fence].icon_ids;
    let ghost t = chars::texts(ids@);
    let mut i: usize = 0;
    while i < ids.len()
        invariant
            i <= ids.len(),
            t == chars::texts(ids@),
            forall|low: Seq<char>| #[trigger]
                chars::texts(out@).contains(low) <==> exists|j: int|
                    0 <= j < i && (intake::path_at(desk.icons@, #[trigger] t[j]) matches Some(p)
                        && paths::strictly_within(dir@, p) && chars::ascii_lower(p) == low),
        decreases ids.len() - i,
    {
        let ghost o = out@;
        let ghost before = chars::texts(out@);
        proof {
            assert(t[i as int] == ids@[i as int]@);
        }
        if let Some(ic) = desk.icons.get(ids[i].as_str()) {
            if let Some(p) = &ic.path {
                if path_within(dir, p.as_str()) {
                    let low = lower_of(p.as_str());
                    out.push(low);
                    proof {
                        lists::lemma_texts_push(o, low);
                    }
                }
            }
        }
        proof {
            let k = i as int;
            let now = chars::texts(out@);
            assert forall|low: Seq<char>| #[trigger] now.contains(low) <==> exists|j: int|
                0 <= j < i + 1 && (intake::path_at(desk.icons@, #[trigger] t[j]) matches Some(p)
                    && paths::strictly_within(dir@, p) && chars::ascii_lower(p) == low) by {
                let here = intake::path_at(desk.icons@, t[k]) matches Some(p) && paths::strictly_within(dir@, p)
                    && chars::ascii_lower(p) == low;
                if now.contains(low) {
                    let m = choose|m: int| 0 <= m < now.len() && now[m] == low;
                    if m < before.len() {
                        assert(before[m] == low);
                        assert(before.contains(low));
                    } else {
                        assert(here);
                    }
                }
                if before.contains(low) {
                    let m = choose|m: int| 0 <= m < before.len() && before[m] == low;
                    assert(now[m] == low);
                }
                if here {
                    assert(now[now.len() - 1] == low);
                }
            }
        }
        i += 1;
    }
    proof {
        assert(t == intake::members_of(*desk, fence as int));
    }
    out
}

/// The entries of the folder that the fence does not have yet; `None` where the fence is in
/// step with it.
pub fn plan_mirror<S>(desk: &Desk<S>, fence: usize, dir: &str, entries: &Vec<String>) -> (r: Option<Vec<String>>)
    ensures
        r is None <==> in_step(*desk, fence as int, dir@, chars::texts(entries@)),
        r matches Some(v) ==> chars::texts(v@) == chars::texts(entries@).filter(
            unseen(*desk, fence as int, dir@),
        ),
{
    let ghost t = chars::texts(entries@);
    let ghost keep = unseen(*desk, fence as int, dir@);
    let there = mirrored_paths(desk, fence, dir);
    let mut lows: Vec<String> = Vec::new();
    let mut add: Vec<String> = Vec::new();
    let mut i: usize = 0;
    proof {
        reveal(Seq::filter);
        assert(chars::texts(add@) =~= t.take(0).filter(keep));
    }
    while i < entries.len()
        invariant
            i <= entries.len(),
            t == chars::texts(entries@),
            keep == unseen(*desk, fence as int, dir@),
            lows.len() == i,
            forall|j: int| 0 <= j < i ==> (#[trigger] lows@[j])@ == chars::ascii_lower(t[j]),
            forall|low: Seq<char>| #[trigger]
                chars::texts(there@).contains(low) <==> mirrored(*desk, fence as int, dir@, low),
            chars::texts(add@) == t.take(i as int).filter(keep),
        decreases entries.len() - i,
    {
        proof {
            reveal(Seq::filter);
            assert(t.take(i + 1).drop_last() =~= t.take(i as int));
            assert(t[i as int] == entries@[i as int]@);
        }
        let low = lower_of(entries[i].as_str());
        let known = has(&there, low.as_str());
        if !known {
            let ghost o = add@;
            add.push(entries[i].clone());
            proof {
                lists::lemma_texts_push(o, entries@[i as int]);
            }
        }
        lows.push(low);
        i += 1;
    }
    proof {
        assert(t.take(i as int) =~= t);
        lemma_filter(t, keep);
        assert forall|low: Seq<char>| #[trigger] chars::texts(lows@).contains(low) <==> listed(t, low) by {
            if chars::texts(lows@).contains(low) {
                let m = choose|m: int| 0 <= m < lows@.len() && chars::texts(lows@)[m] == low;
                assert(lows@[m]@ == low);
                assert(chars::ascii_lower(t[m]) == low);
            }
            if listed(t, low) {
                let m = choose|m: int| 0 <= m < t.len() && chars::ascii_lower(#[trigger] t[m]) == low;
                assert(lows@[m]@ == low);
                assert(chars::texts(lows@)[m] == low);
            }
        }
    }
    if add.len() > 0 {
        proof {
            assert(chars::texts(add@)[0] == add@[0]@);
            assert(t.filter(keep).contains(add@[0]@));
            let e = add@[0]@;
            let m = choose|m: int| 0 <= m < t.len() && t[m] == e;
            assert(listed(t, chars::ascii_lower(e)));
        }
        return Some(add);
    }
    let mut k: usize = 0;
    while k < there.len()
        invariant
            k <= there.len(),
            t == chars::texts(entries@),
            keep == unseen(*desk, fence as int, dir@),
            chars::texts(add@) == t.filter(keep),
            add.len() == 0,
            forall|low: Seq<char>| #[trigger] chars::texts(lows@).contains(low) <==> listed(t, low),
            forall|low: Seq<char>| #[trigger]
                chars::texts(there@).contains(low) <==> mirrored(*desk, fence as int, dir@, low),
            forall|j: int| 0 <= j < k ==> listed(t, (#[trigger] there@[j])@),
        decreases there.len() - k,
    {
        let still = has(&lows, there[k].as_str());
        if !still {
            proof {
                let low = there@[k as int]@;
                assert(chars::texts(there@)[k as int] == low);
                assert(chars::texts(there@).contains(low));
                assert(mirrored(*desk, fence as int, dir@, low));
                assert(!chars::texts(lows@).contains(low));
                assert(!listed(t, low));
            }
            return Some(add);
        }
        proof {
            assert(chars::texts(lows@).contains(there@[k as int]@));
        }
        k += 1;
    }
    proof {
        lemma_filter(t, keep);
        assert forall|low: Seq<char>| #[trigger] mirrored(*desk, fence as int, dir@, low) <==> listed(t, low) by {
            if mirrored(*desk, fence as int, dir@, low) {
                assert(chars::texts(there@).contains(low));
                let m = choose|m: int| 0 <= m < there@.len() && chars::texts(there@)[m] == low;
                assert(there@[m]@ == low);
                assert(listed(t, there@[m]@));
            }
            if listed(t, low) {
                let m = choose|m: int| 0 <= m < t.len() && chars::ascii_lower(#[trigger] t[m]) == low;
                if !mirrored(*desk, fence as int, dir@, low) {
                    assert(keep(t[m]));
                    assert(t.contains(t[m]));
                    assert(t.filter(keep).contains(t[m]));
                    assert(chars::texts(add@).len() == 0);
                }
            }
        }
    }
    None
}

/// Whether the icon lies in the folder and its file is among those missing.
pub open spec fn vanished(icons: Map<Seq<char>, Icon>, dir: Seq<char>, missing: Seq<Seq<char>>, id: Seq<char>) -> bool {
    intake::path_at(icons, id) matches Some(p) && paths::strictly_within(dir, p) && missing.contains(p)
}

/// The holdings after those of the first `n` icons whose files have vanished were taken out.
pub open spec fn swept(h: stock::Holdings, ids: Seq<Seq<char>>, dir: Seq<char>, missing: Seq<Seq<char>>, n: int) -> stock::Holdings
    decreases n,
{
    if n <= 0 {
        h
    } else {
        let g = swept(h, ids, dir, missing, n - 1);
        if vanished(g.icons, dir, missing, ids[n - 1]) {
            stock::emptied(g, ids[n - 1])
        } else {
            g
        }
    }
}

/// Whether any of the first `n` icons is taken out when its turn comes.
pub open spec fn any_vanished(h: stock::Holdings, ids: Seq<Seq<char>>, dir: Seq<char>, missing: Seq<Seq<char>>, n: int) -> bool {
    exists|i: int| 0 <= i < n && vanished(swept(h, ids, dir, missing, i).icons, dir, missing, #[trigger] ids[i])
}

impl<S> Stock<S> {
    /// Takes the members out of a fence whose files have gone from its folder, `missing`
    /// being the paths at which nothing was found; gives whether there were any.
    pub fn sweep_fence(&mut self, fence: usize, dir: &str, missing: &Vec<String>) -> (changed: bool)
        ensures
            stock::kept(old(self).desk, final(self).desk),
            ({
                let ids = intake::members_of(old(self).desk, fence as int);
                &&& final(self)@ == swept(old(self)@, ids, dir@, chars::texts(missing@), ids.len() as int)
                &&& changed == any_vanished(old(self)@, ids, dir@, chars::texts(missing@), ids.len() as int)
            }),
    {
        if fence >= self.desk.fences.len() {
            return false;
        }
        let ghost a = *self;
        let ids = copy_texts(&self.desk.fences[fence].icon_ids);
        let ghost t = chars::texts(ids@);
        let ghost gone = chars::texts(missing@);
        let mut changed = false;
        let mut i: usize = 0;
        while i < ids.len()
            invariant
                i <= ids.len(),
                t == chars::texts(ids@),
                gone == chars::texts(missing@),
                stock::kept(a.desk, self.desk),
                self@ == swept(a@, t, dir@, gone, i as int),
                changed == any_vanished(a@, t, dir@, gone, i as int),
            decreases ids.len() - i,
        {
            let ghost b = *self;
            proof {
                assert(t[i as int] == ids@[i as int]@);
            }
            let id = ids[i].as_str();
            let lost = match self.desk.icons.get(id) {
                Some(ic) => match &ic.path {
                    Some(p) => path_within(dir, p.as_str()) && has(missing, p.as_str()),
                    None => false,
                },
                None => false,
            };
            proof {
                assert(lost == vanished(b@.icons, dir@, gone, t[i as int]));
                if lost {
                    assert(any_vanished(a@, t, dir@, gone, i + 1));
                } else {
                    assert(any_vanished(a@, t, dir@, gone, i + 1) ==> any_vanished(a@, t, dir@, gone, i as int));
                }
            }
            if lost {
                self.remove_icon_entirely(id);
                changed = true;
                proof {
                    intake::lemma_kept_twice(a.desk, b.desk, self.desk);
                }
            }
            i += 1;
        }
        changed
    }
}

/// The path from which a member of a fence that mirrors a folder is to be moved into that
/// folder: its own, where that is in the library.
pub fn path_to_rehome<S>(desk: &Desk<S>, library: &str, id: &str) -> (r: Option<String>)
    ensures
        match r {
            Some(p) => intake::path_at(desk.icons@, id@) == Some(p@) && paths::leads(library@, p@),
            None => !(intake::path_at(desk.icons@, id@) matches Some(p) && paths::leads(library@, p)),
        },
{
    match desk.icons.get(id) {
        Some(ic) => match &ic.path {
            Some(p) => if path_in_or_at(library, p.as_str()) {
                Some(p.clone())
            } else {
                None
            },
            None => None,
        },
        None => None,
    }
}

/// `b` is what `a` becomes when an item is found on the desktop.
pub open spec fn found(
    a: Map<Seq<char>, Icon>,
    b: Map<Seq<char>, Icon>,
    item: DesktopItem,
    meta: Option<FileMeta>,
) -> bool {
    let id = item.id@;
    &&& b == a.insert(id, b[id])
    &&& b[id].path == item.path
    &&& !b[id].added
    &&& if a.dom().contains(id) {
        let was = Icon { path: item.path, added: false, ..a[id] };
        if item.path is Some {
            items::enriched(was, b[id], meta)
        } else {
            b[id] == was
        }
    } else {
        &&& b[id].id@ == id
        &&& b[id].display_name@ == item.display_name@
        &&& b[id].kind == item.kind
        &&& item.path is Some ==> b[id].type_label@ == crate::details::label_text(item.kind, item.display_name@)
        &&& item.path is None ==> b[id].type_label@.len() == 0
        &&& b[id].size_bytes == match meta {
            Some(m) => if item.path is Some && m.is_file {
                Some(m.len)
            } else {
                None
            },
            None => None,
        }
        &&& b[id].modified_secs == match meta {
            Some(m) => if item.path is Some && m.dated {
                m.modified
            } else {
                None
            },
            None => None,
        }
    }
}

/// Notes an item that was found on the desktop, with what the file system tells of it.
pub fn note_item<S>(desk: &mut Desk<S>, item: &DesktopItem, meta: Option<FileMeta>)
    ensures
        final(desk).same_but_fences(Desk { icons: final(desk).icons, ..*old(desk) }),
        final(desk).fences == old(desk).fences,
        found(old(desk).icons@, final(desk).icons@, *item, meta),
{
    let ghost a = desk.icons@;
    let mut ic = match desk.icons.get(item.id.as_str()) {
        Some(ic) => ic.clone(),
        None => Icon::new(item.id.clone(), item.display_name.clone(), item.kind),
    };
    ic.path = copy_text(&item.path);
    ic.added = false;
    if item.path.is_some() {
        enrich(&mut ic, meta);
    }
    desk.icons.insert(item.id.clone(), ic);
}

/// The icons that have a path and no item behind them.
pub open spec fn itemless(h: stock::Holdings) -> spec_fn(Seq<char>) -> bool {
    |id: Seq<char>|
        h.icons.dom().contains(id) && h.icons[id].path is Some && stock::last_item(
            h.items,
            id,
            h.items.len() as int,
        ) == -1
}

impl<S> Stock<S> {
    /// The icons that have a path and no item behind them: those that were taken in when the
    /// program ran before.
    pub fn icons_to_restore(&self) -> (r: Vec<String>)
        ensures
            chars::texts(r@).no_duplicates(),
            forall|x: Seq<char>| #[trigger] chars::texts(r@).contains(x) <==> itemless(self@)(x),
    {
        let keys = self.desk.icons.key_list();
        let ghost t = chars::texts(keys@);
        let ghost keep = itemless(self@);
        let mut out: Vec<String> = Vec::new();
        let mut i: usize = 0;
        proof {
            reveal(Seq::filter);
            assert(chars::texts(out@) =~= t.take(0).filter(keep));
        }
        while i < keys.len()
            invariant
                i <= keys.len(),
                t == chars::texts(keys@),
                keep == itemless(self@),
                chars::texts(out@) == t.take(i as int).filter(keep),
            decreases keys.len() - i,
        {
            proof {
                reveal(Seq::filter);
                assert(t.take(i + 1).drop_last() =~= t.take(i as int));
                assert(t[i as int] == keys@[i as int]@);
            }
            if let Some(ic) = self.desk.icons.get(keys[i].as_str()) {
                if ic.path.is_some() && find_item(&self.items, keys[i].as_str()).is_none() {
                    let ghost o = out@;
                    out.push(keys[i].clone());
                    proof {
                        lists::lemma_texts_push(o, keys@[i as int]);
                    }
                }
            }
            i += 1;
        }
        proof {
            assert(t.take(i as int) =~= t);
            lemma_filter(t, keep);
        }
        out
    }
}

/// The fence that a desk without fences starts with: a sidebar at the top that mirrors the
/// folder of the desktop, if that is known.
pub open spec fn is_first_fence<S: Scalar>(f: Fence<S>, dir: Option<Seq<char>>) -> bool {
    let zero = scalar::num::<S>(0);
    &&& f.id == 1
    &&& f.title matches Some(t) && t@ == "桌面"@
    &&& f.monitor_id == 0
    &&& f.bounds == (Rect { x: zero, y: zero, w: zero, h: zero })
    &&& f.state == FenceState::Expanded
    &&& f.icon_ids.len() == 0
    &&& exists|app: FenceAppearance<S>|
        app.usual() && f.appearance == (FenceAppearance {
            layout: FenceLayout::Sidebar,
            sidebar_pos: SidebarPosition::Top,
            ..app
        })
    &&& f.scroll == zero
    &&& match dir {
        Some(d) => if d.len() == 0 {
            f.storage_path is None
        } else {
            f.storage_path matches Some(s) && s@ == d
        },
        None => f.storage_path is None,
    }
    &&& !f.sidebar_collapsed
}

/// Gives a desk without fences its first one; any other desk stays as it is.
pub fn seed_fences<S: Scalar>(desk: &mut Desk<S>, desktop_dir: Option<String>)
    ensures
        old(desk).fences.len() > 0 ==> *final(desk) == *old(desk),
        old(desk).fences.len() == 0 ==> {
            &&& final(desk).same_but_fences(*old(desk))
            &&& final(desk).fences.len() == 1
            &&& is_first_fence(
                final(desk).fences[0],
                match desktop_dir {
                    Some(d) => Some(d@),
                    None => None,
                },
            )
        },
{
    if desk.fences.len() > 0 {
        return;
    }
    let storage_path = match desktop_dir {
        Some(d) => if chars::chars_of(d.as_str()).len() == 0 {
            None
        } else {
            Some(d)
        },
        None => None,
    };
    let usual = FenceAppearance::<S>::default();
    let ghost app = usual;
    let mut appearance = usual;
    appearance.layout = FenceLayout::Sidebar;
    appearance.sidebar_pos = SidebarPosition::Top;
    let zero = whole_number::<S>(0);
    let f = Fence {
        id: desk.next_fence_id(),
        title: Some("桌面".to_owned()),
        monitor_id: 0,
        bounds: Rect { x: zero, y: zero, w: zero, h: zero },
        state: FenceState::Expanded,
        icon_ids: Vec::new(),
        appearance,
        scroll: zero,
        storage_path,
        sidebar_collapsed: false,
    };
    proof {
        assert(app.usual());
    }
    desk.fences.push(f);
}

/// An entry of the folder that was taken in is seen in the fence.
pub proof fn law_taken_in_is_mirrored<S>(
    a: Stock<S>,
    b: Stock<S>,
    fence: int,
    dir: Seq<char>,
    item: DesktopItem,
    path: Seq<char>,
    meta: Option<FileMeta>,
)
    requires
        0 <= fence < a.desk.fences.len(),
        intake::taken_in(a@, b@, fence, item, path, meta),
        paths::strictly_within(dir, path),
    ensures
        mirrored(b.desk, fence, dir, chars::ascii_lower(path)),
{
    let id = item.id@;
    let was = a@.places.members[fence];
    let m = intake::members_of(b.desk, fence);
    assert(b@.places.members.len() == a@.places.members.len());
    assert(b@.places.members[fence] == was.push(id));
    assert(m == was.push(id));
    assert(m[was.len() as int] == id);
    assert(intake::path_at(b.desk.icons@, m[was.len() as int]) == Some(path));
}

/// An icon whose file is still there, that lies elsewhere than in the library, or that was not
/// taken in, is not lost.
pub proof fn law_only_missing_is_lost(
    icons: Map<Seq<char>, Icon>,
    library: Seq<char>,
    missing: Seq<Seq<char>>,
    id: Seq<char>,
    p: String,
)
    requires
        icons.dom().contains(id),
        icons[id].path == Some(p),
    ensures
        !missing.contains(p@) ==> !lost(icons, library, missing)(id),
        !paths::leads(library, p@) ==> !lost(icons, library, missing)(id),
        !icons[id].added ==> !lost(icons, library, missing)(id),
        icons[id].added && missing.contains(p@) && paths::leads(library, p@) ==> lost(icons, library, missing)(id),
{
}

/// Sweeping a fence takes out exactly those of its members whose files have gone from its
/// folder: an icon is left if and only if it was there and is not one of them.
pub proof fn law_sweep_takes_only_vanished(
    h: stock::Holdings,
    ids: Seq<Seq<char>>,
    dir: Seq<char>,
    missing: Seq<Seq<char>>,
    n: int,
    x: Seq<char>,
)
    requires
        0 <= n <= ids.len(),
    ensures
        ({
            let g = swept(h, ids, dir, missing, n);
            let gone = h.icons.dom().contains(x) && (h.icons[x].path matches Some(p) && paths::strictly_within(dir, p@)
                && missing.contains(p@)) && exists|k: int| 0 <= k < n && #[trigger] ids[k] == x;
            &&& g.icons.dom().contains(x) <==> h.icons.dom().contains(x) && !gone
            &&& g.icons.dom().contains(x) ==> g.icons[x] == h.icons[x]
        }),
    decreases n,
{
    if n > 0 {
        law_sweep_takes_only_vanished(h, ids, dir, missing, n - 1, x);
        assert(ids[n - 1] == ids[n - 1]);
    }
}

/// A sweep tells whether it changed anything: where no file has vanished, all stays.
pub proof fn law_quiet_sweep_changes_nothing(
    h: stock::Holdings,
    ids: Seq<Seq<char>>,
    dir: Seq<char>,
    missing: Seq<Seq<char>>,
    n: int,
)
    requires
        0 <= n <= ids.len(),
        !any_vanished(h, ids, dir, missing, n),
    ensures
        swept(h, ids, dir, missing, n) == h,
    decreases n,
{
    if n > 0 {
        assert(!any_vanished(h, ids, dir, missing, n - 1)) by {
            if any_vanished(h, ids, dir, missing, n - 1) {
                let i = choose|i: int|
                    0 <= i < n - 1 && vanished(swept(h, ids, dir, missing, i).icons, dir, missing, #[trigger] ids[i]);
                assert(any_vanished(h, ids, dir, missing, n));
            }
        }
        law_quiet_sweep_changes_nothing(h, ids, dir, missing, n - 1);
        assert(!vanished(swept(h, ids, dir, missing, n - 1).icons, dir, missing, ids[n - 1]));
    }
}

} // verus!
