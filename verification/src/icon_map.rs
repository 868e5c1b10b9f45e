//! Icons by their identifier.

use vstd::prelude::*;
use vstd::string::*;

use crate::chars::same;
use crate::model::Icon;

verus! {

/// The metadata of icons, each under its own key.
#[derive(Debug)]
pub struct IconMap {
    entries: Vec<(String, Icon)>,
}

/// The keys of `entries`.
pub open spec fn keys_of(entries: Seq<(String, Icon)>) -> Seq<Seq<char>> {
    entries.map_values(|e: (String, Icon)| e.0@)
}

impl IconMap {
    /// The keys, in the order of insertion.
    pub closed spec fn keys(self) -> Seq<Seq<char>> {
        keys_of(self.entries@)
    }

    #[verifier::type_invariant]
    closed spec fn wf(self) -> bool {
        keys_of(self.entries@).no_duplicates()
    }

    /// The icon under each key.
    pub closed spec fn view(self) -> Map<Seq<char>, Icon> {
        Map::new(
            |k: Seq<char>| self.keys().contains(k),
            |k: Seq<char>| self.entries@[self.keys().index_of(k)].1,
        )
    }

    pub fn new() -> (m: Self)
        ensures
            m@ == Map::<Seq<char>, Icon>::empty(),
            m.keys() == Seq::<Seq<char>>::empty(),
    {
        let m = IconMap { entries: Vec::new() };
        proof {
            assert(m.keys() =~= Seq::<Seq<char>>::empty());
            assert(m@ =~= Map::<Seq<char>, Icon>::empty());
        }
        m
    }

    /// How many icons there are.
    pub fn len(&self) -> (n: usize)
        ensures
            n == self.keys().len(),
    {
        self.entries.len()
    }

    fn find(&self, key: &str) -> (r: Option<usize>)
        ensures
            match r {
                Some(i) => i < self.entries.len() && self.keys()[i as int] == key@ && self.keys().index_of(key@)
                    == i && self@.dom().contains(key@) && self@[key@] == self.entries@[i as int].1,
                None => !self@.dom().contains(key@) && !self.keys().contains(key@),
            },
    {
        proof {
            use_type_invariant(self);
        }
        let ghost t = self.keys();
        let mut i: usize = 0;
        while i < self.entries.len()
            invariant
                i <= self.entries.len(),
                self.wf(),
                t == self.keys(),
                forall|j: int| 0 <= j < i ==> t[j] != key@,
            decreases self.entries.len() - i,
        {
            proof {
                assert(t[i as int] == self.entries@[i as int].0@);
            }
            if same(self.entries[i].0.as_str(), key) {
                proof {
                    assert(t.contains(key@));
                    let k = t.index_of(key@);
                    assert(t[k] == key@);
                }
                return Some(i);
            }
            i += 1;
        }
        None
    }

    /// Whether there is an icon under `key`.
    pub fn contains_key(&self, key: &str) -> (r: bool)
        ensures
            r == self@.dom().contains(key@),
    {
        self.find(key).is_some()
    }

    /// The icon under `key`.
    pub fn get(&self, key: &str) -> (r: Option<&Icon>)
        ensures
            match r {
                Some(icon) => self@.dom().contains(key@) && *icon == self@[key@],
                None => !self@.dom().contains(key@),
            },
    {
        match self.find(key) {
            Some(i) => Some(&self.entries[i].1),
            None => None,
        }
    }

    /// Puts `icon` under `key`, in place of the icon there.
    pub fn insert(&mut self, key: String, icon: Icon)
        ensures
            final(self)@ == old(self)@.insert(key@, icon),
    {
        proof {
            use_type_invariant(&*self);
        }
        let at = self.find(key.as_str());
        let ghost before = *self;
        let mut entries: Vec<(String, Icon)> = Vec::new();
        proof {
            assert(keys_of(entries@) =~= Seq::<Seq<char>>::empty());
        }
        std::mem::swap(&mut entries, &mut self.entries);
        match at {
            Some(i) => {
                entries.set(i, (key, icon));
                proof {
                    assert(keys_of(entries@) =~= before.keys());
                }
            },
            None => {
                entries.push((key, icon));
                proof {
                    assert(keys_of(entries@) =~= before.keys().push(key@));
                }
            },
        }
        proof {
            let t = keys_of(entries@);
            let b = before.keys();
            assert(t.no_duplicates()) by {
                assert forall|i: int, j: int| 0 <= i < t.len() && 0 <= j < t.len() && i != j implies t[i] != t[j] by {
                    if i < b.len() && j < b.len() {
                        assert(t[i] == b[i] && t[j] == b[j]);
                    } else if i < b.len() {
                        assert(t[i] == b[i]);
                        assert(b.contains(b[i]));
                    } else {
                        assert(t[j] == b[j]);
                        assert(b.contains(b[j]));
                    }
                }
            }
            lemma_inserted(before.entries@, entries@, key, icon);
        }
        *self = IconMap { entries };
        proof {
            assert(self@ =~= before@.insert(key@, icon));
        }
    }

    /// Takes the icon under `key` away.
    pub fn remove(&mut self, key: &str)
        ensures
            final(self)@ == old(self)@.remove(key@),
    {
        proof {
            use_type_invariant(&*self);
        }
        let ghost before = *self;
        match self.find(key) {
            Some(i) => {
                let mut entries: Vec<(String, Icon)> = Vec::new();
                proof {
                    assert(keys_of(entries@) =~= Seq::<Seq<char>>::empty());
                }
                std::mem::swap(&mut entries, &mut self.entries);
                let _ = entries.remove(i);
                proof {
                    assert(keys_of(entries@) =~= before.keys().remove(i as int));
                    lemma_removed(before.entries@, entries@, key@, i as int);
                }
                *self = IconMap { entries };
                proof {
                    assert(self@ =~= before@.remove(key@));
                }
            },
            None => {
                proof {
                    assert(self@ =~= self@.remove(key@));
                }
            },
        }
    }

    /// The keys, in the order of insertion.
    pub fn key_list(&self) -> (r: Vec<String>)
        ensures
            crate::chars::texts(r@) == self.keys(),
            forall|k: Seq<char>| self.keys().contains(k) <==> #[trigger] self@.dom().contains(k),
            self.keys().no_duplicates(),
    {
        proof {
            use_type_invariant(self);
        }
        let mut out: Vec<String> = Vec::new();
        let mut i: usize = 0;
        while i < self.entries.len()
            invariant
                i <= self.entries.len(),
                crate::chars::texts(out@) == self.keys().take(i as int),
            decreases self.entries.len() - i,
        {
            let ghost o = out@;
            out.push(self.entries[i].0.clone());
            proof {
                crate::lists::lemma_texts_push(o, self.entries@[i as int].0);
                assert(self.keys().take(i + 1) =~= self.keys().take(i as int).push(self.keys()[i as int]));
            }
            i += 1;
        }
        proof {
            assert(self.keys().take(i as int) =~= self.keys());
        }
        out
    }
}

impl Clone for IconMap {
    fn clone(&self) -> (r: Self)
        ensures
            r@ == self@,
            r.keys() == self.keys(),
    {
        proof {
            use_type_invariant(self);
        }
        let mut entries: Vec<(String, Icon)> = Vec::new();
        let mut i: usize = 0;
        while i < self.entries.len()
            invariant
                i <= self.entries.len(),
                entries@ == self.entries@.take(i as int),
            decreases self.entries.len() - i,
        {
            proof {
                assert(self.entries@.take(i + 1) =~= self.entries@.take(i as int).push(self.entries@[i as int]));
            }
            entries.push((self.entries[i].0.clone(), self.entries[i].1.clone()));
            i += 1;
        }
        proof {
            assert(self.entries@.take(i as int) =~= self.entries@);
        }
        IconMap { entries }
    }
}

proof fn lemma_inserted(a: Seq<(String, Icon)>, b: Seq<(String, Icon)>, key: String, icon: Icon)
    requires
        keys_of(a).no_duplicates(),
        keys_of(b).no_duplicates(),
        if keys_of(a).contains(key@) {
            keys_of(b) == keys_of(a) && b == a.update(keys_of(a).index_of(key@), (key, icon))
        } else {
            keys_of(b) == keys_of(a).push(key@) && b == a.push((key, icon))
        },
    ensures
        forall|k: Seq<char>|
            #![trigger keys_of(b).contains(k)]
            #![trigger keys_of(a).contains(k)]
            keys_of(b).contains(k) <==> (k == key@ || keys_of(a).contains(k)),
        forall|k: Seq<char>| #[trigger]
            keys_of(b).contains(k) ==> b[keys_of(b).index_of(k)].1 == (if k == key@ {
                icon
            } else {
                a[keys_of(a).index_of(k)].1
            }),
{
    let s = keys_of(a);
    let t = keys_of(b);
    assert forall|k: Seq<char>|
        #![trigger keys_of(b).contains(k)]
        #![trigger keys_of(a).contains(k)]
        t.contains(k) <==> (k == key@ || s.contains(k)) by {
        if s.contains(k) {
            assert(t[s.index_of(k)] == k);
        }
        if t.contains(k) && t.index_of(k) < s.len() {
            assert(t[t.index_of(k)] == k);
            assert(s[t.index_of(k)] == k);
        }
        if t.contains(k) {
            assert(t[t.index_of(k)] == k);
        }
        if !s.contains(key@) {
            assert(t[s.len() as int] == key@);
        }
    }
    assert forall|k: Seq<char>| #[trigger] t.contains(k) implies b[t.index_of(k)].1 == (if k == key@ {
        icon
    } else {
        a[s.index_of(k)].1
    }) by {
        let i = t.index_of(k);
        assert(t[i] == k);
        if i < s.len() {
            assert(s[i] == k);
            assert(s.contains(k));
            assert(s[s.index_of(k)] == k);
            assert(s.index_of(k) == i);
        }
    }
}

proof fn lemma_removed(a: Seq<(String, Icon)>, b: Seq<(String, Icon)>, key: Seq<char>, i: int)
    requires
        keys_of(a).no_duplicates(),
        0 <= i < a.len(),
        keys_of(a)[i] == key,
        keys_of(b) == keys_of(a).remove(i),
        b == a.remove(i),
    ensures
        keys_of(b).no_duplicates(),
        forall|k: Seq<char>|
            #![trigger keys_of(b).contains(k)]
            #![trigger keys_of(a).contains(k)]
            keys_of(b).contains(k) <==> (k != key && keys_of(a).contains(k)),
        forall|k: Seq<char>| #[trigger]
            keys_of(b).contains(k) ==> b[keys_of(b).index_of(k)].1 == a[keys_of(a).index_of(k)].1,
{
    let s = keys_of(a);
    let t = keys_of(b);
    assert forall|x: int, y: int| 0 <= x < t.len() && 0 <= y < t.len() && x != y implies t[x] != t[y] by {
        let x2 = if x < i {
            x
        } else {
            x + 1
        };
        let y2 = if y < i {
            y
        } else {
            y + 1
        };
        assert(t[x] == s[x2] && t[y] == s[y2]);
    }
    assert forall|k: Seq<char>|
        #![trigger keys_of(b).contains(k)]
        #![trigger keys_of(a).contains(k)]
        t.contains(k) <==> (k != key && s.contains(k)) by {
        if t.contains(k) {
            let j = t.index_of(k);
            assert(t[j] == k);
            if j < i {
                assert(s[j] == k);
            } else {
                assert(s[j + 1] == k);
            }
        }
        if s.contains(k) && k != key {
            let j = s.index_of(k);
            assert(s[j] == k);
            if j < i {
                assert(t[j] == k);
            } else {
                assert(t[j - 1] == k);
            }
        }
    }
    assert forall|k: Seq<char>| #[trigger] t.contains(k) implies b[t.index_of(k)].1 == a[s.index_of(k)].1 by {
        let j = t.index_of(k);
        assert(t[j] == k);
        let j2 = if j < i {
            j
        } else {
            j + 1
        };
        assert(s[j2] == k);
        assert(s.contains(k));
        assert(s[s.index_of(k)] == k);
        assert(s.index_of(k) == j2);
    }
}

} // verus!
