//! Lists of texts: membership and removal.

use vstd::prelude::*;
use vstd::string::*;

use crate::chars;
use crate::chars::same;

verus! {

/// The texts of `v` other than `s`, in order.
pub open spec fn without(v: Seq<Seq<char>>, s: Seq<char>) -> Seq<Seq<char>> {
    v.filter(|x: Seq<char>| x != s)
}

/// Index of the first `s` in `v` from `from` on, or the length of `v`.
pub open spec fn find_from(v: Seq<Seq<char>>, s: Seq<char>, from: int) -> int
    decreases v.len() - from,
{
    if from < 0 || from >= v.len() || v[from] == s {
        from
    } else {
        find_from(v, s, from + 1)
    }
}

pub proof fn lemma_texts_push(v: Seq<String>, s: String)
    ensures
        chars::texts(v.push(s)) == chars::texts(v).push(s@),
{
    assert(chars::texts(v.push(s)) =~= chars::texts(v).push(s@));
}

/// Removing keeps order and membership of everything else, and leaves none of `s`.
pub proof fn lemma_without(v: Seq<Seq<char>>, s: Seq<char>)
    ensures
        !without(v, s).contains(s),
        forall|x: Seq<char>| x != s ==> (#[trigger] without(v, s).contains(x) <==> v.contains(x)),
        !v.contains(s) ==> without(v, s) == v,
        without(v, s).len() <= v.len(),
    decreases v.len(),
{
    let p = |x: Seq<char>| x != s;
    reveal(Seq::filter);
    if v.len() > 0 {
        let t = v.drop_last();
        lemma_without(t, s);
        let w = without(t, s);
        assert(v =~= t.push(v.last()));
        if v.last() != s {
            assert(without(v, s) == w.push(v.last()));
            assert forall|x: Seq<char>| x != s implies (#[trigger] without(v, s).contains(x) <==> v.contains(x)) by {
                if without(v, s).contains(x) {
                    let i = choose|i: int| 0 <= i < without(v, s).len() && without(v, s)[i] == x;
                    if i < w.len() {
                        assert(w[i] == x);
                        assert(w.contains(x));
                        assert(t.contains(x));
                        let j = choose|j: int| 0 <= j < t.len() && t[j] == x;
                        assert(v[j] == x);
                    } else {
                        assert(v[v.len() - 1] == x);
                    }
                }
                if v.contains(x) {
                    let i = choose|i: int| 0 <= i < v.len() && v[i] == x;
                    if i < t.len() {
                        assert(t[i] == x);
                        assert(w.contains(x));
                        let j = choose|j: int| 0 <= j < w.len() && w[j] == x;
                        assert(without(v, s)[j] == x);
                    } else {
                        assert(without(v, s)[w.len() as int] == x);
                    }
                }
            }
            assert(!without(v, s).contains(s)) by {
                if without(v, s).contains(s) {
                    let i = choose|i: int| 0 <= i < without(v, s).len() && without(v, s)[i] == s;
                    if i < w.len() {
                        assert(w[i] == s);
                    }
                }
            }
            if !v.contains(s) {
                assert(!t.contains(s)) by {
                    if t.contains(s) {
                        let i = choose|i: int| 0 <= i < t.len() && t[i] == s;
                        assert(v[i] == s);
                    }
                }
            }
        } else {
            assert(without(v, s) == w);
            assert(v[v.len() - 1] == s);
            assert forall|x: Seq<char>| x != s implies (#[trigger] without(v, s).contains(x) <==> v.contains(x)) by {
                if t.contains(x) {
                    let i = choose|i: int| 0 <= i < t.len() && t[i] == x;
                    assert(v[i] == x);
                }
                if v.contains(x) {
                    let i = choose|i: int| 0 <= i < v.len() && v[i] == x;
                    assert(t[i] == x);
                }
            }
        }
    }
}

/// Whether `s` is among the texts of `v`.
pub fn has(v: &Vec<String>, s: &str) -> (r: bool)
    ensures
        r == chars::texts(v@).contains(s@),
{
    let ghost t = chars::texts(v@);
    let mut i: usize = 0;
    while i < v.len()
        invariant
            i <= v.len(),
            t == chars::texts(v@),
            forall|j: int| 0 <= j < i ==> t[j] != s@,
        decreases v.len() - i,
    {
        proof {
            assert(t[i as int] == v@[i as int]@);
        }
        if same(v[i].as_str(), s) {
            return true;
        }
        i += 1;
    }
    false
}

/// Removes every `s` from `v`.
pub fn remove_all(v: &mut Vec<String>, s: &str)
    ensures
        chars::texts(final(v)@) == without(chars::texts(old(v)@), s@),
        !chars::texts(old(v)@).contains(s@) ==> final(v)@ == old(v)@,
{
    let mut out: Vec<String> = Vec::new();
    let ghost t = chars::texts(v@);
    let mut i: usize = 0;
    proof {
        reveal(Seq::filter);
        assert(chars::texts(out@) =~= without(t.take(0), s@));
        assert(out@ =~= v@.take(0));
    }
    while i < v.len()
        invariant
            i <= v.len(),
            v@ == old(v)@,
            t == chars::texts(v@),
            chars::texts(out@) == without(t.take(i as int), s@),
            !t.contains(s@) ==> out@ == v@.take(i as int),
        decreases v.len() - i,
    {
        let ghost o = out@;
        proof {
            reveal(Seq::filter);
            assert(t.take(i + 1).drop_last() =~= t.take(i as int));
            assert(t[i as int] == v@[i as int]@);
            assert(v@.take(i + 1) =~= v@.take(i as int).push(v@[i as int]));
        }
        if !same(v[i].as_str(), s) {
            out.push(v[i].clone());
            proof {
                lemma_texts_push(o, v@[i as int]);
            }
        }
        i += 1;
    }
    proof {
        assert(t.take(i as int) =~= t);
        assert(v@.take(i as int) =~= v@);
    }
    *v = out;
}

/// A copy of `v`.
pub fn copy_texts(v: &Vec<String>) -> (r: Vec<String>)
    ensures
        r@ == v@,
{
    let mut out: Vec<String> = Vec::new();
    let mut i: usize = 0;
    while i < v.len()
        invariant
            i <= v.len(),
            out@ == v@.take(i as int),
        decreases v.len() - i,
    {
        proof {
            assert(v@.take(i + 1) =~= v@.take(i as int).push(v@[i as int]));
        }
        out.push(v[i].clone());
        i += 1;
    }
    proof {
        assert(v@.take(i as int) =~= v@);
    }
    out
}

} // verus!
