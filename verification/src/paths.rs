//! Windows paths as text: components, containment, file names and joining.
//!
//! A path is an optional prefix (a drive such as `C:`, a share such as `\\server\share`, or
//! a device such as `\\.\COM1`), an optional root separator, and segments between
//! separators. Both `/` and `\` separate. Empty segments do not count, nor do `.` segments,
//! except a leading `.` of a path without a root.
//!
//! A path that starts with `\\?\` is taken as it is written: its prefix is `\\?\` with a
//! drive, with `UNC\server\share` or with any other segment, only `\` separates in it, and
//! `.` is a segment like any other.

use vstd::prelude::*;
use vstd::string::*;

use crate::chars;
use crate::chars::{chars_of, string_of};
use crate::numbers;

verus! {

pub open spec fn is_sep(c: char) -> bool {
    c == '/' || c == '\\'
}

pub fn sep(c: char) -> (r: bool)
    ensures
        r == is_sep(c),
{
    c == '/' || c == '\\'
}

/// The path starts with `\\?\`: it is taken as it is written.
pub open spec fn verbatim(s: Seq<char>) -> bool {
    s.len() >= 4 && s[0] == '\\' && s[1] == '\\' && s[2] == '?' && s[3] == '\\'
}

/// The path starts with `\\?\UNC\`.
pub open spec fn verbatim_share(s: Seq<char>) -> bool {
    verbatim(s) && s.len() >= 8 && s[4] == 'U' && s[5] == 'N' && s[6] == 'C' && s[7] == '\\'
}

/// Whether `c` separates segments of the path `s`.
pub open spec fn cuts(s: Seq<char>, c: char) -> bool {
    c == '\\' || (c == '/' && !verbatim(s))
}

fn is_verbatim(v: &Vec<char>) -> (r: bool)
    ensures
        r == verbatim(v@),
{
    v.len() >= 4 && v[0] == '\\' && v[1] == '\\' && v[2] == '?' && v[3] == '\\'
}

fn is_verbatim_share(v: &Vec<char>) -> (r: bool)
    ensures
        r == verbatim_share(v@),
{
    is_verbatim(v) && v.len() >= 8 && v[4] == 'U' && v[5] == 'N' && v[6] == 'C' && v[7] == '\\'
}

fn cut(v: &Vec<char>, c: char) -> (r: bool)
    ensures
        r == cuts(v@, c),
{
    c == '\\' || (c == '/' && !is_verbatim(v))
}

/// Index of the first separator of `s` at or after `from`, or its length.
pub open spec fn segment_end(s: Seq<char>, from: int) -> int
    decreases s.len() - from,
{
    if from < 0 || from >= s.len() || cuts(s, s[from]) {
        from
    } else {
        segment_end(s, from + 1)
    }
}

pub proof fn lemma_segment_end(s: Seq<char>, from: int)
    requires
        0 <= from <= s.len(),
    ensures
        from <= segment_end(s, from) <= s.len(),
        forall|i: int| from <= i < segment_end(s, from) ==> !cuts(s, s[i]),
        segment_end(s, from) < s.len() ==> cuts(s, s[segment_end(s, from)]),
    decreases s.len() - from,
{
    if from < s.len() && !cuts(s, s[from]) {
        lemma_segment_end(s, from + 1);
    }
}

/// Whether `c` names a drive.
pub open spec fn is_letter(c: char) -> bool {
    ('a' <= c && c <= 'z') || ('A' <= c && c <= 'Z')
}

/// Whether `s` starts with a drive letter and a colon.
pub open spec fn has_drive(s: Seq<char>) -> bool {
    s.len() >= 2 && s[1] == ':' && is_letter(s[0])
}

/// Length of the prefix of a path that starts with `\\?\`.
pub open spec fn verbatim_len(s: Seq<char>) -> int {
    if verbatim_share(s) {
        let server = segment_end(s, 8);
        if server < s.len() && segment_end(s, server + 1) > server + 1 {
            segment_end(s, server + 1)
        } else {
            server
        }
    } else if s.len() >= 6 && is_letter(s[4]) && s[5] == ':' && (s.len() == 6 || is_sep(s[6])) {
        6
    } else {
        segment_end(s, 4)
    }
}

/// Length of the `\\server\share` or `\\.\device` at the start of `s`, or 0 where there is
/// none.
pub open spec fn share_len(s: Seq<char>) -> int {
    if s.len() >= 4 && is_sep(s[0]) && is_sep(s[1]) && s[2] == '.' && is_sep(s[3]) {
        segment_end(s, 4)
    } else if s.len() >= 2 && is_sep(s[0]) && is_sep(s[1]) {
        let server = segment_end(s, 2);
        if 2 < server < s.len() {
            let share = segment_end(s, server + 1);
            if share > server + 1 {
                share
            } else {
                0
            }
        } else {
            0
        }
    } else {
        0
    }
}

/// Length of the path's prefix.
pub open spec fn prefix_len(s: Seq<char>) -> int {
    if has_drive(s) {
        2
    } else if verbatim(s) {
        verbatim_len(s)
    } else {
        share_len(s)
    }
}

/// Whether the path has a root: a separator behind its prefix, or a prefix that is no drive.
pub open spec fn has_root(s: Seq<char>) -> bool {
    (prefix_len(s) > 0 && !has_drive(s)) || (prefix_len(s) < s.len() && is_sep(s[prefix_len(s)]))
}

/// Where the segments of the path start.
pub open spec fn body_start(s: Seq<char>) -> int {
    if prefix_len(s) < s.len() && is_sep(s[prefix_len(s)]) {
        prefix_len(s) + 1
    } else {
        prefix_len(s)
    }
}

/// The segment `s[a..b]` is no component: it is empty, or a `.` that is not the path's
/// first segment behind no root, in a path that is not taken as it is written.
pub open spec fn skipped(s: Seq<char>, a: int, b: int) -> bool {
    a == b || (b == a + 1 && s[a] == '.' && !verbatim(s) && (has_root(s) || a != body_start(s)))
}

/// Whether the root is a component: where nothing but the prefix tells of it, it is not one
/// of a path that is taken as it is written.
pub open spec fn lists_root(s: Seq<char>) -> bool {
    has_root(s) && (verbatim(s) ==> body_start(s) > prefix_len(s))
}

/// The components among the segments of `s` from index `from` on.
pub open spec fn segments(s: Seq<char>, from: int) -> Seq<Seq<char>>
    decreases s.len() - from,
    when 0 <= from <= s.len()
{
    proof {
        lemma_segment_end(s, from);
    }
    let end = segment_end(s, from);
    let here = if skipped(s, from, end) {
        Seq::<Seq<char>>::empty()
    } else {
        seq![s.subrange(from, end)]
    };
    if end >= s.len() {
        here
    } else {
        here + segments(s, end + 1)
    }
}

/// The components of the path: prefix, root (written as `\`) and segments.
pub open spec fn components(s: Seq<char>) -> Seq<Seq<char>> {
    let prefix = if prefix_len(s) > 0 {
        seq![s.take(prefix_len(s))]
    } else {
        Seq::<Seq<char>>::empty()
    };
    let root = if lists_root(s) {
        seq![seq!['\\']]
    } else {
        Seq::<Seq<char>>::empty()
    };
    prefix + root + segments(s, body_start(s))
}

pub proof fn lemma_prefix(s: Seq<char>)
    ensures
        0 <= prefix_len(s) <= body_start(s) <= s.len(),
{
    if s.len() >= 2 {
        lemma_segment_end(s, 2);
        if segment_end(s, 2) < s.len() {
            lemma_segment_end(s, segment_end(s, 2) + 1);
        }
    }
    if s.len() >= 4 {
        lemma_segment_end(s, 4);
    }
    if s.len() >= 8 {
        lemma_segment_end(s, 8);
        if segment_end(s, 8) < s.len() {
            lemma_segment_end(s, segment_end(s, 8) + 1);
        }
    }
}

fn find_segment_end(v: &Vec<char>, from: usize) -> (r: usize)
    requires
        from <= v.len(),
    ensures
        r == segment_end(v@, from as int),
        from <= r <= v.len(),
{
    let mut i: usize = from;
    while i < v.len() && !cut(v, v[i])
        invariant
            from <= i <= v.len(),
            segment_end(v@, from as int) == segment_end(v@, i as int),
        decreases v.len() - i,
    {
        i += 1;
    }
    i
}

fn drive(v: &Vec<char>) -> (r: bool)
    ensures
        r == has_drive(v@),
{
    v.len() >= 2 && v[1] == ':' && letter(v[0])
}

fn letter(c: char) -> (r: bool)
    ensures
        r == is_letter(c),
{
    ('a' <= c && c <= 'z') || ('A' <= c && c <= 'Z')
}

fn find_verbatim_prefix(v: &Vec<char>) -> (r: usize)
    requires
        verbatim(v@),
    ensures
        r == verbatim_len(v@),
        4 <= r <= v.len(),
{
    if is_verbatim_share(v) {
        let server = find_segment_end(v, 8);
        if server < v.len() {
            let share = find_segment_end(v, server + 1);
            if share > server + 1 {
                return share;
            }
        }
        return server;
    }
    if v.len() >= 6 && letter(v[4]) && v[5] == ':' && (v.len() == 6 || sep(v[6])) {
        return 6;
    }
    find_segment_end(v, 4)
}

fn find_prefix(v: &Vec<char>) -> (r: usize)
    ensures
        r == prefix_len(v@),
        r <= v.len(),
{
    if drive(v) {
        return 2;
    }
    if is_verbatim(v) {
        return find_verbatim_prefix(v);
    }
    if v.len() >= 4 && sep(v[0]) && sep(v[1]) && v[2] == '.' && sep(v[3]) {
        return find_segment_end(v, 4);
    }
    if v.len() >= 2 && sep(v[0]) && sep(v[1]) {
        let server = find_segment_end(v, 2);
        if 2 < server && server < v.len() {
            let share = find_segment_end(v, server + 1);
            if share > server + 1 {
                return share;
            }
        }
    }
    0
}

fn rooted(v: &Vec<char>) -> (r: bool)
    ensures
        r == has_root(v@),
{
    let p = find_prefix(v);
    (p > 0 && !drive(v)) || (p < v.len() && sep(v[p]))
}

fn find_body(v: &Vec<char>) -> (r: usize)
    ensures
        r == body_start(v@),
        r <= v.len(),
{
    let p = find_prefix(v);
    if p < v.len() && sep(v[p]) {
        p + 1
    } else {
        p
    }
}

fn is_skipped(v: &Vec<char>, a: usize, b: usize) -> (r: bool)
    requires
        a <= b <= v.len(),
    ensures
        r == skipped(v@, a as int, b as int),
{
    a == b || (b == a + 1 && v[a] == '.' && !is_verbatim(v) && (rooted(v) || a != find_body(v)))
}

/// The components among the segments of a path.
fn split_segments(v: &Vec<char>, start: usize) -> (out: Vec<String>)
    requires
        start <= v.len(),
    ensures
        chars::texts(out@) == segments(v@, start as int),
{
    let mut out: Vec<String> = Vec::new();
    let mut from: usize = start;
    proof {
        assert(chars::texts(out@) + segments(v@, start as int) =~= segments(v@, start as int));
    }
    loop
        invariant_except_break
            chars::texts(out@) + segments(v@, from as int) == segments(v@, start as int),
        invariant
            from <= v.len(),
        ensures
            chars::texts(out@) == segments(v@, start as int),
        decreases v.len() - from,
    {
        let end = find_segment_end(v, from);
        let ghost before = chars::texts(out@);
        if !is_skipped(v, from, end) {
            let s = string_of(v, from, end);
            let ghost o = out@;
            out.push(s);
            proof {
                assert(chars::texts(out@) =~= chars::texts(o).push(s@));
            }
        }
        if end >= v.len() {
            proof {
                assert(chars::texts(out@) =~= before + segments(v@, from as int));
            }
            break;
        }
        proof {
            assert(chars::texts(out@) + segments(v@, end + 1) =~= before + segments(v@, from as int));
        }
        from = end + 1;
    }
    out
}

/// The components of `path`.
pub fn split_components(path: &str) -> (r: Vec<String>)
    ensures
        chars::texts(r@) == components(path@),
{
    let v = chars_of(path);
    let mut out: Vec<String> = Vec::new();
    proof {
        lemma_prefix(v@);
    }
    let p = find_prefix(&v);
    if p > 0 {
        out.push(string_of(&v, 0, p));
        proof {
            assert(v@.subrange(0, p as int) =~= v@.take(p as int));
        }
    }
    if rooted(&v) && (!is_verbatim(&v) || find_body(&v) > p) {
        let mut root = String::new();
        root.push('\\');
        proof {
            assert(root@ =~= seq!['\\']);
        }
        out.push(root);
    }
    let ghost head = chars::texts(out@);
    let mut tail = split_segments(&v, find_body(&v));
    let ghost a = out@;
    let ghost b = tail@;
    out.append(&mut tail);
    proof {
        assert(chars::texts(out@) =~= chars::texts(a) + chars::texts(b));
        assert(head + segments(v@, body_start(v@)) =~= components(v@));
    }
    out
}

/// `s` in lower case, by Unicode's rules.
pub uninterp spec fn lowercase(s: Seq<char>) -> Seq<char>;

/// Whether every character of `s` is ASCII.
pub open spec fn all_ascii(s: Seq<char>) -> bool {
    forall|i: int| 0 <= i < s.len() ==> (#[trigger] s[i] as u32) < 128
}

/// Lower case by `str::to_lowercase`. The result is named; of a text that is all ASCII
/// it is the ASCII lower case.
#[verifier::external_body]
pub(crate) fn to_lowercase(s: &str) -> (r: String)
    ensures
        r@ == lowercase(s@),
        all_ascii(s@) ==> r@ == chars::ascii_lower(s@),
{
    s.to_lowercase()
}

/// Components as they are compared: in lower case, the letters of ASCII first.
pub open spec fn folded(parts: Seq<Seq<char>>) -> Seq<Seq<char>> {
    parts.map_values(|p: Seq<char>| lowercase(chars::ascii_lower(p)))
}

fn fold_components(path: &str) -> (r: Vec<String>)
    ensures
        chars::texts(r@) == folded(components(path@)),
{
    let parts = split_components(path);
    let mut out: Vec<String> = Vec::new();
    let mut i: usize = 0;
    while i < parts.len()
        invariant
            i <= parts.len(),
            chars::texts(parts@) == components(path@),
            chars::texts(out@) == folded(components(path@)).take(i as int),
        decreases parts.len() - i,
    {
        let s = to_lowercase(chars::lower_of(parts[i].as_str()).as_str());
        let ghost o = out@;
        out.push(s);
        proof {
            let all = components(path@);
            assert(chars::texts(parts@)[i as int] == parts@[i as int]@);
            assert(chars::texts(out@) =~= chars::texts(o).push(s@));
            assert(folded(all).take(i + 1) =~= folded(all).take(i as int).push(folded(all)[i as int]));
        }
        i += 1;
    }
    proof {
        assert(folded(components(path@)).take(i as int) =~= folded(components(path@)));
    }
    out
}

/// Whether `root` is not empty and its components are the first components of `path`,
/// case aside.
pub open spec fn leads(root: Seq<char>, path: Seq<char>) -> bool {
    let r = folded(components(root));
    let p = folded(components(path));
    r.len() > 0 && r.is_prefix_of(p)
}

/// Whether `path` lies strictly inside the directory `root`.
pub open spec fn strictly_within(root: Seq<char>, path: Seq<char>) -> bool {
    leads(root, path) && components(path).len() > components(root).len()
}

fn starts_with(p: &Vec<String>, r: &Vec<String>) -> (b: bool)
    requires
        r.len() <= p.len(),
    ensures
        b == chars::texts(r@).is_prefix_of(chars::texts(p@)),
{
    let ghost rt = chars::texts(r@);
    let ghost pt = chars::texts(p@);
    let mut i: usize = 0;
    while i < r.len()
        invariant
            i <= r.len() <= p.len(),
            rt == chars::texts(r@),
            pt == chars::texts(p@),
            forall|j: int| 0 <= j < i ==> rt[j] == pt[j],
        decreases r.len() - i,
    {
        if r[i] != p[i] {
            proof {
                assert(rt[i as int] == r@[i as int]@);
                assert(pt[i as int] == p@[i as int]@);
                assert(pt.subrange(0, rt.len() as int)[i as int] == pt[i as int]);
            }
            return false;
        }
        proof {
            assert(rt[i as int] == r@[i as int]@);
            assert(pt[i as int] == p@[i as int]@);
        }
        i += 1;
    }
    proof {
        assert(rt =~= pt.subrange(0, rt.len() as int));
    }
    true
}

/// Whether `path` lies in the directory `root` or is `root` itself.
pub fn path_in_or_at(root: &str, path: &str) -> (b: bool)
    ensures
        b == leads(root@, path@),
{
    let r = fold_components(root);
    if r.len() == 0 {
        return false;
    }
    let p = fold_components(path);
    if p.len() < r.len() {
        return false;
    }
    starts_with(&p, &r)
}

/// Whether `path` lies strictly inside the directory `root`: components are compared
/// whole and without regard to case, and `root` itself is not inside.
pub fn path_within(root: &str, path: &str) -> (b: bool)
    ensures
        b == strictly_within(root@, path@),
{
    let r = fold_components(root);
    if r.len() == 0 {
        return false;
    }
    let p = fold_components(path);
    if p.len() <= r.len() {
        return false;
    }
    starts_with(&p, &r)
}

/// Nothing lies strictly inside itself.
pub proof fn law_not_within_itself(path: Seq<char>)
    ensures
        !strictly_within(path, path),
{
}

/// What lies inside a directory that lies inside another lies inside the other.
pub proof fn law_within_transitive(a: Seq<char>, b: Seq<char>, c: Seq<char>)
    requires
        strictly_within(a, b),
        strictly_within(b, c),
    ensures
        strictly_within(a, c),
{
    let x = folded(components(a));
    let y = folded(components(b));
    let z = folded(components(c));
    assert(x =~= z.subrange(0, x.len() as int)) by {
        assert forall|i: int| 0 <= i < x.len() implies x[i] == z[i] by {
            assert(x[i] == y.subrange(0, x.len() as int)[i]);
            assert(y[i] == z.subrange(0, y.len() as int)[i]);
        }
    }
}

/// Two directories never lie strictly inside each other.
pub proof fn law_within_asymmetric(a: Seq<char>, b: Seq<char>)
    requires
        strictly_within(a, b),
    ensures
        !strictly_within(b, a),
{
}

/// Where the segment that ends at `end` starts, within the path's segments.
pub open spec fn segment_start(s: Seq<char>, end: int) -> int
    decreases end - body_start(s),
{
    if end <= body_start(s) || end > s.len() || cuts(s, s[end - 1]) {
        end
    } else {
        segment_start(s, end - 1)
    }
}

/// The end of the last component at or before `end`: separators and skipped segments
/// behind it are cut off.
pub open spec fn trimmed(s: Seq<char>, end: int) -> int
    decreases end - body_start(s),
{
    if end <= body_start(s) || end > s.len() {
        end
    } else if cuts(s, s[end - 1]) {
        trimmed(s, end - 1)
    } else if segment_start(s, end) < end && skipped(s, segment_start(s, end), end) {
        trimmed(s, segment_start(s, end))
    } else {
        end
    }
}

/// Where the last component starts and ends; they are equal where there is no segment.
pub open spec fn last_segment(s: Seq<char>) -> (int, int) {
    let end = trimmed(s, s.len() as int);
    (segment_start(s, end), end)
}

/// The name at the end of the path: its last segment, unless that is `.` or `..`.
pub open spec fn file_name(s: Seq<char>) -> Option<Seq<char>> {
    let (a, b) = last_segment(s);
    let name = s.subrange(a, b);
    if a >= b || name == seq!['.'] || name == seq!['.', '.'] {
        None
    } else {
        Some(name)
    }
}

/// The path without its last segment; `None` where it has none.
pub open spec fn parent(s: Seq<char>) -> Option<Seq<char>> {
    let (a, b) = last_segment(s);
    if a >= b {
        None
    } else {
        Some(s.take(trimmed(s, a)))
    }
}

/// Where the first `n` of `names` lead from `at`: `.` leads nowhere, `..` back past a name,
/// and any other to a name more.
pub open spec fn followed(at: Seq<Seq<char>>, names: Seq<Seq<char>>, n: int) -> Seq<Seq<char>>
    decreases n,
{
    if n <= 0 {
        at
    } else {
        let d = followed(at, names, n - 1);
        let s = names[n - 1];
        if s == seq!['.'] {
            d
        } else if s == seq!['.', '.'] {
            if d.len() > 0 && d.last() != seq!['.'] && d.last() != seq!['.', '.'] {
                d.drop_last()
            } else {
                d
            }
        } else {
            d.push(s)
        }
    }
}

/// The path of the first `n` of `parts` behind a prefix.
pub open spec fn written(prefix: Seq<char>, root: bool, parts: Seq<Seq<char>>, n: int) -> Seq<char>
    decreases n,
{
    if n <= 0 {
        if root {
            prefix.push('\\')
        } else {
            prefix
        }
    } else if n == 1 {
        prefix.push('\\') + parts[0]
    } else {
        written(prefix, root, parts, n - 1).push('\\') + parts[n - 1]
    }
}

/// Where `name` leads from a `base` that is taken as it is written: nothing in the result
/// stands for a step back.
pub open spec fn resolved(base: Seq<char>, name: Seq<char>) -> Seq<char> {
    let at = if has_root(name) {
        Seq::<Seq<char>>::empty()
    } else {
        segments(base, body_start(base))
    };
    let names = segments(name, body_start(name));
    let parts = followed(at, names, names.len() as int);
    let root = has_root(name) || body_start(base) > prefix_len(base);
    written(base.take(prefix_len(base)), root, parts, parts.len() as int)
}

/// `name` taken relative to `base`: a `name` with a prefix stands alone, one with a root
/// keeps the prefix of `base` only, and any other is put behind `base` and a separator. Where
/// `base` is taken as it is written, `name` is followed step by step.
pub open spec fn joined(base: Seq<char>, name: Seq<char>) -> Seq<char> {
    if prefix_len(name) > 0 {
        name
    } else if verbatim(base) && name.len() > 0 {
        resolved(base, name)
    } else if has_root(name) {
        base.take(prefix_len(base)) + name
    } else if base.len() == 0 || is_sep(base.last()) || (has_drive(base) && base.len() == 2) {
        base + name
    } else {
        base.push('\\') + name
    }
}

pub proof fn lemma_segment_start(s: Seq<char>, end: int)
    requires
        body_start(s) <= end <= s.len(),
    ensures
        body_start(s) <= segment_start(s, end) <= end,
    decreases end - body_start(s),
{
    if end > body_start(s) && !cuts(s, s[end - 1]) {
        lemma_segment_start(s, end - 1);
    }
}

pub proof fn lemma_trimmed(s: Seq<char>, end: int)
    requires
        body_start(s) <= end <= s.len(),
    ensures
        body_start(s) <= trimmed(s, end) <= end,
    decreases end - body_start(s),
{
    lemma_segment_start(s, end);
    if end > body_start(s) {
        if cuts(s, s[end - 1]) {
            lemma_trimmed(s, end - 1);
        } else if segment_start(s, end) < end && skipped(s, segment_start(s, end), end) {
            lemma_trimmed(s, segment_start(s, end));
        }
    }
}

fn find_segment_start(v: &Vec<char>, end: usize) -> (r: usize)
    requires
        body_start(v@) <= end <= v.len(),
    ensures
        r == segment_start(v@, end as int),
        body_start(v@) <= r <= end,
{
    let body = find_body(v);
    let mut i: usize = end;
    while i > body && !cut(v, v[i - 1])
        invariant
            body == body_start(v@),
            body <= i <= end <= v.len(),
            segment_start(v@, i as int) == segment_start(v@, end as int),
        decreases i,
    {
        i -= 1;
    }
    i
}

fn find_trimmed(v: &Vec<char>, from: usize) -> (r: usize)
    requires
        body_start(v@) <= from <= v.len(),
    ensures
        r == trimmed(v@, from as int),
        body_start(v@) <= r <= from,
{
    let body = find_body(v);
    let mut end: usize = from;
    while end > body
        invariant
            body == body_start(v@),
            body <= end <= from <= v.len(),
            trimmed(v@, end as int) == trimmed(v@, from as int),
        decreases end,
    {
        if cut(v, v[end - 1]) {
            end -= 1;
        } else {
            let a = find_segment_start(v, end);
            if a < end && is_skipped(v, a, end) {
                end = a;
            } else {
                return end;
            }
        }
    }
    end
}

fn find_last_segment(v: &Vec<char>) -> (r: (usize, usize))
    ensures
        (r.0 as int, r.1 as int) == last_segment(v@),
        body_start(v@) <= r.0 <= r.1 <= v.len(),
{
    proof {
        lemma_prefix(v@);
    }
    let end = find_trimmed(v, v.len());
    (find_segment_start(v, end), end)
}

/// The name at the end of `path`.
pub fn file_name_of(path: &str) -> (r: Option<String>)
    ensures
        match r {
            Some(n) => file_name(path@) == Some(n@),
            None => file_name(path@) is None,
        },
{
    let v = chars_of(path);
    let (a, b) = find_last_segment(&v);
    let ghost name = v@.subrange(a as int, b as int);
    if a >= b {
        return None;
    }
    if b - a == 1 && v[a] == '.' {
        proof {
            assert(name =~= seq!['.']);
        }
        return None;
    }
    if b - a == 2 && v[a] == '.' && v[a + 1] == '.' {
        proof {
            assert(name =~= seq!['.', '.']);
        }
        return None;
    }
    proof {
        let one = seq!['.'];
        let two = seq!['.', '.'];
        if name == one {
            assert(name.len() == 1 && name[0] == one[0]);
        }
        if name == two {
            assert(name.len() == 2 && name[0] == two[0] && name[1] == two[1]);
        }
    }
    Some(string_of(&v, a, b))
}

/// `path` without its last segment.
pub fn parent_of(path: &str) -> (r: Option<String>)
    ensures
        match r {
            Some(n) => parent(path@) == Some(n@),
            None => parent(path@) is None,
        },
{
    let v = chars_of(path);
    let (a, b) = find_last_segment(&v);
    if a >= b {
        return None;
    }
    let end = find_trimmed(&v, a);
    proof {
        assert(v@.subrange(0, end as int) =~= v@.take(end as int));
    }
    Some(string_of(&v, 0, end))
}

/// Where `name` leads from a `base` that is taken as it is written.
fn resolve(b: &Vec<char>, n: &Vec<char>) -> (r: String)
    ensures
        r@ == resolved(b@, n@),
{
    let name_root = rooted(n);
    let mut parts: Vec<String> = Vec::new();
    if !name_root {
        parts = split_segments(b, find_body(b));
    }
    let names = split_segments(n, find_body(n));
    let ghost at = chars::texts(parts@);
    let ghost all = chars::texts(names@);
    proof {
        if name_root {
            assert(at =~= Seq::<Seq<char>>::empty());
        }
    }
    let mut i: usize = 0;
    while i < names.len()
        invariant
            i <= names.len(),
            all == chars::texts(names@),
            chars::texts(parts@) == followed(at, all, i as int),
        decreases names.len() - i,
    {
        let s = names[i].as_str();
        let ghost d = parts@;
        proof {
            assert(all[i as int] == s@);
            reveal_strlit(".");
            reveal_strlit("..");
            assert("."@ =~= seq!['.']);
            assert(".."@ =~= seq!['.', '.']);
        }
        let here = chars::same(s, ".");
        let back = chars::same(s, "..");
        if back {
            let k = parts.len();
            if k > 0 {
                let stuck = chars::same(parts[k - 1].as_str(), ".") || chars::same(parts[k - 1].as_str(), "..");
                proof {
                    assert(chars::texts(d).last() == d[k - 1]@);
                }
                if !stuck {
                    parts.pop();
                    proof {
                        assert(chars::texts(parts@) =~= chars::texts(d).drop_last());
                    }
                }
            }
        } else if !here {
            parts.push(names[i].clone());
            proof {
                assert(chars::texts(parts@) =~= chars::texts(d).push(s@));
            }
        }
        i += 1;
    }
    let p = find_prefix(b);
    let root = name_root || find_body(b) > p;
    let prefix = string_of(b, 0, p);
    proof {
        assert(prefix@ =~= b@.take(p as int));
    }
    let ghost t = chars::texts(parts@);
    let mut r = prefix.clone();
    if root || parts.len() > 0 {
        r.push('\\');
    }
    let mut k: usize = 0;
    while k < parts.len()
        invariant
            k <= parts.len(),
            t == chars::texts(parts@),
            k == 0 ==> r@ == if root || parts.len() > 0 {
                prefix@.push('\\')
            } else {
                prefix@
            },
            k > 0 ==> r@ == written(prefix@, root, t, k as int),
        decreases parts.len() - k,
    {
        if k > 0 {
            r.push('\\');
        }
        r.append(parts[k].as_str());
        proof {
            assert(t[k as int] == parts@[k as int]@);
        }
        k += 1;
    }
    r
}

/// `name` taken relative to `base`.
pub fn join(base: &str, name: &str) -> (r: String)
    ensures
        r@ == joined(base@, name@),
{
    let n = chars_of(name);
    if find_prefix(&n) > 0 {
        return name.to_owned();
    }
    let b = chars_of(base);
    if is_verbatim(&b) && n.len() > 0 {
        return resolve(&b, &n);
    }
    if rooted(&n) {
        let p = find_prefix(&b);
        let mut r = string_of(&b, 0, p);
        proof {
            assert(b@.subrange(0, p as int) =~= b@.take(p as int));
        }
        r.append(name);
        return r;
    }
    let mut r = base.to_owned();
    if b.len() == 0 || sep(b[b.len() - 1]) || (drive(&b) && b.len() == 2) {
    } else {
        r.push('\\');
    }
    r.append(name);
    r
}

/// Whether `s` ends with `tail`.
pub open spec fn ends_with(s: Seq<char>, tail: Seq<char>) -> bool {
    s.len() >= tail.len() && s.skip(s.len() - tail.len()) == tail
}

fn has_ending(s: &Vec<char>, tail: &Vec<char>) -> (r: bool)
    ensures
        r == ends_with(s@, tail@),
{
    if s.len() < tail.len() {
        return false;
    }
    let d: usize = s.len() - tail.len();
    let ghost end = s@.skip(d as int);
    let mut i: usize = 0;
    while i < tail.len()
        invariant
            i <= tail.len(),
            d + tail.len() == s.len(),
            end == s@.skip(d as int),
            forall|j: int| 0 <= j < i ==> end[j] == tail@[j],
        decreases tail.len() - i,
    {
        if s[d + i] != tail[i] {
            proof {
                assert(end[i as int] == s@[d + i]);
            }
            return false;
        }
        i += 1;
    }
    proof {
        assert(end =~= tail@);
    }
    true
}

/// The shortcut ending that a rename keeps for a file called `name`: the first of `.lnk`,
/// `.url` and `.appref-ms` that ends `name`, case aside, with something in front of it.
pub open spec fn kept_ending(name: Seq<char>) -> Option<Seq<char>> {
    let low = chars::ascii_lower(name);
    if ends_with(low, ".lnk"@) && name.len() > 4 {
        Some(".lnk"@)
    } else if ends_with(low, ".url"@) && name.len() > 4 {
        Some(".url"@)
    } else if ends_with(low, ".appref-ms"@) && name.len() > 10 {
        Some(".appref-ms"@)
    } else {
        None
    }
}

/// The file name that renaming `old` to `new` gives.
pub open spec fn renamed(old: Seq<char>, new: Seq<char>) -> Seq<char> {
    match kept_ending(old) {
        Some(e) => if ends_with(chars::ascii_lower(new), e) {
            new
        } else {
            new + e
        },
        None => new,
    }
}

/// The path that renaming `old_path` to `new_name` gives, if there is one.
pub open spec fn rename_target(old_path: Seq<char>, new_name: Seq<char>) -> Option<Seq<char>> {
    match (parent(old_path), file_name(old_path)) {
        (Some(dir), Some(old)) => if renamed(old, new_name).len() == 0 {
            None
        } else {
            Some(joined(dir, renamed(old, new_name)))
        },
        _ => None,
    }
}

fn find_kept_ending(name: &str) -> (r: Option<String>)
    ensures
        match r {
            Some(e) => kept_ending(name@) == Some(e@),
            None => kept_ending(name@) is None,
        },
{
    let n = chars_of(name);
    let low = chars_of(chars::lower_of(name).as_str());
    if has_ending(&low, &chars_of(".lnk")) && n.len() > 4 {
        Some(".lnk".to_owned())
    } else if has_ending(&low, &chars_of(".url")) && n.len() > 4 {
        Some(".url".to_owned())
    } else if has_ending(&low, &chars_of(".appref-ms")) && n.len() > 10 {
        Some(".appref-ms".to_owned())
    } else {
        None
    }
}

/// The path to which an item is renamed. Shortcut endings are not shown, so they are put
/// back behind a new name that lacks them. `None` where the path has no directory or no
/// name, or where the new name is empty.
pub fn new_path_for_rename(old_path: &str, new_name: &str) -> (r: Option<String>)
    ensures
        match r {
            Some(p) => rename_target(old_path@, new_name@) == Some(p@),
            None => rename_target(old_path@, new_name@) is None,
        },
{
    let dir = match parent_of(old_path) {
        Some(d) => d,
        None => {
            return None;
        },
    };
    let old = match file_name_of(old_path) {
        Some(n) => n,
        None => {
            return None;
        },
    };
    let mut name = new_name.to_owned();
    match find_kept_ending(old.as_str()) {
        Some(e) => {
            let low = chars_of(chars::lower_of(new_name).as_str());
            if !has_ending(&low, &chars_of(e.as_str())) {
                name.append(e.as_str());
            }
        },
        None => {},
    }
    if name.as_str().is_empty() {
        return None;
    }
    Some(join(dir.as_str(), name.as_str()))
}

/// Where a numbering goes into a file name: before its last dot, unless that comes first.
pub open spec fn number_place(name: Seq<char>) -> int {
    let dot = crate::details::last_index(name, '.');
    if dot > 0 {
        dot
    } else {
        name.len() as int
    }
}

/// The name tried in `i`-th place for a file called `name`: the name itself, then
/// `stem (1).ext`, `stem (2).ext` and so on.
pub open spec fn numbered(name: Seq<char>, i: nat) -> Seq<char> {
    if i == 0 {
        name
    } else {
        let k = number_place(name);
        name.take(k) + " ("@ + numbers::decimal(i) + ")"@ + name.skip(k)
    }
}

/// The path tried in `i`-th place for a file called `name` in `dir`.
pub open spec fn candidate(dir: Seq<char>, name: Seq<char>, i: nat) -> Seq<char> {
    joined(dir, numbered(name, i))
}

fn numbered_name(name: &str, i: u64) -> (r: String)
    ensures
        r@ == numbered(name@, i as nat),
{
    if i == 0 {
        return name.to_owned();
    }
    let v = chars_of(name);
    proof {
        assert(v@.skip(0) =~= v@);
        crate::details::lemma_last_index(name@, '.');
    }
    let k = match crate::details::find_last(&v, 0, '.') {
        Some(d) => if d > 0 {
            d
        } else {
            v.len()
        },
        None => v.len(),
    };
    let mut r = string_of(&v, 0, k);
    r.append(" (");
    numbers::push_decimal(&mut r, i);
    r.append(")");
    r.append(string_of(&v, k, v.len()).as_str());
    proof {
        assert(r@ =~= numbered(name@, i as nat));
    }
    r
}

/// The path tried in `i`-th place.
pub fn candidate_path(dir: &str, name: &str, i: u64) -> (r: String)
    ensures
        r@ == candidate(dir@, name@, i as nat),
{
    join(dir, numbered_name(name, i).as_str())
}

/// `taken` was asked about the path tried in `i`-th place, and said that it is taken.
pub open spec fn found_taken<F: Fn(&str) -> bool>(lib: Seq<char>, name: Seq<char>, taken: F, i: nat) -> bool {
    exists|p: &str| p@ == candidate(lib, name, i) && #[trigger] call_ensures(taken, (p,), true)
}

/// `taken` was asked about the path tried in `i`-th place, and said that it is not taken.
pub open spec fn found_free<F: Fn(&str) -> bool>(lib: Seq<char>, name: Seq<char>, taken: F, i: nat) -> bool {
    exists|p: &str| p@ == candidate(lib, name, i) && #[trigger] call_ensures(taken, (p,), false)
}

/// A path for a file called `name` in the directory `lib` that is not taken: the first
/// candidate that `taken` denies. There is none only where it denies none of all that can be
/// numbered.
pub fn unique_library_path<F: Fn(&str) -> bool>(lib: &str, name: &str, taken: F) -> (r: Option<String>)
    requires
        forall|p: &str| #[trigger] call_requires(taken, (p,)),
    ensures
        match r {
            Some(s) => exists|i: nat|
                i <= u64::MAX && s@ == #[trigger] candidate(lib@, name@, i) && found_free(lib@, name@, taken, i)
                    && forall|j: nat| j < i ==> #[trigger] found_taken(lib@, name@, taken, j),
            None => forall|j: nat| j <= u64::MAX ==> #[trigger] found_taken(lib@, name@, taken, j),
        },
{
    let mut i: u64 = 0;
    loop
        invariant
            forall|p: &str| #[trigger] call_requires(taken, (p,)),
            forall|j: nat| j < i ==> #[trigger] found_taken(lib@, name@, taken, j),
        decreases u64::MAX - i,
    {
        let c = candidate_path(lib, name, i);
        let p = c.as_str();
        let t = taken(p);
        if !t {
            proof {
                assert(call_ensures(taken, (p,), false));
                assert(found_free(lib@, name@, taken, i as nat));
                assert(c@ == candidate(lib@, name@, i as nat));
            }
            return Some(c);
        }
        proof {
            assert(call_ensures(taken, (p,), true));
            assert(found_taken(lib@, name@, taken, i as nat));
        }
        if i == u64::MAX {
            return None;
        }
        i += 1;
    }
}

proof fn lemma_lower_marks(a: char, b: char)
    requires
        chars::lower_char(a) == chars::lower_char(b),
    ensures
        is_sep(a) == is_sep(b),
        a == '\\' <==> b == '\\',
        a == '/' <==> b == '/',
        a == '.' <==> b == '.',
        a == ':' <==> b == ':',
        a == '?' <==> b == '?',
        is_letter(a) == is_letter(b),
{
}

/// The paths differ in the case of ASCII letters at most, the letters of the mark of a
/// share that is taken as it is written aside: that mark counts in capitals only.
pub open spec fn alike(a: Seq<char>, b: Seq<char>) -> bool {
    chars::ascii_lower(a) == chars::ascii_lower(b) && verbatim_share(a) == verbatim_share(b)
}

proof fn lemma_alike(a: Seq<char>, b: Seq<char>, i: int)
    requires
        alike(a, b),
        0 <= i < a.len(),
    ensures
        a.len() == b.len(),
        is_sep(a[i]) == is_sep(b[i]),
        a[i] == '\\' <==> b[i] == '\\',
        a[i] == '/' <==> b[i] == '/',
        a[i] == '.' <==> b[i] == '.',
        a[i] == ':' <==> b[i] == ':',
        a[i] == '?' <==> b[i] == '?',
        is_letter(a[i]) == is_letter(b[i]),
{
    assert(chars::ascii_lower(a).len() == a.len() && chars::ascii_lower(b).len() == b.len());
    assert(chars::ascii_lower(a)[i] == chars::lower_char(a[i]));
    assert(chars::ascii_lower(b)[i] == chars::lower_char(b[i]));
    lemma_lower_marks(a[i], b[i]);
}

proof fn lemma_alike_verbatim(a: Seq<char>, b: Seq<char>)
    requires
        alike(a, b),
    ensures
        a.len() == b.len(),
        verbatim(a) == verbatim(b),
{
    assert(chars::ascii_lower(a).len() == a.len() && chars::ascii_lower(b).len() == b.len());
    if a.len() >= 4 {
        lemma_alike(a, b, 0);
        lemma_alike(a, b, 1);
        lemma_alike(a, b, 2);
        lemma_alike(a, b, 3);
    }
}

proof fn lemma_alike_end(a: Seq<char>, b: Seq<char>, from: int)
    requires
        alike(a, b),
        0 <= from <= a.len(),
    ensures
        segment_end(a, from) == segment_end(b, from),
    decreases a.len() - from,
{
    lemma_alike_verbatim(a, b);
    if from < a.len() {
        lemma_alike(a, b, from);
        if !cuts(a, a[from]) {
            lemma_alike_end(a, b, from + 1);
        }
    }
}

proof fn lemma_alike_prefix(a: Seq<char>, b: Seq<char>)
    requires
        alike(a, b),
    ensures
        prefix_len(a) == prefix_len(b),
        has_drive(a) == has_drive(b),
        has_root(a) == has_root(b),
        body_start(a) == body_start(b),
{
    lemma_alike_verbatim(a, b);
    lemma_prefix(a);
    lemma_prefix(b);
    if a.len() >= 2 {
        lemma_alike(a, b, 0);
        lemma_alike(a, b, 1);
        lemma_segment_end(a, 2);
        lemma_alike_end(a, b, 2);
        if segment_end(a, 2) < a.len() {
            lemma_alike_end(a, b, segment_end(a, 2) + 1);
        }
    }
    if a.len() >= 4 {
        lemma_alike(a, b, 2);
        lemma_alike(a, b, 3);
        lemma_alike_end(a, b, 4);
    }
    if a.len() >= 6 {
        lemma_alike(a, b, 4);
        lemma_alike(a, b, 5);
    }
    if a.len() >= 7 {
        lemma_alike(a, b, 6);
    }
    if a.len() >= 8 {
        lemma_segment_end(a, 8);
        lemma_alike_end(a, b, 8);
        if segment_end(a, 8) < a.len() {
            lemma_alike_end(a, b, segment_end(a, 8) + 1);
        }
    }
    if prefix_len(a) < a.len() {
        lemma_alike(a, b, prefix_len(a));
    }
}

proof fn lemma_folded_cut(a: Seq<char>, b: Seq<char>, i: int, j: int)
    requires
        alike(a, b),
        0 <= i <= j <= a.len(),
    ensures
        chars::ascii_lower(a.subrange(i, j)) == chars::ascii_lower(b.subrange(i, j)),
{
    lemma_alike_verbatim(a, b);
    assert(chars::ascii_lower(a.subrange(i, j)) =~= chars::ascii_lower(a).subrange(i, j));
    assert(chars::ascii_lower(b.subrange(i, j)) =~= chars::ascii_lower(b).subrange(i, j));
}

proof fn lemma_alike_segments(a: Seq<char>, b: Seq<char>, from: int)
    requires
        alike(a, b),
        0 <= from <= a.len(),
    ensures
        folded(segments(a, from)) == folded(segments(b, from)),
    decreases a.len() - from,
{
    lemma_alike_verbatim(a, b);
    lemma_alike_prefix(a, b);
    lemma_alike_end(a, b, from);
    lemma_segment_end(a, from);
    let end = segment_end(a, from);
    if from < a.len() {
        lemma_alike(a, b, from);
    }
    lemma_folded_cut(a, b, from, end);
    let none = Seq::<Seq<char>>::empty();
    let x = if skipped(a, from, end) { none } else { seq![a.subrange(from, end)] };
    let y = if skipped(b, from, end) { none } else { seq![b.subrange(from, end)] };
    assert(folded(x) =~= folded(y));
    if end < a.len() {
        lemma_alike_segments(a, b, end + 1);
        assert(folded(segments(a, from)) =~= folded(x) + folded(segments(a, end + 1)));
        assert(folded(segments(b, from)) =~= folded(y) + folded(segments(b, end + 1)));
    } else {
        assert(segments(a, from) =~= x && segments(b, from) =~= y);
    }
}

proof fn lemma_alike_components(a: Seq<char>, b: Seq<char>)
    requires
        alike(a, b),
    ensures
        folded(components(a)) == folded(components(b)),
{
    lemma_alike_verbatim(a, b);
    lemma_alike_prefix(a, b);
    lemma_prefix(a);
    lemma_alike_segments(a, b, body_start(a));
    let p = prefix_len(a);
    lemma_folded_cut(a, b, 0, p);
    assert(a.subrange(0, p) =~= a.take(p) && b.subrange(0, p) =~= b.take(p));
    let s = segments(a, body_start(a));
    let t = segments(b, body_start(b));
    let x = components(a);
    let y = components(b);
    let n = x.len() - s.len();
    assert(folded(x) =~= folded(x.take(n)) + folded(s));
    assert(folded(y) =~= folded(y.take(n)) + folded(t));
    assert(folded(x.take(n)) =~= folded(y.take(n)));
}

/// The case of ASCII letters never matters to what lies inside what.
pub proof fn law_within_ignores_case(a: Seq<char>, b: Seq<char>, c: Seq<char>, d: Seq<char>)
    requires
        alike(a, c),
        alike(b, d),
    ensures
        strictly_within(a, b) == strictly_within(c, d),
        leads(a, b) == leads(c, d),
{
    lemma_alike_components(a, c);
    lemma_alike_components(b, d);
    assert(folded(components(a)).len() == components(a).len());
    assert(folded(components(c)).len() == components(c).len());
    assert(folded(components(b)).len() == components(b).len());
    assert(folded(components(d)).len() == components(d).len());
}

/// Nothing lies inside the empty path.
pub proof fn law_nothing_within_empty(path: Seq<char>)
    ensures
        !strictly_within(Seq::<char>::empty(), path),
{
    let e = Seq::<char>::empty();
    lemma_prefix(e);
    assert(segments(e, 0) =~= Seq::<Seq<char>>::empty());
    assert(components(e) =~= Seq::<Seq<char>>::empty());
    assert(folded(components(e)).len() == 0);
}

proof fn lemma_segment_start_at(s: Seq<char>, a: int, end: int)
    requires
        body_start(s) <= a <= end <= s.len(),
        a == body_start(s) || cuts(s, s[a - 1]),
        forall|i: int| a <= i < end ==> !cuts(s, #[trigger] s[i]),
    ensures
        segment_start(s, end) == a,
    decreases end - a,
{
    if end > a {
        assert(!cuts(s, s[end - 1]));
        lemma_segment_start_at(s, a, end - 1);
    }
}

/// A path that ends with a name behind its prefix, and behind a separator or nothing, is
/// called by that name.
proof fn lemma_called(s: Seq<char>, name: Seq<char>)
    requires
        is_plain(name),
        name.len() <= s.len(),
        s.skip(s.len() - name.len()) == name,
        body_start(s) <= s.len() - name.len(),
        s.len() - name.len() == body_start(s) || cuts(s, s[s.len() - name.len() - 1]),
    ensures
        file_name(s) == Some(name),
{
    let a = s.len() - name.len();
    let end = s.len() as int;
    assert forall|i: int| a <= i < end implies !cuts(s, #[trigger] s[i]) by {
        assert(s.skip(a)[i - a] == s[i]);
        assert(!is_sep(name[i - a]));
    }
    lemma_segment_start_at(s, a, end);
    assert(!cuts(s, s[end - 1]));
    assert(s.subrange(a, end) =~= name);
    if end == a + 1 {
        assert(s.subrange(a, end)[0] == s[a]);
        assert(name =~= seq![s[a]]);
    }
    assert(!skipped(s, a, end));
    assert(trimmed(s, end) == end);
}

/// `name` is the name of a file: it is neither empty nor `.` nor `..`, and holds no
/// separator and no drive.
pub open spec fn is_plain(name: Seq<char>) -> bool {
    &&& name.len() > 0
    &&& forall|i: int| 0 <= i < name.len() ==> !is_sep(#[trigger] name[i])
    &&& !has_drive(name)
    &&& name != seq!['.']
    &&& name != seq!['.', '.']
}

/// A plain name is its own only segment.
proof fn lemma_plain_segments(name: Seq<char>)
    requires
        is_plain(name),
    ensures
        prefix_len(name) == 0,
        !has_root(name),
        body_start(name) == 0,
        segments(name, 0) == seq![name],
{
    assert(!is_sep(name[0]));
    lemma_segment_end(name, 0);
    let e = segment_end(name, 0);
    if e < name.len() {
        assert(!is_sep(name[e]));
    }
    assert(name.subrange(0, e) =~= name);
    if e == 1 {
        assert(name =~= seq![name[0]]);
    }
    assert(segments(name, 0) =~= seq![name]);
}

/// A file put into a directory is called by its name: the path that a plain name is joined
/// to ends with it, unless the name becomes a part of the prefix, as that of a share behind
/// its server alone does.
pub proof fn law_joined_is_called(base: Seq<char>, name: Seq<char>)
    requires
        is_plain(name),
        prefix_len(joined(base, name)) == prefix_len(base),
    ensures
        file_name(joined(base, name)) == Some(name),
{
    lemma_plain_segments(name);
    lemma_prefix(base);
    let s = joined(base, name);
    lemma_prefix(s);
    let a = s.len() - name.len();
    if verbatim(base) {
        let at = segments(base, body_start(base));
        let names = segments(name, 0);
        assert(names[0] == name);
        reveal_with_fuel(followed, 2);
        let parts = followed(at, names, 1);
        assert(parts == at.push(name));
        let n = parts.len() as int;
        let p = prefix_len(base);
        let pre = base.take(p);
        let root = body_start(base) > p;
        let w = if n == 1 { pre.push('\\') } else { written(pre, root, parts, n - 1).push('\\') };
        lemma_written_prefix(pre, root, parts, n - 1);
        assert(s == w + name);
        assert(parts[n - 1] == name);
        assert(s.skip(a) =~= name);
        assert(s[a - 1] == '\\');
        assert(s[p] == '\\') by {
            if n > 1 {
                assert(written(pre, root, parts, n - 1)[p] == '\\');
            }
        }
        assert(body_start(s) == p + 1);
        assert(a >= p + 1);
    } else {
        assert(s.skip(a) =~= name);
    }
    lemma_called(s, name);
}

proof fn lemma_written_prefix(prefix: Seq<char>, root: bool, parts: Seq<Seq<char>>, n: int)
    ensures
        n > 0 ==> written(prefix, root, parts, n).len() > prefix.len(),
        n > 0 ==> written(prefix, root, parts, n)[prefix.len() as int] == '\\',
    decreases n,
{
    if n > 1 {
        lemma_written_prefix(prefix, root, parts, n - 1);
    }
}

/// A numbered name keeps its stem and its extension, and two numbers give two names.
pub proof fn law_numbered_keeps_ending(name: Seq<char>, i: nat, j: nat)
    requires
        i > 0,
    ensures
        numbered(name, 0) == name,
        numbered(name, i) != name,
        i != j ==> numbered(name, i) != numbered(name, j),
        ({
            let r = numbered(name, i);
            let k = number_place(name);
            &&& 0 <= k <= name.len()
            &&& r.take(k) == name.take(k)
            &&& ends_with(r, name.skip(k))
            &&& k < name.len() ==> k > 0 && name[k] == '.'
            &&& forall|m: int| k < m < name.len() ==> name[m] != '.'
        }),
{
    crate::details::lemma_last_index(name, '.');
    reveal_strlit(" (");
    reveal_strlit(")");
    let k = number_place(name);
    let r = numbered(name, i);
    assert(r.take(k) =~= name.take(k));
    assert(r.skip(r.len() - name.skip(k).len()) =~= name.skip(k));
    assert(r.len() > name.len());
    if i != j && j > 0 && r == numbered(name, j) {
        let q = numbered(name, j);
        assert(r.len() == name.len() + 3 + numbers::decimal(i).len());
        assert(q.len() == name.len() + 3 + numbers::decimal(j).len());
        assert(r.subrange(k + 2, k + 2 + numbers::decimal(i).len() as int) =~= numbers::decimal(i));
        assert(q.subrange(k + 2, k + 2 + numbers::decimal(j).len() as int) =~= numbers::decimal(j));
        numbers::law_decimal_injective(i, j);
    }
}

/// A shortcut stays a shortcut under any new name, and no other file becomes one: the new
/// name is what was asked for, with the ending of the old one behind it only where that is
/// one of a shortcut and is missing.
pub proof fn law_rename_keeps_shortcut_ending(old: Seq<char>, new: Seq<char>)
    ensures
        ({
            let r = renamed(old, new);
            &&& r.take(new.len() as int) == new
            &&& forall|e: Seq<char>|
                (e == ".lnk"@ || e == ".url"@ || e == ".appref-ms"@) && #[trigger] ends_with(chars::ascii_lower(old), e)
                    && old.len() > e.len() ==> ends_with(chars::ascii_lower(r), e) && r.len() <= new.len() + e.len()
            &&& kept_ending(old) is None ==> r == new
            &&& (forall|e: Seq<char>|
                (e == ".lnk"@ || e == ".url"@ || e == ".appref-ms"@) ==> !(#[trigger] ends_with(
                    chars::ascii_lower(old),
                    e,
                ))) ==> r == new
        }),
{
    reveal_strlit(".lnk");
    reveal_strlit(".url");
    reveal_strlit(".appref-ms");
    let r = renamed(old, new);
    let low = chars::ascii_lower(old);
    assert(r.take(new.len() as int) =~= new);
    assert(chars::ascii_lower(".lnk"@) =~= ".lnk"@);
    assert(chars::ascii_lower(".url"@) =~= ".url"@);
    assert(chars::ascii_lower(".appref-ms"@) =~= ".appref-ms"@);
    assert forall|e: Seq<char>|
        (e == ".lnk"@ || e == ".url"@ || e == ".appref-ms"@) && #[trigger] ends_with(low, e) && old.len() > e.len() implies
        ends_with(chars::ascii_lower(r), e) && r.len() <= new.len() + e.len() by {
        assert(low.skip(low.len() - e.len())[e.len() - 1] == low.last());
        assert(".lnk"@.last() == 'k');
        assert(".url"@.last() == 'l');
        assert(".appref-ms"@.last() == 's');
        assert(kept_ending(old) == Some(e));
        if r != new {
            assert(chars::ascii_lower(r).skip(r.len() - e.len()) =~= chars::ascii_lower(e));
        }
    }
}

/// A renamed file stays in its folder under the name that it was given.
pub proof fn law_renamed_is_called(path: Seq<char>, new: Seq<char>)
    requires
        parent(path) is Some,
        file_name(path) is Some,
        is_plain(renamed(file_name(path)->0, new)),
        prefix_len(joined(parent(path)->0, renamed(file_name(path)->0, new))) == prefix_len(parent(path)->0),
    ensures
        rename_target(path, new) is Some,
        file_name(rename_target(path, new)->0) == Some(renamed(file_name(path)->0, new)),
        rename_target(path, new)->0 == joined(parent(path)->0, renamed(file_name(path)->0, new)),
{
    law_joined_is_called(parent(path)->0, renamed(file_name(path)->0, new));
}

} // verus!
