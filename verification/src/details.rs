//! What the detail columns of a list show: type labels, sizes and times.

use vstd::prelude::*;
use vstd::string::*;

use crate::chars;
use crate::chars::{chars_of, lower, same, upper_of};
use crate::model::ItemKind;
use crate::numbers;
use crate::numbers::push_decimal;

pub use crate::calendar::format_time_utc;

verus! {

/// Where the last path component of `s` starts: behind its last `/` or `\`.
pub open spec fn base_start(s: Seq<char>) -> int
    decreases s.len(),
{
    if s.len() == 0 {
        0
    } else if s.last() == '/' || s.last() == '\\' {
        s.len() as int
    } else {
        base_start(s.drop_last())
    }
}

/// Index of the last `c` in `s`, or -1.
pub open spec fn last_index(s: Seq<char>, c: char) -> int
    decreases s.len(),
{
    if s.len() == 0 {
        -1
    } else if s.last() == c {
        s.len() - 1
    } else {
        last_index(s.drop_last(), c)
    }
}

/// The last path component of `s`.
pub open spec fn base_name(s: Seq<char>) -> Seq<char> {
    s.skip(base_start(s))
}

/// Extension of the last path component, in ASCII lower case and without its dot.
/// A name without a dot, or whose only dot comes first, has none.
pub open spec fn extension_text(s: Seq<char>) -> Option<Seq<char>> {
    let base = base_name(s);
    let dot = last_index(base, '.');
    if dot <= 0 {
        None
    } else {
        Some(chars::ascii_lower(base.skip(dot + 1)))
    }
}

pub proof fn lemma_base_start(s: Seq<char>)
    ensures
        0 <= base_start(s) <= s.len(),
    decreases s.len(),
{
    if s.len() > 0 {
        lemma_base_start(s.drop_last());
    }
}

pub proof fn lemma_last_index(s: Seq<char>, c: char)
    ensures
        -1 <= last_index(s, c) < s.len(),
        last_index(s, c) >= 0 ==> s[last_index(s, c)] == c,
        forall|i: int| last_index(s, c) < i < s.len() ==> s[i] != c,
    decreases s.len(),
{
    if s.len() > 0 {
        let t = s.drop_last();
        lemma_last_index(t, c);
        assert forall|i: int| last_index(s, c) < i < s.len() implies s[i] != c by {
            if i < t.len() {
                assert(s[i] == t[i]);
            }
        }
    }
}

/// Finds where the last path component of `v` starts.
pub fn find_base_start(v: &Vec<char>) -> (r: usize)
    ensures
        r == base_start(v@),
        r <= v.len(),
{
    let mut n: usize = v.len();
    proof {
        assert(v@.take(n as int) =~= v@);
    }
    while n > 0
        invariant
            n <= v.len(),
            base_start(v@) == base_start(v@.take(n as int)),
        decreases n,
    {
        proof {
            assert(v@.take(n as int).drop_last() =~= v@.take(n - 1));
        }
        if v[n - 1] == '/' || v[n - 1] == '\\' {
            return n;
        }
        n -= 1;
    }
    0
}

/// Finds the last `c` in `v[from..]`, counted from `from`.
pub fn find_last(v: &Vec<char>, from: usize, c: char) -> (r: Option<usize>)
    requires
        from <= v.len(),
    ensures
        match r {
            Some(i) => i == last_index(v@.skip(from as int), c) && from + i < v.len(),
            None => last_index(v@.skip(from as int), c) == -1,
        },
{
    let ghost s = v@.skip(from as int);
    let mut n: usize = v.len() - from;
    proof {
        assert(s.take(n as int) =~= s);
    }
    while n > 0
        invariant
            from <= v.len(),
            n <= v.len() - from,
            s == v@.skip(from as int),
            last_index(s, c) == last_index(s.take(n as int), c),
        decreases n,
    {
        proof {
            assert(s.take(n as int).drop_last() =~= s.take(n - 1));
        }
        if v[from + (n - 1)] == c {
            return Some(n - 1);
        }
        n -= 1;
    }
    None
}

/// Extension of a file name or path (lower case, without the dot); `None` where it has none.
pub fn extension_of(name: &str) -> (r: Option<String>)
    ensures
        match r {
            Some(e) => extension_text(name@) == Some(e@),
            None => extension_text(name@) is None,
        },
{
    let v = chars_of(name);
    let start = find_base_start(&v);
    match find_last(&v, start, '.') {
        None => None,
        Some(0) => None,
        Some(dot) => {
            let mut e = String::new();
            let mut i: usize = start + dot + 1;
            let ghost tail = base_name(name@).skip(dot + 1);
            while i < v.len()
                invariant
                    start + dot + 1 <= i <= v.len(),
                    v@ == name@,
                    tail == v@.skip(start as int).skip(dot + 1),
                    e@ == chars::ascii_lower(tail.take(i - start - dot - 1)),
                decreases v.len() - i,
            {
                proof {
                    let k = i - start - dot - 1;
                    assert(chars::ascii_lower(tail.take(k + 1)) =~= chars::ascii_lower(tail.take(k)).push(chars::lower_char(tail[k])));
                }
                e.push(lower(v[i]));
                i += 1;
            }
            proof {
                assert(tail.take(i - start - dot - 1) =~= tail);
            }
            Some(e)
        },
    }
}

/// Whether `e` is one of `names`.
pub open spec fn among(e: Seq<char>, names: Seq<Seq<char>>) -> bool {
    names.contains(e)
}

pub open spec fn image_types() -> Seq<Seq<char>> {
    seq!["jpg"@, "jpeg"@, "png"@, "gif"@, "bmp"@, "webp"@, "ico"@]
}

pub open spec fn audio_types() -> Seq<Seq<char>> {
    seq!["mp3"@, "wav"@, "flac"@, "aac"@, "ogg"@, "m4a"@]
}

pub open spec fn video_types() -> Seq<Seq<char>> {
    seq!["mp4"@, "mkv"@, "avi"@, "mov"@, "wmv"@, "flv"@]
}

pub open spec fn archive_types() -> Seq<Seq<char>> {
    seq!["zip"@, "rar"@, "7z"@, "tar"@, "gz"@]
}

/// Label of a document with extension `e`.
pub open spec fn document_label(e: Option<Seq<char>>) -> Seq<char> {
    match e {
        None => "文件"@,
        Some(x) => if x == "txt"@ {
            "文本文档"@
        } else if x == "pdf"@ {
            "PDF 文档"@
        } else if x == "doc"@ || x == "docx"@ {
            "Word 文档"@
        } else if x == "xls"@ || x == "xlsx"@ {
            "Excel 工作表"@
        } else if x == "ppt"@ || x == "pptx"@ {
            "PowerPoint 演示文稿"@
        } else if among(x, image_types()) {
            "图片"@
        } else if among(x, audio_types()) {
            "音频"@
        } else if among(x, video_types()) {
            "视频"@
        } else if among(x, archive_types()) {
            "压缩文件"@
        } else if x == ""@ {
            "文件"@
        } else {
            chars::ascii_upper(x) + " 文件"@
        },
    }
}

/// Label of an item of kind `kind` shown as `name`.
pub open spec fn label_text(kind: ItemKind, name: Seq<char>) -> Seq<char> {
    match kind {
        ItemKind::Folder => "文件夹"@,
        ItemKind::App => "应用程序"@,
        ItemKind::Link => "快捷方式"@,
        ItemKind::Drive => "驱动器"@,
        ItemKind::Doc => document_label(extension_text(name)),
        ItemKind::Unknown => "文件"@,
    }
}

fn is_image(e: &str) -> (r: bool)
    ensures
        r == among(e@, image_types()),
{
    proof {
        let t = image_types();
        assert(t[0] == "jpg"@ && t[1] == "jpeg"@ && t[2] == "png"@ && t[3] == "gif"@ && t[4] == "bmp"@
            && t[5] == "webp"@ && t[6] == "ico"@);
    }
    same(e, "jpg") || same(e, "jpeg") || same(e, "png") || same(e, "gif") || same(e, "bmp") || same(
        e,
        "webp",
    ) || same(e, "ico")
}

fn is_audio(e: &str) -> (r: bool)
    ensures
        r == among(e@, audio_types()),
{
    proof {
        let t = audio_types();
        assert(t[0] == "mp3"@ && t[1] == "wav"@ && t[2] == "flac"@ && t[3] == "aac"@ && t[4] == "ogg"@
            && t[5] == "m4a"@);
    }
    same(e, "mp3") || same(e, "wav") || same(e, "flac") || same(e, "aac") || same(e, "ogg") || same(
        e,
        "m4a",
    )
}

fn is_video(e: &str) -> (r: bool)
    ensures
        r == among(e@, video_types()),
{
    proof {
        let t = video_types();
        assert(t[0] == "mp4"@ && t[1] == "mkv"@ && t[2] == "avi"@ && t[3] == "mov"@ && t[4] == "wmv"@
            && t[5] == "flv"@);
    }
    same(e, "mp4") || same(e, "mkv") || same(e, "avi") || same(e, "mov") || same(e, "wmv") || same(
        e,
        "flv",
    )
}

fn is_archive(e: &str) -> (r: bool)
    ensures
        r == among(e@, archive_types()),
{
    proof {
        let t = archive_types();
        assert(t[0] == "zip"@ && t[1] == "rar"@ && t[2] == "7z"@ && t[3] == "tar"@ && t[4] == "gz"@);
    }
    same(e, "zip") || same(e, "rar") || same(e, "7z") || same(e, "tar") || same(e, "gz")
}

/// The label of the type column.
pub fn type_label(kind: ItemKind, display_name: &str) -> (r: String)
    ensures
        r@ == label_text(kind, display_name@),
{
    match kind {
        ItemKind::Folder => "文件夹".to_owned(),
        ItemKind::App => "应用程序".to_owned(),
        ItemKind::Link => "快捷方式".to_owned(),
        ItemKind::Drive => "驱动器".to_owned(),
        ItemKind::Unknown => "文件".to_owned(),
        ItemKind::Doc => match extension_of(display_name) {
            None => "文件".to_owned(),
            Some(ext) => {
                let e = ext.as_str();
                if same(e, "txt") {
                    "文本文档".to_owned()
                } else if same(e, "pdf") {
                    "PDF 文档".to_owned()
                } else if same(e, "doc") || same(e, "docx") {
                    "Word 文档".to_owned()
                } else if same(e, "xls") || same(e, "xlsx") {
                    "Excel 工作表".to_owned()
                } else if same(e, "ppt") || same(e, "pptx") {
                    "PowerPoint 演示文稿".to_owned()
                } else if is_image(e) {
                    "图片".to_owned()
                } else if is_audio(e) {
                    "音频".to_owned()
                } else if is_video(e) {
                    "视频".to_owned()
                } else if is_archive(e) {
                    "压缩文件".to_owned()
                } else if same(e, "") {
                    "文件".to_owned()
                } else {
                    let mut s = upper_of(e);
                    s.append(" 文件");
                    s
                }
            },
        },
    }
}

/// `num / den` rounded to the nearest integer, a tie going to the even one.
pub open spec fn round_half_even(num: nat, den: nat) -> nat {
    let q = num / den;
    let r = num % den;
    if 2 * r > den || (2 * r == den && q % 2 == 1) {
        q + 1
    } else {
        q
    }
}

/// The weight of the last of 53 significant bits of `b`.
pub open spec fn double_step(b: nat) -> nat
    recommends
        b <= u64::MAX,
{
    if b < 0x20_0000_0000_0000 {
        1
    } else if b < 0x40_0000_0000_0000 {
        2
    } else if b < 0x80_0000_0000_0000 {
        4
    } else if b < 0x100_0000_0000_0000 {
        8
    } else if b < 0x200_0000_0000_0000 {
        16
    } else if b < 0x400_0000_0000_0000 {
        32
    } else if b < 0x800_0000_0000_0000 {
        64
    } else if b < 0x1000_0000_0000_0000 {
        128
    } else if b < 0x2000_0000_0000_0000 {
        256
    } else if b < 0x4000_0000_0000_0000 {
        512
    } else if b < 0x8000_0000_0000_0000 {
        1024
    } else {
        2048
    }
}

/// `b` rounded to 53 significant bits, a tie going to the even last bit.
pub open spec fn to_double(b: nat) -> nat {
    round_half_even(b, double_step(b)) * double_step(b)
}

/// `v / unit` with no decimals from 100 upwards, with one decimal below.
pub open spec fn scaled_text(v: nat, unit: nat) -> Seq<char> {
    if v >= 100 * unit {
        numbers::decimal(round_half_even(v, unit))
    } else {
        let tenths = round_half_even(10 * v, unit);
        numbers::decimal(tenths / 10) + seq!['.'] + numbers::decimal(tenths % 10)
    }
}

/// A byte count for people: bytes below 1024, then the first of KB, MB, GB, TB and PB
/// in which the count is below 1024 (PB takes what is left).
pub open spec fn size_text(bytes: Option<u64>) -> Seq<char> {
    match bytes {
        None => "—"@,
        Some(b) => {
            let v = to_double(b as nat);
            if b < 0x400 {
                numbers::decimal(b as nat) + " B"@
            } else if v < 0x10_0000 {
                scaled_text(v, 0x400) + " KB"@
            } else if v < 0x4000_0000 {
                scaled_text(v, 0x10_0000) + " MB"@
            } else if v < 0x100_0000_0000 {
                scaled_text(v, 0x4000_0000) + " GB"@
            } else if v < 0x4_0000_0000_0000 {
                scaled_text(v, 0x100_0000_0000) + " TB"@
            } else {
                scaled_text(v, 0x4_0000_0000_0000) + " PB"@
            }
        },
    }
}

fn divide_half_even(num: u128, den: u128) -> (r: u128)
    requires
        0 < den < 0x8000_0000_0000_0000,
        num < 0x1_0000_0000_0000_0000_0000_0000,
    ensures
        r == round_half_even(num as nat, den as nat),
        r <= num / den + 1,
{
    let q: u128 = num / den;
    let rem: u128 = num % den;
    proof {
        assert(q <= num) by (nonlinear_arith)
            requires
                q == num / den,
                den > 0,
        ;
    }
    if 2 * rem > den || (2 * rem == den && q % 2 == 1) {
        q + 1
    } else {
        q
    }
}

fn step_of(b: u64) -> (r: u64)
    ensures
        r == double_step(b as nat),
        1 <= r <= 2048,
{
    if b < 0x20_0000_0000_0000 {
        1
    } else if b < 0x40_0000_0000_0000 {
        2
    } else if b < 0x80_0000_0000_0000 {
        4
    } else if b < 0x100_0000_0000_0000 {
        8
    } else if b < 0x200_0000_0000_0000 {
        16
    } else if b < 0x400_0000_0000_0000 {
        32
    } else if b < 0x800_0000_0000_0000 {
        64
    } else if b < 0x1000_0000_0000_0000 {
        128
    } else if b < 0x2000_0000_0000_0000 {
        256
    } else if b < 0x4000_0000_0000_0000 {
        512
    } else if b < 0x8000_0000_0000_0000 {
        1024
    } else {
        2048
    }
}

/// A count moved by at most one step stays within the step.
proof fn lemma_rounded_bound(b: nat, d: nat)
    requires
        d > 0,
    ensures
        round_half_even(b, d) * d <= b + d,
{
    assert((b / d + 1) * d <= b + d && (b / d) * d <= b) by (nonlinear_arith)
        requires
            d > 0,
    ;
}

fn rounded(b: u64) -> (r: u128)
    ensures
        r == to_double(b as nat),
        r <= b + 2048,
{
    let step: u64 = step_of(b);
    let q: u128 = divide_half_even(b as u128, step as u128);
    proof {
        lemma_rounded_bound(b as nat, step as nat);
        assert(q * step <= b + 2048);
    }
    q * step as u128
}

fn scaled(v: u128, unit: u128) -> (s: String)
    requires
        0x400 <= unit <= 0x4_0000_0000_0000,
        v <= 0x1_0000_0000_0000_0800,
    ensures
        s@ == scaled_text(v as nat, unit as nat),
{
    let mut s = String::new();
    proof {
        assert(v / unit <= v / 0x400) by (nonlinear_arith)
            requires
                unit >= 0x400,
        ;
        assert((10 * v) / (unit as int) <= (10 * v) / 0x400) by (nonlinear_arith)
            requires
                unit >= 0x400,
                v >= 0,
        ;
    }
    if v >= 100 * unit {
        let q: u128 = divide_half_even(v, unit);
        push_decimal(&mut s, q as u64);
        proof {
            assert(s@ =~= scaled_text(v as nat, unit as nat));
        }
    } else {
        let t: u128 = divide_half_even(10 * v, unit);
        push_decimal(&mut s, (t / 10) as u64);
        s.push('.');
        push_decimal(&mut s, (t % 10) as u64);
        proof {
            assert(s@ =~= scaled_text(v as nat, unit as nat));
        }
    }
    s
}

/// A byte count for people (such as `1.5 KB`); a dash where there is none.
pub fn format_size(bytes: Option<u64>) -> (r: String)
    ensures
        r@ == size_text(bytes),
{
    let b: u64 = match bytes {
        None => {
            return "—".to_owned();
        },
        Some(b) => b,
    };
    if b < 0x400 {
        let mut s = String::new();
        push_decimal(&mut s, b);
        s.append(" B");
        proof {
            assert(s@ =~= size_text(bytes));
        }
        return s;
    }
    let v: u128 = rounded(b);
    if v < 0x10_0000 {
        let mut s = scaled(v, 0x400);
        s.append(" KB");
        s
    } else if v < 0x4000_0000 {
        let mut s = scaled(v, 0x10_0000);
        s.append(" MB");
        s
    } else if v < 0x100_0000_0000 {
        let mut s = scaled(v, 0x4000_0000);
        s.append(" GB");
        s
    } else if v < 0x4_0000_0000_0000 {
        let mut s = scaled(v, 0x100_0000_0000);
        s.append(" TB");
        s
    } else {
        let mut s = scaled(v, 0x4_0000_0000_0000);
        s.append(" PB");
        s
    }
}

/// Counts of up to 53 bits are shown exactly as they are: rounding changes nothing.
pub proof fn law_small_sizes_are_exact(b: nat)
    requires
        b < 0x20_0000_0000_0000,
    ensures
        to_double(b) == b,
{
}

proof fn lemma_last_index_at(s: Seq<char>, c: char, k: int)
    requires
        0 <= k < s.len(),
        s[k] == c,
        forall|i: int| k < i < s.len() ==> #[trigger] s[i] != c,
    ensures
        last_index(s, c) == k,
{
    lemma_last_index(s, c);
}

proof fn lemma_base_start_at(s: Seq<char>, k: int)
    requires
        0 <= k <= s.len(),
        k == 0 || s[k - 1] == '/' || s[k - 1] == '\\',
        forall|i: int| k <= i < s.len() ==> #[trigger] s[i] != '/' && s[i] != '\\',
    ensures
        base_start(s) == k,
    decreases s.len(),
{
    if s.len() > k {
        let t = s.drop_last();
        assert(s.last() == s[s.len() - 1]);
        assert forall|i: int| k <= i < t.len() implies #[trigger] t[i] != '/' && t[i] != '\\' by {
            assert(t[i] == s[i]);
        }
        if k > 0 {
            assert(t[k - 1] == s[k - 1]);
        }
        lemma_base_start_at(t, k);
    } else if k > 0 {
        assert(s.last() == s[k - 1]);
    }
}

/// The extension of a file is what follows the last dot of its name, whatever folder it lies
/// in and whatever the case of its letters.
pub proof fn law_extension_follows_the_dot(dir: Seq<char>, stem: Seq<char>, ext: Seq<char>)
    requires
        dir.len() == 0 || dir.last() == '/' || dir.last() == '\\',
        stem.len() > 0,
        forall|i: int| 0 <= i < stem.len() ==> #[trigger] stem[i] != '/' && stem[i] != '\\',
        forall|i: int| 0 <= i < ext.len() ==> #[trigger] ext[i] != '/' && ext[i] != '\\' && ext[i] != '.',
    ensures
        extension_text(dir + stem + seq!['.'] + ext) == Some(chars::ascii_lower(ext)),
{
    let s = dir + stem + seq!['.'] + ext;
    let k = dir.len() as int;
    assert forall|i: int| k <= i < s.len() implies #[trigger] s[i] != '/' && s[i] != '\\' by {
        if i < k + stem.len() {
            assert(s[i] == stem[i - k]);
        } else if i > k + stem.len() {
            assert(s[i] == ext[i - k - stem.len() - 1]);
        }
    }
    if k > 0 {
        assert(s[k - 1] == dir.last());
    }
    lemma_base_start_at(s, k);
    let b = s.skip(k);
    let d = stem.len() as int;
    assert(b[d] == '.');
    assert forall|i: int| d < i < b.len() implies #[trigger] b[i] != '.' by {
        assert(b[i] == ext[i - d - 1]);
    }
    lemma_last_index_at(b, '.', d);
    assert(b.skip(d + 1) =~= ext);
}

/// Rounding goes to the nearest whole number, and of two that are as near to the even one.
pub proof fn law_rounds_to_the_nearest(num: nat, den: nat)
    requires
        den > 0,
    ensures
        ({
            let q = round_half_even(num, den);
            &&& -(den as int) <= 2 * (num - q * den) <= den
            &&& 2 * (num - q * den) == den || 2 * (q * den - num) == den ==> q % 2 == 0
        }),
{
    let q = num / den;
    let r = num % den;
    vstd::arithmetic::div_mod::lemma_fundamental_div_mod(num as int, den as int);
    assert(q * den == den * q) by (nonlinear_arith);
    assert((q + 1) * den == q * den + den) by (nonlinear_arith);
    assert(r < den);
}

/// A count of bytes that a double holds exactly is not rounded, and any other is off by half
/// the last of its bits at most.
pub proof fn law_double_is_near(b: nat)
    requires
        b <= u64::MAX,
    ensures
        b < 0x20_0000_0000_0000 ==> to_double(b) == b,
        -(double_step(b) as int) <= 2 * (to_double(b) - b) <= double_step(b),
{
    law_rounds_to_the_nearest(b, double_step(b));
    if b < 0x20_0000_0000_0000 {
        assert(b / 1 == b);
        assert(b % 1 == 0);
        assert(round_half_even(b, 1) == b);
        assert(b * 1 == b);
    }
}

/// The label of a document goes by the extension of its name alone, whatever the case of its
/// letters.
pub proof fn law_label_goes_by_extension(
    dir: Seq<char>,
    stem: Seq<char>,
    ext: Seq<char>,
    folder: Seq<char>,
    other: Seq<char>,
    same: Seq<char>,
)
    requires
        dir.len() == 0 || dir.last() == '/' || dir.last() == '\\',
        folder.len() == 0 || folder.last() == '/' || folder.last() == '\\',
        stem.len() > 0,
        other.len() > 0,
        forall|i: int| 0 <= i < stem.len() ==> #[trigger] stem[i] != '/' && stem[i] != '\\',
        forall|i: int| 0 <= i < other.len() ==> #[trigger] other[i] != '/' && other[i] != '\\',
        forall|i: int| 0 <= i < ext.len() ==> #[trigger] ext[i] != '/' && ext[i] != '\\' && ext[i] != '.',
        forall|i: int| 0 <= i < same.len() ==> #[trigger] same[i] != '/' && same[i] != '\\' && same[i] != '.',
        chars::ascii_lower(ext) == chars::ascii_lower(same),
    ensures
        label_text(ItemKind::Doc, dir + stem + seq!['.'] + ext) == label_text(
            ItemKind::Doc,
            folder + other + seq!['.'] + same,
        ),
        label_text(ItemKind::Folder, dir + stem + seq!['.'] + ext) == label_text(ItemKind::Folder, folder),
{
    law_extension_follows_the_dot(dir, stem, ext);
    law_extension_follows_the_dot(folder, other, same);
}

} // verus!
