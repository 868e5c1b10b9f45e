//! Pictures of icons: how they are read from bitmaps, how long one waits for them, and
//! the pictures that are kept at hand.

use vstd::prelude::*;
use vstd::string::*;

use crate::chars::same;
use crate::model::ItemId;

verus! {

/// A picture: rows from the top, four bytes a pixel (blue, green, red, alpha), rows
/// without gaps.
#[derive(Debug, PartialEq, Eq)]
pub struct IconData {
    pub width: u32,
    pub height: u32,
    pub pixels: Vec<u8>,
}

impl IconData {
    /// The number of bytes is what the size asks for.
    pub open spec fn wf(self) -> bool {
        self.pixels.len() == self.width * self.height * 4
    }

    /// Bytes of a row.
    pub fn stride(&self) -> (r: usize)
        requires
            self.width * 4 <= usize::MAX,
        ensures
            r == self.width * 4,
    {
        self.width as usize * 4
    }
}

/// Where in the source the row at `row` of the picture starts.
pub open spec fn source_row(height: int, src_stride: int, bottom_up: bool, row: int) -> int {
    (if bottom_up {
        height - 1 - row
    } else {
        row
    }) * src_stride
}

/// The byte of the source that goes to place `k` of a picture.
pub open spec fn source_of(width: int, height: int, src_stride: int, bottom_up: bool, k: int) -> int {
    source_row(height, src_stride, bottom_up, k / (width * 4)) + k % (width * 4)
}

/// The source holds every row of a picture.
pub open spec fn rows_fit(width: int, height: int, src_stride: int, len: int) -> bool {
    width == 0 || height == 0 || (height - 1) * src_stride + width * 4 <= len
}

proof fn lemma_place(w: int, row: int, col: int)
    requires
        w > 0,
        0 <= col < w,
    ensures
        (row * w + col) / w == row,
        (row * w + col) % w == col,
{
    vstd::arithmetic::div_mod::lemma_fundamental_div_mod_converse(row * w + col, w, row, col);
}

/// Copies the rows of a bitmap, the last one first where it is stored from the bottom.
/// Rows of the source start `src_stride` bytes apart.
pub fn copy_rows(width: u32, height: u32, src_stride: usize, src: &Vec<u8>, bottom_up: bool, out: &mut Vec<u8>)
    requires
        rows_fit(width as int, height as int, src_stride as int, src.len() as int),
        width * height * 4 <= old(out).len(),
    ensures
        final(out).len() == old(out).len(),
        forall|k: int|
            0 <= k < width * height * 4 ==> #[trigger] final(out)[k] == src[source_of(
                width as int,
                height as int,
                src_stride as int,
                bottom_up,
                k,
            )],
        forall|k: int| width * height * 4 <= k < old(out).len() ==> #[trigger] final(out)[k] == old(out)[k],
{
    let ghost o = out@;
    let ghost w4: int = width * 4;
    let ghost h: int = height as int;
    if width == 0 || height == 0 {
        proof {
            assert(width * height * 4 == 0) by (nonlinear_arith)
                requires
                    width == 0 || height == 0,
            ;
        }
        return;
    }
    proof {
        assert(w4 <= width * height * 4) by (nonlinear_arith)
            requires
                w4 == width * 4,
                height >= 1,
                width >= 1,
        ;
        assert(w4 * h == width * height * 4) by (nonlinear_arith)
            requires
                w4 == width * 4,
                h == height,
        ;
    }
    let row_bytes: usize = width as usize * 4;
    let mut row: u32 = 0;
    while row < height
        invariant
            row <= height,
            width > 0,
            h == height,
            w4 == width * 4,
            row_bytes == w4,
            o.len() == out.len(),
            w4 * h == width * height * 4,
            w4 * h <= out.len(),
            (h - 1) * src_stride + w4 <= src.len(),
            forall|k: int|
                0 <= k < row * w4 ==> #[trigger] out[k] == src[source_of(
                    width as int,
                    h,
                    src_stride as int,
                    bottom_up,
                    k,
                )],
            forall|k: int| row * w4 <= k < out.len() ==> #[trigger] out[k] == o[k],
        decreases height - row,
    {
        let src_row: u32 = if bottom_up {
            height - 1 - row
        } else {
            row
        };
        proof {
            assert(0 <= row * w4 && row * w4 + w4 <= w4 * h) by (nonlinear_arith)
                requires
                    0 <= row < h,
                    w4 > 0,
            ;
            assert(0 <= src_row * src_stride && src_row * src_stride <= (h - 1) * src_stride) by (nonlinear_arith)
                requires
                    0 <= src_row < h,
                    src_stride >= 0,
            ;
        }
        let dst_off: usize = row as usize * row_bytes;
        let src_off: usize = src_row as usize * src_stride;
        let mut col: usize = 0;
        while col < row_bytes
            invariant
                col <= row_bytes,
                row < height,
                h == height,
                width > 0,
                w4 == width * 4,
                row_bytes == w4,
                o.len() == out.len(),
                dst_off == row * w4,
                src_off == src_row * src_stride,
                src_row == if bottom_up {
                    h - 1 - row
                } else {
                    row as int
                },
                dst_off + w4 <= out.len(),
                src_off + w4 <= src.len(),
                forall|k: int|
                    0 <= k < dst_off + col ==> #[trigger] out[k] == src[source_of(
                        width as int,
                        h,
                        src_stride as int,
                        bottom_up,
                        k,
                    )],
                forall|k: int| dst_off + col <= k < out.len() ==> #[trigger] out[k] == o[k],
            decreases row_bytes - col,
        {
            proof {
                lemma_place(w4, row as int, col as int);
            }
            out[dst_off + col] = src[src_off + col];
            col += 1;
        }
        proof {
            assert((row + 1) * w4 == row * w4 + w4) by (nonlinear_arith);
        }
        row += 1;
    }
    proof {
        assert(row * w4 == w4 * h) by (nonlinear_arith)
            requires
                row == h,
        ;
    }
}

/// Why a bitmap gave no picture.
#[derive(Debug, Clone, Copy, PartialEq, Eq, Structural)]
pub enum BitmapFault {
    /// It is no bitmap of 32 bits a pixel.
    BadFormat,
    /// Its bits cannot be read.
    NoBits,
}

/// The invalid-argument code of the system.
pub const E_BAD_FORMAT: i32 = -2147024809;

/// The bad-pointer code of the system.
pub const E_NO_BITS: i32 = -2147467261;

/// The code of the system for a picture that is not ready.
pub const E_PENDING: i32 = -2147483638;

/// The system's code for a failure of no kind.
pub const E_FAIL: i32 = -2147467259;

impl BitmapFault {
    pub fn code(&self) -> (r: i32)
        ensures
            r == match *self {
                BitmapFault::BadFormat => E_BAD_FORMAT,
                BitmapFault::NoBits => E_NO_BITS,
            },
    {
        match *self {
            BitmapFault::BadFormat => E_BAD_FORMAT,
            BitmapFault::NoBits => E_NO_BITS,
        }
    }
}

/// A bitmap as the system describes it.
#[derive(Debug, PartialEq)]
pub struct Bitmap {
    pub width: i32,
    /// Positive where the rows are stored from the bottom.
    pub height: i32,
    pub width_bytes: i32,
    pub bits_pixel: u16,
    /// The bytes, where they can be read.
    pub bits: Option<Vec<u8>>,
}

impl Bitmap {
    pub open spec fn columns(self) -> int {
        if self.width > 0 {
            self.width as int
        } else {
            0
        }
    }

    pub open spec fn rows(self) -> int {
        if self.height < 0 {
            -(self.height as int)
        } else {
            self.height as int
        }
    }

    pub open spec fn row_stride(self) -> int {
        if self.width_bytes > 0 {
            self.width_bytes as int
        } else {
            0
        }
    }

    /// The description is of the bytes: they hold every row.
    pub open spec fn wf(self) -> bool {
        self.columns() * self.rows() * 4 <= u32::MAX && (self.bits matches Some(b) ==> rows_fit(
            self.columns(),
            self.rows(),
            self.row_stride(),
            b.len() as int,
        ))
    }
}

/// `d` is the picture in the bitmap.
pub open spec fn decoded(b: Bitmap, d: IconData) -> bool {
    &&& d.width == b.columns()
    &&& d.height == b.rows()
    &&& d.wf()
    &&& b.bits matches Some(src) && forall|k: int|
        0 <= k < d.pixels.len() ==> #[trigger] d.pixels[k] == src[source_of(
            b.columns(),
            b.rows(),
            b.row_stride(),
            b.height > 0,
            k,
        )]
}

/// The picture in a bitmap; none where the system gave no bitmap at all, where its bytes
/// cannot be read, or where it is not of 32 bits a pixel.
pub fn hbitmap_to_icon_data(bitmap: &Option<Bitmap>) -> (r: Result<IconData, BitmapFault>)
    requires
        *bitmap matches Some(b) ==> b.wf(),
    ensures
        match *bitmap {
            None => r == Err::<IconData, BitmapFault>(BitmapFault::BadFormat),
            Some(b) => if b.bits is None {
                r == Err::<IconData, BitmapFault>(BitmapFault::NoBits)
            } else if b.bits_pixel != 32 {
                r == Err::<IconData, BitmapFault>(BitmapFault::BadFormat)
            } else {
                r matches Ok(d) && decoded(b, d)
            },
        },
{
    let b = match bitmap {
        Some(b) => b,
        None => {
            return Err(BitmapFault::BadFormat);
        },
    };
    let src = match &b.bits {
        Some(v) => v,
        None => {
            return Err(BitmapFault::NoBits);
        },
    };
    if b.bits_pixel != 32 {
        return Err(BitmapFault::BadFormat);
    }
    let width: u32 = if b.width > 0 {
        b.width as u32
    } else {
        0
    };
    let height: u32 = if b.height < 0 {
        (-(b.height as i64)) as u32
    } else {
        b.height as u32
    };
    let stride: usize = if b.width_bytes > 0 {
        b.width_bytes as usize
    } else {
        0
    };
    proof {
        assert(0 <= width * height) by (nonlinear_arith)
            requires
                width >= 0,
                height >= 0,
        ;
    }
    let total: u32 = width * height * 4;
    let mut pixels: Vec<u8> = Vec::new();
    while pixels.len() < total as usize
        invariant
            pixels.len() <= total,
        decreases total - pixels.len(),
    {
        pixels.push(0);
    }
    copy_rows(width, height, stride, src, b.height > 0, &mut pixels);
    Ok(IconData { width, height, pixels })
}

/// Reading a bitmap stored from the bottom gives the same picture as reading the same rows
/// stored from the top.
pub proof fn law_rows_from_bottom(width: int, height: int, src_stride: int, row: int, col: int)
    requires
        0 < width,
        0 <= row < height,
        0 <= col < width * 4,
    ensures
        source_of(width, height, src_stride, true, row * (width * 4) + col) == source_of(
            width,
            height,
            src_stride,
            false,
            (height - 1 - row) * (width * 4) + col,
        ),
        source_of(width, height, src_stride, false, row * (width * 4) + col) == row * src_stride + col,
{
    lemma_place(width * 4, row, col);
    lemma_place(width * 4, height - 1 - row, col);
}

/// How often a picture is asked for at most.
pub const MAX_ICON_ATTEMPTS: u32 = 6;

/// What follows a failed attempt.
#[derive(Debug, Clone, Copy, PartialEq, Eq, Structural)]
pub enum Retry {
    /// Asking again is of no use.
    GiveUp,
    /// To be asked again after so many milliseconds.
    After(u64),
}

/// How long to wait after the attempt of the given number, in milliseconds: twice as long
/// each time.
pub open spec fn wait_after(attempt: nat) -> nat
    decreases attempt,
{
    if attempt == 0 {
        50
    } else {
        2 * wait_after((attempt - 1) as nat)
    }
}

/// What follows when the attempt of the given number, counted from 0, failed with a code of
/// the system: pictures that are not ready yet are asked for again.
pub fn after_failure(attempt: u32, code: i32) -> (r: Retry)
    ensures
        r == if (code == E_PENDING || code == E_FAIL) && attempt + 1 < MAX_ICON_ATTEMPTS {
            Retry::After(wait_after(attempt as nat) as u64)
        } else {
            Retry::GiveUp
        },
{
    if (code == E_PENDING || code == E_FAIL) && attempt < MAX_ICON_ATTEMPTS - 1 {
        let mut ms: u64 = 50;
        let mut k: u32 = 0;
        while k < attempt
            invariant
                k <= attempt < 5,
                ms == wait_after(k as nat),
                k == 0 ==> ms == 50,
                k == 1 ==> ms == 100,
                k == 2 ==> ms == 200,
                k == 3 ==> ms == 400,
                k == 4 ==> ms == 800,
            decreases attempt - k,
        {
            ms = 2 * ms;
            k += 1;
        }
        Retry::After(ms)
    } else {
        Retry::GiveUp
    }
}

/// All waiting for one picture takes 1550 milliseconds.
pub proof fn law_waiting_ends()
    ensures
        wait_after(0) + wait_after(1) + wait_after(2) + wait_after(3) + wait_after(4) == 1550,
{
    reveal_with_fuel(wait_after, 6);
}

/// The pictures kept at hand, the one that was longest out of use first.
pub struct IconCache {
    capacity: usize,
    entries: Vec<(ItemId, IconData)>,
}

/// What a cache holds, the entry that was longest out of use first.
pub open spec fn keys(e: Seq<(Seq<char>, IconData)>) -> Seq<Seq<char>> {
    e.map_values(|p: (Seq<char>, IconData)| p.0)
}

/// The place of an entry; the number of entries where there is none.
pub open spec fn place_of(e: Seq<(Seq<char>, IconData)>, id: Seq<char>, from: int) -> int
    decreases e.len() - from,
{
    if from >= e.len() || e[from].0 == id {
        from
    } else {
        place_of(e, id, from + 1)
    }
}

/// The entries after the one for `id` was used.
pub open spec fn used(e: Seq<(Seq<char>, IconData)>, id: Seq<char>) -> Seq<(Seq<char>, IconData)> {
    let i = place_of(e, id, 0);
    if i < e.len() {
        e.remove(i).push(e[i])
    } else {
        e
    }
}

/// The entries after one was put: in its old place, or last, for which the first goes where
/// there is no room.
pub open spec fn stored(e: Seq<(Seq<char>, IconData)>, capacity: int, id: Seq<char>, data: IconData) -> Seq<
    (Seq<char>, IconData),
> {
    let i = place_of(e, id, 0);
    if i < e.len() {
        e.update(i, (id, data))
    } else if e.len() >= capacity {
        e.remove(0).push((id, data))
    } else {
        e.push((id, data))
    }
}

proof fn lemma_place_of(e: Seq<(Seq<char>, IconData)>, id: Seq<char>, from: int)
    requires
        0 <= from <= e.len(),
    ensures
        from <= place_of(e, id, from) <= e.len(),
        place_of(e, id, from) < e.len() ==> e[place_of(e, id, from)].0 == id,
        forall|j: int| from <= j < place_of(e, id, from) ==> (#[trigger] e[j]).0 != id,
    decreases e.len() - from,
{
    if from < e.len() && e[from].0 != id {
        lemma_place_of(e, id, from + 1);
    }
}

impl IconCache {
    pub closed spec fn view(self) -> Seq<(Seq<char>, IconData)> {
        self.entries@.map_values(|p: (ItemId, IconData)| (p.0@, p.1))
    }

    /// How many pictures are kept at most.
    pub closed spec fn room(self) -> nat {
        self.capacity as nat
    }

    /// There is room for one picture at least, no more are kept than there is room for, and
    /// none is kept twice.
    pub open spec fn wf(self) -> bool {
        self.room() >= 1 && self@.len() <= self.room() && keys(self@).no_duplicates()
    }

    pub fn new(capacity: usize) -> (r: Self)
        ensures
            r.wf(),
            r@ == Seq::<(Seq<char>, IconData)>::empty(),
            r.room() == if capacity == 0 {
                1
            } else {
                capacity as nat
            },
    {
        let r = IconCache {
            capacity: if capacity == 0 {
                1
            } else {
                capacity
            },
            entries: Vec::new(),
        };
        proof {
            assert(r@ =~= Seq::<(Seq<char>, IconData)>::empty());
        }
        r
    }

    fn find(&self, id: &str) -> (r: usize)
        ensures
            r == place_of(self@, id@, 0),
            r <= self@.len(),
    {
        let mut i: usize = 0;
        while i < self.entries.len()
            invariant
                i <= self.entries.len(),
                place_of(self@, id@, 0) == place_of(self@, id@, i as int),
            decreases self.entries.len() - i,
        {
            let hit = same(self.entries[i].0.as_str(), id);
            if hit {
                return i;
            }
            i += 1;
        }
        i
    }

    /// The picture for `id`, if it is kept; it is then the last to go.
    pub fn get(&mut self, id: &str) -> (r: Option<&IconData>)
        requires
            old(self).wf(),
        ensures
            final(self).wf(),
            final(self).room() == old(self).room(),
            final(self)@ == used(old(self)@, id@),
            match r {
                Some(d) => place_of(old(self)@, id@, 0) < old(self)@.len() && *d == old(self)@[place_of(
                    old(self)@,
                    id@,
                    0,
                )].1,
                None => place_of(old(self)@, id@, 0) == old(self)@.len(),
            },
    {
        let i = self.find(id);
        if i >= self.entries.len() {
            return None;
        }
        let ghost e = self@;
        proof {
            lemma_place_of(e, id@, 0);
        }
        let entry = self.entries.remove(i);
        self.entries.push(entry);
        proof {
            assert(self@ =~= used(e, id@));
            lemma_used(e, id@);
        }
        let last = self.entries.len() - 1;
        Some(&self.entries[last].1)
    }

    /// Keeps a picture, in place of an older one for the same `id`; where there is no room
    /// the one that was longest out of use goes.
    pub fn insert(&mut self, id: ItemId, data: IconData)
        requires
            old(self).wf(),
        ensures
            final(self).wf(),
            final(self).room() == old(self).room(),
            final(self)@ == stored(old(self)@, old(self).room() as int, id@, data),
    {
        let ghost e = self@;
        let ghost cap = self.room() as int;
        let ghost name = id@;
        let ghost d0 = data;
        let i = self.find(id.as_str());
        proof {
            lemma_place_of(e, name, 0);
            lemma_stored(e, cap, name, data);
        }
        if i < self.entries.len() {
            self.entries[i] = (id, data);
            proof {
                assert(self@ =~= stored(e, cap, name, d0));
            }
            return;
        }
        if self.entries.len() >= self.capacity {
            self.entries.remove(0);
        }
        self.entries.push((id, data));
        proof {
            assert(self@ =~= stored(e, cap, name, d0));
        }
    }

    pub fn len(&self) -> (r: usize)
        ensures
            r == self@.len(),
    {
        self.entries.len()
    }

    pub fn is_empty(&self) -> (r: bool)
        ensures
            r == (self@.len() == 0),
    {
        self.entries.len() == 0
    }
}

proof fn lemma_used(e: Seq<(Seq<char>, IconData)>, id: Seq<char>)
    requires
        keys(e).no_duplicates(),
    ensures
        keys(used(e, id)).no_duplicates(),
        used(e, id).len() == e.len(),
{
    lemma_place_of(e, id, 0);
    let i = place_of(e, id, 0);
    if i < e.len() {
        let u = used(e, id);
        let k = keys(e);
        assert forall|a: int, b: int| 0 <= a < u.len() && 0 <= b < u.len() && a != b implies keys(u)[a] != keys(u)[b] by {
            let a0 = if a == e.len() - 1 {
                i
            } else if a < i {
                a
            } else {
                a + 1
            };
            let b0 = if b == e.len() - 1 {
                i
            } else if b < i {
                b
            } else {
                b + 1
            };
            assert(keys(u)[a] == k[a0]);
            assert(keys(u)[b] == k[b0]);
        }
    }
}

proof fn lemma_stored(e: Seq<(Seq<char>, IconData)>, cap: int, id: Seq<char>, data: IconData)
    requires
        keys(e).no_duplicates(),
        1 <= cap,
        e.len() <= cap,
    ensures
        keys(stored(e, cap, id, data)).no_duplicates(),
        stored(e, cap, id, data).len() <= cap,
{
    lemma_place_of(e, id, 0);
    let i = place_of(e, id, 0);
    let s = stored(e, cap, id, data);
    let k = keys(e);
    if i < e.len() {
        assert(keys(s) =~= k);
    } else {
        let off: int = if e.len() >= cap {
            1
        } else {
            0
        };
        assert forall|a: int, b: int| 0 <= a < s.len() && 0 <= b < s.len() && a != b implies keys(s)[a] != keys(s)[b] by {
            if a < s.len() - 1 {
                assert(keys(s)[a] == k[a + off]);
                assert(e[a + off].0 != id);
            }
            if b < s.len() - 1 {
                assert(keys(s)[b] == k[b + off]);
                assert(e[b + off].0 != id);
            }
        }
    }
}

/// A picture that was just put is found, as it was put.
pub proof fn law_stored_is_found(e: Seq<(Seq<char>, IconData)>, cap: int, id: Seq<char>, data: IconData)
    requires
        keys(e).no_duplicates(),
        1 <= cap,
        e.len() <= cap,
    ensures
        ({
            let s = stored(e, cap, id, data);
            let i = place_of(s, id, 0);
            i < s.len() && s[i] == (id, data)
        }),
{
    lemma_place_of(e, id, 0);
    let s = stored(e, cap, id, data);
    lemma_stored(e, cap, id, data);
    lemma_place_of(s, id, 0);
    let at: int = if place_of(e, id, 0) < e.len() {
        place_of(e, id, 0)
    } else {
        s.len() - 1
    };
    let i = place_of(s, id, 0);
    assert(s[at] == (id, data));
    if i < s.len() && i != at {
        assert(keys(s)[i] == keys(s)[at]);
    }
}

/// A picture that was just used outlives the next one that is put, where there is room for
/// two.
pub proof fn law_used_outlives(e: Seq<(Seq<char>, IconData)>, cap: int, id: Seq<char>, other: Seq<char>, data: IconData)
    requires
        keys(e).no_duplicates(),
        2 <= cap,
        e.len() <= cap,
        place_of(e, id, 0) < e.len(),
        other != id,
    ensures
        ({
            let s = stored(used(e, id), cap, other, data);
            let i = place_of(s, id, 0);
            i < s.len() && s[i] == e[place_of(e, id, 0)]
        }),
{
    lemma_place_of(e, id, 0);
    let u = used(e, id);
    lemma_used(e, id);
    lemma_place_of(u, other, 0);
    let s = stored(u, cap, other, data);
    lemma_stored(u, cap, other, data);
    lemma_place_of(s, id, 0);
    let mine = e[place_of(e, id, 0)];
    assert(u.last() == mine);
    let at: int = if place_of(u, other, 0) < u.len() {
        u.len() - 1
    } else {
        s.len() - 2
    };
    assert(s[at] == mine);
    let i = place_of(s, id, 0);
    if i < s.len() && i != at {
        assert(keys(s)[i] == keys(s)[at]);
    }
}

} // verus!
