//! File times, and the clock text of a moment in the machine's own time zone.
//!
//! The conversion to local time is the system's; its result is handed in.

use vstd::prelude::*;
use vstd::string::*;

use crate::calendar;
use crate::calendar::format_time_utc;

verus! {

/// A file time: hundreds of nanoseconds since the first of January 1601, in two halves.
#[derive(Debug, Clone, Copy, PartialEq, Eq, Structural)]
pub struct FileTime {
    pub low: u32,
    pub high: u32,
}

/// Seconds between the epochs of file times and of the clock.
pub const EPOCH_GAP: i64 = 11_644_473_600;

impl FileTime {
    /// The 64 bits as a signed number.
    pub open spec fn ticks(self) -> int {
        let n = self.high as int * 0x1_0000_0000 + self.low as int;
        if n >= 0x8000_0000_0000_0000 {
            n - 0x1_0000_0000_0000_0000
        } else {
            n
        }
    }
}

/// `a / b` cut towards zero.
pub open spec fn cut_quotient(a: int, b: int) -> int {
    if a >= 0 {
        a / b
    } else {
        -((-a) / b)
    }
}

/// Seconds since 1970 at the file time, parts of a second cut off.
pub open spec fn unix_of(ft: FileTime) -> int {
    cut_quotient(ft.ticks(), 10_000_000) - EPOCH_GAP
}

/// Seconds since 1970 at a file time.
pub fn filetime_to_unix(ft: &FileTime) -> (r: i64)
    ensures
        r == unix_of(*ft),
{
    let n: i128 = ft.high as i128 * 0x1_0000_0000 + ft.low as i128;
    let t: i128 = if n >= 0x8000_0000_0000_0000 {
        n - 0x1_0000_0000_0000_0000
    } else {
        n
    };
    let q: i128 = if t >= 0 {
        t / 10_000_000
    } else {
        -((-t) / 10_000_000)
    };
    (q - EPOCH_GAP as i128) as i64
}

/// The file time of a moment given in seconds since 1970.
pub fn filetime_of(unix: i64) -> (ft: FileTime)
    requires
        -933_981_677_285 <= unix <= 910_692_730_085,
    ensures
        ft.ticks() == (unix + EPOCH_GAP) * 10_000_000,
{
    let n: i128 = (unix as i128 + EPOCH_GAP as i128) * 10_000_000;
    let bits: i128 = if n < 0 {
        n + 0x1_0000_0000_0000_0000
    } else {
        n
    };
    let high: i128 = bits / 0x1_0000_0000;
    let low: i128 = bits % 0x1_0000_0000;
    proof {
        assert(bits == high * 0x1_0000_0000 + low);
        assert(0 <= high < 0x1_0000_0000);
    }
    FileTime { low: low as u32, high: high as u32 }
}

/// A moment survives the way to a file time and back.
pub proof fn law_filetime_roundtrip(unix: int, ft: FileTime)
    requires
        ft.ticks() == (unix + EPOCH_GAP) * 10_000_000,
    ensures
        unix_of(ft) == unix,
{
}

/// `s` shows the moment `unix` by the local clock: by `local`, the file time that the
/// system made of it, or by universal time where it made none.
pub open spec fn shows_local(s: Seq<char>, unix: i64, local: Option<FileTime>) -> bool {
    match local {
        Some(ft) => calendar::shows_instant(s, unix_of(ft)),
        None => calendar::shows_instant(s, unix as int),
    }
}

/// A moment by the local clock.
pub fn format_local(unix: i64, local: Option<FileTime>) -> (r: String)
    ensures
        shows_local(r@, unix, local),
{
    match local {
        Some(ft) => format_time_utc(filetime_to_unix(&ft)),
        None => format_time_utc(unix),
    }
}

/// `s` is the text of the column of modification times.
pub open spec fn shows_modified(s: Seq<char>, secs: Option<i64>, local: Option<FileTime>) -> bool {
    match secs {
        Some(t) => shows_local(s, t, local),
        None => s == ""@,
    }
}

/// The text of the column of modification times; empty where none is known.
pub fn format_modified(secs: Option<i64>, local: Option<FileTime>) -> (r: String)
    ensures
        shows_modified(r@, secs, local),
{
    match secs {
        Some(t) => format_local(t, local),
        None => "".to_owned(),
    }
}

} // verus!
