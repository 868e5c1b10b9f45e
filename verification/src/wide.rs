//! UTF-16, as the system's calls take and give text.

use vstd::prelude::*;
use vstd::string::*;

use crate::chars::chars_of;
use crate::editing;

verus! {

/// The UTF-16 units of a character.
pub open spec fn units(c: char) -> Seq<u16> {
    let u = c as u32;
    if u < 0x1_0000 {
        seq![u as u16]
    } else {
        let n = u - 0x1_0000;
        seq![(0xD800 + n / 0x400) as u16, (0xDC00 + n % 0x400) as u16]
    }
}

/// The UTF-16 units of a text.
pub open spec fn utf16(s: Seq<char>) -> Seq<u16>
    decreases s.len(),
{
    if s.len() == 0 {
        Seq::empty()
    } else {
        units(s[0]) + utf16(s.skip(1))
    }
}

/// Stands for what is no character.
pub const REPLACEMENT: char = '\u{FFFD}';

/// The text of the UTF-16 units `u` from the `i`-th on; half a pair is replaced.
pub open spec fn text_from(u: Seq<u16>, i: int) -> Seq<char>
    decreases u.len() - i,
{
    if i < 0 || i >= u.len() {
        Seq::empty()
    } else if editing::is_high(u[i]) && i + 1 < u.len() && editing::is_low(u[i + 1]) {
        seq![editing::pair_code(u[i], u[i + 1]) as char] + text_from(u, i + 2)
    } else if editing::is_high(u[i]) || editing::is_low(u[i]) {
        seq![REPLACEMENT] + text_from(u, i + 1)
    } else {
        seq![u[i] as char] + text_from(u, i + 1)
    }
}

/// Index of the first zero of `u` from the `i`-th unit on, or the length.
pub open spec fn nul_from(u: Seq<u16>, i: int) -> int
    decreases u.len() - i,
{
    if i < 0 || i >= u.len() || u[i] == 0 {
        i
    } else {
        nul_from(u, i + 1)
    }
}

fn push_units(out: &mut Vec<u16>, c: char)
    ensures
        final(out)@ == old(out)@ + units(c),
{
    let u: u32 = c as u32;
    if u < 0x1_0000 {
        out.push(u as u16);
    } else {
        let n: u32 = u - 0x1_0000;
        out.push((0xD800 + n / 0x400) as u16);
        out.push((0xDC00 + n % 0x400) as u16);
    }
}

/// The UTF-16 units of `s`.
pub fn encode(s: &str) -> (r: Vec<u16>)
    ensures
        r@ == utf16(s@),
{
    let v = chars_of(s);
    let mut out: Vec<u16> = Vec::new();
    let mut i: usize = 0;
    proof {
        assert(v@.skip(0) =~= v@);
        assert(out@ + utf16(v@) =~= utf16(v@));
    }
    while i < v.len()
        invariant
            i <= v.len(),
            out@ + utf16(v@.skip(i as int)) == utf16(v@),
        decreases v.len() - i,
    {
        let ghost o = out@;
        proof {
            let t = v@.skip(i as int);
            assert(t.skip(1) =~= v@.skip(i + 1));
            assert(o + (units(t[0]) + utf16(t.skip(1))) =~= (o + units(t[0])) + utf16(t.skip(1)));
        }
        push_units(&mut out, v[i]);
        i += 1;
    }
    proof {
        assert(v@.skip(i as int).len() == 0);
        assert(out@ + utf16(v@.skip(i as int)) =~= out@);
    }
    out
}

/// The UTF-16 units of `s` and a zero behind them.
pub fn wide(s: &str) -> (r: Vec<u16>)
    ensures
        r@ == utf16(s@).push(0),
{
    let mut r = encode(s);
    r.push(0);
    r
}

/// The text of the units `from..to` of `u`; half a pair is replaced.
pub fn decode(u: &Vec<u16>, from: usize, to: usize) -> (r: String)
    requires
        from <= to <= u.len(),
    ensures
        r@ == text_from(u@.subrange(from as int, to as int), 0),
{
    let ghost t = u@.subrange(from as int, to as int);
    let mut out = String::new();
    let mut i: usize = from;
    proof {
        assert(out@ + text_from(t, 0) =~= text_from(t, 0));
    }
    while i < to
        invariant
            from <= i <= to <= u.len(),
            t == u@.subrange(from as int, to as int),
            out@ + text_from(t, i - from) == text_from(t, 0),
        decreases to - i,
    {
        let a = u[i];
        let ghost o = out@;
        let ghost k = i - from;
        proof {
            assert(t[k] == a);
        }
        if 0xD800 <= a && a <= 0xDBFF && i + 1 < to && 0xDC00 <= u[i + 1] && u[i + 1] <= 0xDFFF {
            let b = u[i + 1];
            proof {
                assert(t[k + 1] == b);
            }
            let code: u32 = 0x1_0000 + (a as u32 - 0xD800) * 0x400 + (b as u32 - 0xDC00);
            if let Some(c) = char::from_u32(code) {
                out.push(c);
                proof {
                    assert(c == editing::pair_code(a, b) as char);
                    assert(out@ + text_from(t, k + 2) =~= o + text_from(t, k));
                }
            }
            i += 2;
        } else if 0xD800 <= a && a <= 0xDFFF {
            out.push(REPLACEMENT);
            proof {
                assert(out@ + text_from(t, k + 1) =~= o + text_from(t, k));
            }
            i += 1;
        } else {
            if let Some(c) = char::from_u32(a as u32) {
                out.push(c);
                proof {
                    assert(c == a as char);
                    assert(out@ + text_from(t, k + 1) =~= o + text_from(t, k));
                }
            }
            i += 1;
        }
    }
    proof {
        assert(out@ + text_from(t, i - from) =~= out@);
    }
    out
}

/// Index of the first zero of `u`, or its length.
pub fn find_nul(u: &Vec<u16>, from: usize) -> (r: usize)
    requires
        from <= u.len(),
    ensures
        r == nul_from(u@, from as int),
        from <= r <= u.len(),
{
    let mut i: usize = from;
    while i < u.len() && u[i] != 0
        invariant
            from <= i <= u.len(),
            nul_from(u@, i as int) == nul_from(u@, from as int),
        decreases u.len() - i,
    {
        i += 1;
    }
    i
}

/// The text of `u` up to its first zero.
pub fn decode_until_nul(u: &Vec<u16>) -> (r: String)
    ensures
        r@ == text_from(u@.take(nul_from(u@, 0)), 0),
{
    let n = find_nul(u, 0);
    proof {
        assert(u@.subrange(0, n as int) =~= u@.take(n as int));
    }
    decode(u, 0, n)
}

proof fn lemma_text_shift(a: Seq<u16>, b: Seq<u16>, i: int)
    requires
        0 <= i <= b.len(),
    ensures
        text_from(a + b, a.len() + i) == text_from(b, i),
    decreases b.len() - i,
{
    let s = a + b;
    let k = a.len() + i;
    if i < b.len() {
        assert(s[k] == b[i]);
        if i + 1 < b.len() {
            assert(s[k + 1] == b[i + 1]);
        }
        lemma_text_shift(a, b, i + 1);
        if i + 2 <= b.len() {
            lemma_text_shift(a, b, i + 2);
        }
    }
}

proof fn lemma_one_char(c: char, rest: Seq<u16>)
    ensures
        text_from(units(c) + rest, 0) == seq![c] + text_from(rest, 0),
{
    let u = units(c) + rest;
    let code = c as u32;
    lemma_text_shift(units(c), rest, 0);
    assert(u[0] == units(c)[0]);
    assert(code < 0xD800 || 0xE000 <= code <= 0x10_FFFF);
    if code >= 0x1_0000 {
        let n = code - 0x1_0000;
        assert(u[1] == units(c)[1]);
        assert(n / 0x400 < 0x400);
        assert(n == (n / 0x400) * 0x400 + n % 0x400);
        assert(editing::pair_code(u[0], u[1]) == code);
        assert(editing::pair_code(u[0], u[1]) as char == c);
    } else {
        assert(u[0] == code);
        assert(u[0] as char == c);
    }
}

/// A text that is encoded and decoded again is the same.
pub proof fn law_utf16_round_trip(s: Seq<char>)
    ensures
        text_from(utf16(s), 0) == s,
    decreases s.len(),
{
    if s.len() > 0 {
        law_utf16_round_trip(s.skip(1));
        lemma_one_char(s[0], utf16(s.skip(1)));
        assert(seq![s[0]] + s.skip(1) =~= s);
    }
}

/// The bytes of UTF-16 units, the lower one first.
pub open spec fn unit_bytes(u: Seq<u16>) -> Seq<u8>
    decreases u.len(),
{
    if u.len() == 0 {
        Seq::empty()
    } else {
        unit_bytes(u.drop_last()).push((u.last() % 256) as u8).push((u.last() / 256) as u8)
    }
}

/// Adds the bytes of UTF-16 units, the lower one first.
pub fn push_bytes(out: &mut Vec<u8>, u: &Vec<u16>)
    ensures
        final(out)@ == old(out)@ + unit_bytes(u@),
{
    let ghost o = out@;
    let mut i: usize = 0;
    proof {
        assert(o + unit_bytes(u@.take(0)) =~= o);
    }
    while i < u.len()
        invariant
            i <= u.len(),
            out@ == o + unit_bytes(u@.take(i as int)),
        decreases u.len() - i,
    {
        out.push((u[i] % 256) as u8);
        out.push((u[i] / 256) as u8);
        proof {
            assert(u@.take(i + 1).drop_last() =~= u@.take(i as int));
            assert(out@ =~= o + unit_bytes(u@.take(i + 1)));
        }
        i += 1;
    }
    proof {
        assert(u@.take(i as int) =~= u@);
    }
}

/// Two bytes stand for a unit, the lower one first, one unit behind the other.
pub proof fn law_bytes_give_units(u: Seq<u16>, i: int)
    requires
        0 <= i < u.len(),
    ensures
        unit_bytes(u).len() == 2 * u.len(),
        unit_bytes(u)[2 * i] + 256 * unit_bytes(u)[2 * i + 1] == u[i],
    decreases u.len(),
{
    let t = u.drop_last();
    lemma_bytes_length(t);
    let x = u.last();
    assert((x % 256) as u8 == x % 256 && (x / 256) as u8 == x / 256);
    assert((x % 256) + 256 * (x / 256) == x);
    if i < t.len() {
        law_bytes_give_units(t, i);
        assert(t[i] == u[i]);
        assert(unit_bytes(u)[2 * i] == unit_bytes(t)[2 * i]);
        assert(unit_bytes(u)[2 * i + 1] == unit_bytes(t)[2 * i + 1]);
    } else {
        assert(unit_bytes(u)[2 * i] == (x % 256) as u8);
        assert(unit_bytes(u)[2 * i + 1] == (x / 256) as u8);
    }
}

proof fn lemma_bytes_length(u: Seq<u16>)
    ensures
        unit_bytes(u).len() == 2 * u.len(),
    decreases u.len(),
{
    if u.len() > 0 {
        lemma_bytes_length(u.drop_last());
    }
}

} // verus!
