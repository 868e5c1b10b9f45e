//! Bytes as text of 64 letters.

use vstd::prelude::*;
use vstd::string::*;

verus! {

/// The letter for a value below 64.
pub open spec fn letter(v: int) -> char {
    if v < 26 {
        (65 + v) as char
    } else if v < 52 {
        (71 + v) as char
    } else if v < 62 {
        (v - 4) as char
    } else if v == 62 {
        '+'
    } else {
        '/'
    }
}

fn letter_of(v: u32) -> (r: char)
    requires
        v < 64,
    ensures
        r == letter(v as int),
{
    if v < 26 {
        (65 + v) as u8 as char
    } else if v < 52 {
        (71 + v) as u8 as char
    } else if v < 62 {
        (v - 4) as u8 as char
    } else if v == 62 {
        '+'
    } else {
        '/'
    }
}

/// The byte at a place; zero behind the last.
pub open spec fn byte_at(d: Seq<u8>, i: int) -> int {
    if i < d.len() {
        d[i] as int
    } else {
        0
    }
}

/// Three bytes from `i` on as one number.
pub open spec fn triple(d: Seq<u8>, i: int) -> int {
    byte_at(d, i) * 65536 + byte_at(d, i + 1) * 256 + byte_at(d, i + 2)
}

/// The four letters for the bytes from `i` on; `=` stands where there is no byte.
pub open spec fn group(d: Seq<u8>, i: int) -> Seq<char> {
    let n = triple(d, i);
    seq![
        letter(n / 262144),
        letter(n / 4096 % 64),
        if i + 1 < d.len() {
            letter(n / 64 % 64)
        } else {
            '='
        },
        if i + 2 < d.len() {
            letter(n % 64)
        } else {
            '='
        },
    ]
}

/// The letters for the bytes from `i` on.
pub open spec fn letters_from(d: Seq<u8>, i: int) -> Seq<char>
    decreases d.len() + 3 - i,
{
    if i >= d.len() {
        Seq::empty()
    } else {
        group(d, i) + letters_from(d, i + 3)
    }
}

/// The bytes as text.
pub fn base64_encode(data: &Vec<u8>) -> (r: String)
    ensures
        r@ == letters_from(data@, 0),
{
    let mut out = String::new();
    let mut i: usize = 0;
    proof {
        assert(out@ + letters_from(data@, 0) =~= letters_from(data@, 0));
    }
    while i < data.len()
        invariant
            out@ + letters_from(data@, i as int) == letters_from(data@, 0),
        decreases data.len() - i,
    {
        let ghost o = out@;
        let more = data.len() - i;
        let b0: u32 = data[i] as u32;
        let b1: u32 = if more > 1 {
            data[i + 1] as u32
        } else {
            0
        };
        let b2: u32 = if more > 2 {
            data[i + 2] as u32
        } else {
            0
        };
        let n: u32 = b0 * 65536 + b1 * 256 + b2;
        proof {
            assert(n == triple(data@, i as int));
        }
        out.push(letter_of(n / 262144));
        out.push(letter_of(n / 4096 % 64));
        out.push(
            if more > 1 {
                letter_of(n / 64 % 64)
            } else {
                '='
            },
        );
        out.push(
            if more > 2 {
                letter_of(n % 64)
            } else {
                '='
            },
        );
        proof {
            assert(out@ =~= o + group(data@, i as int));
            assert(out@ + letters_from(data@, i + 3) =~= o + (group(data@, i as int) + letters_from(
                data@,
                i + 3,
            )));
        }
        if more <= 3 {
            proof {
                assert(letters_from(data@, i + 3) =~= Seq::<char>::empty());
                assert(out@ + letters_from(data@, i + 3) =~= out@);
            }
            return out;
        }
        i += 3;
    }
    proof {
        assert(out@ + letters_from(data@, i as int) =~= out@);
    }
    out
}

/// Every three bytes, or what is left of them, take four letters.
pub proof fn law_length(d: Seq<u8>, i: int)
    requires
        0 <= i <= d.len(),
    ensures
        letters_from(d, i).len() == (d.len() - i + 2) / 3 * 4,
    decreases d.len() - i,
{
    if i < d.len() {
        if i + 3 <= d.len() {
            law_length(d, i + 3);
        } else {
            assert(letters_from(d, i + 3).len() == 0);
        }
    }
}

proof fn lemma_letter(a: int, b: int)
    requires
        0 <= a < 64,
        0 <= b < 64,
        letter(a) == letter(b),
    ensures
        a == b,
{
    assert(letter(a) as int == letter(b) as int);
}

proof fn lemma_no_sign(a: int)
    requires
        0 <= a < 64,
    ensures
        letter(a) != '=',
{
    assert(letter(a) as int != '=' as int);
}

proof fn lemma_sextets(n: int)
    requires
        0 <= n < 16777216,
    ensures
        0 <= n / 262144 < 64,
        n / 4096 == n / 262144 * 64 + n / 4096 % 64,
        n / 64 == n / 4096 * 64 + n / 64 % 64,
        n == n / 64 * 64 + n % 64,
{
}

proof fn lemma_bytes(x: int, y: int, z: int)
    requires
        0 <= x < 256,
        0 <= y < 256,
        0 <= z < 256,
    ensures
        (x * 65536 + y * 256 + z) / 65536 == x,
        (x * 65536 + y * 256 + z) / 256 % 256 == y,
        (x * 65536 + y * 256 + z) % 256 == z,
{
    assert((x * 65536 + y * 256 + z) / 256 == x * 256 + y);
}

proof fn lemma_parts(d: Seq<u8>, i: int)
    requires
        0 <= i,
    ensures
        0 <= triple(d, i) < 16777216,
        triple(d, i) / 65536 == byte_at(d, i),
        triple(d, i) / 256 % 256 == byte_at(d, i + 1),
        triple(d, i) % 256 == byte_at(d, i + 2),
{
    let x = byte_at(d, i);
    let y = byte_at(d, i + 1);
    let z = byte_at(d, i + 2);
    assert(0 <= x < 256 && 0 <= y < 256 && 0 <= z < 256);
    lemma_bytes(x, y, z);
}

proof fn lemma_same_number(n: int, m: int)
    requires
        0 <= n < 16777216,
        0 <= m < 16777216,
        n / 262144 == m / 262144,
        n / 4096 % 64 == m / 4096 % 64,
    ensures
        n / 65536 == m / 65536,
        n / 64 % 64 == m / 64 % 64 ==> n / 256 == m / 256,
        n / 64 % 64 == m / 64 % 64 && n % 64 == m % 64 ==> n == m,
{
    lemma_sextets(n);
    lemma_sextets(m);
    assert(n / 4096 == m / 4096);
    lemma_quotients(n);
    lemma_quotients(m);
}

proof fn lemma_quotients(n: int)
    requires
        0 <= n,
    ensures
        n / 65536 == n / 4096 / 16,
        n / 256 == n / 64 / 4,
{
}

proof fn lemma_group(a: Seq<u8>, b: Seq<u8>, i: int)
    requires
        0 <= i < a.len(),
        i < b.len(),
        group(a, i) == group(b, i),
    ensures
        i + 1 < a.len() <==> i + 1 < b.len(),
        i + 2 < a.len() <==> i + 2 < b.len(),
        a[i] == b[i],
        i + 1 < a.len() ==> a[i + 1] == b[i + 1],
        i + 2 < a.len() ==> a[i + 2] == b[i + 2],
{
    let g = group(a, i);
    let h = group(b, i);
    let n = triple(a, i);
    let m = triple(b, i);
    lemma_parts(a, i);
    lemma_parts(b, i);
    assert(g[0] == h[0] && g[1] == h[1] && g[2] == h[2] && g[3] == h[3]);
    lemma_sextets(n);
    lemma_sextets(m);
    lemma_letter(n / 262144, m / 262144);
    lemma_letter(n / 4096 % 64, m / 4096 % 64);
    lemma_no_sign(n / 64 % 64);
    lemma_no_sign(m / 64 % 64);
    lemma_no_sign(n % 64);
    lemma_no_sign(m % 64);
    if i + 1 < a.len() {
        lemma_letter(n / 64 % 64, m / 64 % 64);
    }
    if i + 2 < a.len() {
        lemma_letter(n % 64, m % 64);
    }
    lemma_same_number(n, m);
}

proof fn lemma_same(a: Seq<u8>, b: Seq<u8>, i: int)
    requires
        0 <= i,
        letters_from(a, i) == letters_from(b, i),
    ensures
        i >= a.len() && i >= b.len() || a.len() == b.len(),
        forall|j: int| i <= j < a.len() ==> a[j] == b[j],
    decreases a.len() + 3 - i,
{
    if i < a.len() {
        assert(letters_from(a, i).len() >= 4);
        assert(i < b.len());
        let x = letters_from(a, i);
        let y = letters_from(b, i);
        assert(x.take(4) =~= group(a, i));
        assert(y.take(4) =~= group(b, i));
        assert(x.skip(4) =~= letters_from(a, i + 3));
        assert(y.skip(4) =~= letters_from(b, i + 3));
        lemma_group(a, b, i);
        lemma_same(a, b, i + 3);
    } else if i < b.len() {
        assert(letters_from(b, i).len() >= 4);
    }
}

/// Different bytes give different text: nothing is lost.
pub proof fn law_text_gives_bytes(a: Seq<u8>, b: Seq<u8>)
    requires
        letters_from(a, 0) == letters_from(b, 0),
    ensures
        a == b,
{
    lemma_same(a, b, 0);
    assert(a =~= b);
}

} // verus!
