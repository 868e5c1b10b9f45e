//! Decimal text of integers.

use vstd::prelude::*;

verus! {

/// The digit character of `d`, for `d < 10`.
pub open spec fn digit(d: nat) -> char {
    (48 + d) as char
}

/// `n` in base ten, without leading zeros (zero is the single digit `0`).
pub open spec fn decimal(n: nat) -> Seq<char>
    decreases n,
{
    if n < 10 {
        seq![digit(n)]
    } else {
        decimal(n / 10).push(digit(n % 10))
    }
}

/// `n` copies of `0`.
pub open spec fn zeros(n: int) -> Seq<char> {
    Seq::new(if n > 0 { n as nat } else { 0 }, |i: int| '0')
}

/// `n` in base ten, padded on the left with zeros to at least `width` digits.
pub open spec fn padded(n: nat, width: int) -> Seq<char> {
    zeros(width - decimal(n).len()) + decimal(n)
}

/// A signed number padded with zeros to at least `width` characters, the sign being one of them.
pub open spec fn padded_signed(n: int, width: int) -> Seq<char> {
    if n < 0 {
        seq!['-'] + padded((-n) as nat, width - 1)
    } else {
        padded(n as nat, width)
    }
}

fn digit_of(d: u64) -> (c: char)
    requires
        d < 10,
    ensures
        c == digit(d as nat),
{
    (48 + d as u8) as char
}

/// The digits of `n`.
pub fn decimal_chars(n: u64) -> (v: Vec<char>)
    ensures
        v@ == decimal(n as nat),
        1 <= v.len() <= 20,
    decreases n,
{
    proof {
        lemma_decimal_len(n as nat, 20);
    }
    if n < 10 {
        let mut v: Vec<char> = Vec::new();
        v.push(digit_of(n));
        v
    } else {
        let mut v = decimal_chars(n / 10);
        v.push(digit_of(n % 10));
        v
    }
}

/// A power of ten.
pub open spec fn tens(k: nat) -> nat
    decreases k,
{
    if k == 0 {
        1
    } else {
        10 * tens((k - 1) as nat)
    }
}

/// A number below ten to the `k` has at most `k` digits, and at least one.
pub proof fn lemma_decimal_len(n: nat, k: nat)
    requires
        k >= 1,
        n < tens(k) || k == 20 && n <= u64::MAX,
    ensures
        1 <= decimal(n).len() <= k,
    decreases k,
{
    if k == 20 && n >= 10 {
        reveal_with_fuel(tens, 20);
        assert(tens(19) == 10000000000000000000);
        assert(n / 10 < tens(19));
        lemma_decimal_len(n / 10, 19);
    } else if n >= 10 {
        reveal_with_fuel(tens, 2);
        assert(k >= 2);
        lemma_decimal_len(n / 10, (k - 1) as nat);
    }
}

/// Appends every character of `v` to `s`.
pub fn push_all(s: &mut String, v: &Vec<char>)
    ensures
        final(s)@ == old(s)@ + v@,
{
    let mut i: usize = 0;
    while i < v.len()
        invariant
            i <= v.len(),
            s@ == old(s)@ + v@.take(i as int),
        decreases v.len() - i,
    {
        proof {
            assert(old(s)@ + v@.take(i + 1) =~= (old(s)@ + v@.take(i as int)).push(v@[i as int]));
        }
        s.push(v[i]);
        i += 1;
    }
    proof {
        assert(v@.take(v.len() as int) =~= v@);
    }
}

/// Appends `n` in base ten.
pub fn push_decimal(s: &mut String, n: u64)
    ensures
        final(s)@ == old(s)@ + decimal(n as nat),
{
    let v = decimal_chars(n);
    push_all(s, &v);
}

/// Appends `n` in base ten, padded with zeros to at least `width` digits.
pub fn push_padded(s: &mut String, n: u64, width: usize)
    ensures
        final(s)@ == old(s)@ + padded(n as nat, width as int),
{
    let v = decimal_chars(n);
    let mut i: usize = v.len();
    proof {
        assert(old(s)@ + zeros(i - v.len()) =~= old(s)@);
    }
    while i < width
        invariant
            v.len() <= i,
            i <= width || i == v.len(),
            s@ == old(s)@ + zeros(i - v.len()),
        decreases width - i,
    {
        proof {
            assert(old(s)@ + zeros(i + 1 - v.len()) =~= (old(s)@ + zeros(i - v.len())).push('0'));
        }
        s.push('0');
        i += 1;
    }
    proof {
        assert(zeros(i - v.len()) =~= zeros(width - v.len()));
        assert(old(s)@ + zeros(width - v.len()) + v@ =~= old(s)@ + (zeros(width - v.len()) + v@));
    }
    push_all(s, &v);
}

/// Two numbers with the same decimal text are the same number.
pub proof fn law_decimal_injective(a: nat, b: nat)
    requires
        decimal(a) == decimal(b),
    ensures
        a == b,
    decreases a,
{
    let x = decimal(a);
    let y = decimal(b);
    lemma_decimal_nonempty(a);
    lemma_decimal_nonempty(b);
    assert(x.last() == y.last());
    if a < 10 {
        if b >= 10 {
            lemma_decimal_nonempty(b / 10);
            assert(y.len() >= 2);
        } else {
            assert(x[0] == digit(a) && y[0] == digit(b));
        }
    } else {
        lemma_decimal_nonempty(a / 10);
        assert(x.len() >= 2);
        if b >= 10 {
            assert(x.drop_last() =~= decimal(a / 10));
            assert(y.drop_last() =~= decimal(b / 10));
            law_decimal_injective(a / 10, b / 10);
            assert(x.last() == digit(a % 10));
            assert(y.last() == digit(b % 10));
        } else {
            assert(y.len() == 1);
        }
    }
}

proof fn lemma_decimal_nonempty(n: nat)
    ensures
        decimal(n).len() >= 1,
    decreases n,
{
    if n >= 10 {
        lemma_decimal_nonempty(n / 10);
    }
}

} // verus!
