//! Rough widths of texts, for layout and drawing alike.

use vstd::prelude::*;

use crate::scalar;
use crate::scalar::{whole_number, Scalar};

verus! {

/// The width of one character, as a part of the font size: ASCII characters are narrower.
pub open spec fn char_width<S: Scalar>(c: char) -> S {
    if (c as u32) < 128 {
        S::lit(62, 100)
    } else {
        scalar::num(1)
    }
}

/// The widths of the characters of `s`, summed from the first to the last.
pub open spec fn units<S: Scalar>(s: Seq<char>) -> S
    decreases s.len(),
{
    if s.len() == 0 {
        scalar::num(0)
    } else {
        units::<S>(s.drop_last()).add(char_width(s.last()))
    }
}

/// The rough width of `s` at the given font size.
pub open spec fn width_of<S: Scalar>(s: Seq<char>, font_size: S) -> S {
    units::<S>(s).mul(font_size)
}

/// The rough width of a text: a full font size for each character, and less for ASCII.
pub fn estimate_width<S: Scalar>(text: &str, font_size: S) -> (r: S)
    ensures
        r == width_of(text@, font_size),
{
    let mut sum = whole_number::<S>(0);
    for c in it: text.chars()
        invariant
            it.seq() == text@,
            sum == units::<S>(text@.take(it.index() as int)),
    {
        proof {
            let k = it.index() as int;
            assert(text@.take(k + 1).drop_last() =~= text@.take(k));
        }
        sum = sum.plus(
            if (c as u32) < 128 {
                S::ratio(62, 100)
            } else {
                whole_number(1)
            },
        );
    }
    proof {
        assert(text@.take(text@.len() as int) =~= text@);
    }
    sum.times(font_size)
}

/// Widths add up: a text is as wide as its two parts together, each further character makes
/// it wider by its own width, and one that is not ASCII takes a full font size.
pub proof fn law_widths_add_up(a: Seq<char>, b: Seq<char>)
    requires
        a.len() + b.len() <= i64::MAX,
    ensures
        units::<i64>(a + b) == units::<i64>(a) + units::<i64>(b),
        0 <= units::<i64>(a) <= a.len(),
        (forall|i: int| 0 <= i < a.len() ==> (#[trigger] a[i]) as u32 >= 128) ==> units::<i64>(a) == a.len(),
    decreases a.len() + b.len(),
{
    assert(scalar::num::<i64>(0) == 0);
    assert(scalar::num::<i64>(1) == 1);
    assert(<i64 as Scalar>::lit(62, 100) == 0);
    if b.len() > 0 {
        law_widths_add_up(a, b.drop_last());
        law_widths_add_up(b.drop_last(), Seq::empty());
        assert((a + b).drop_last() =~= a + b.drop_last());
        assert((a + b).last() == b.last());
    } else {
        assert(a + b =~= a);
        if a.len() > 0 {
            let t = a.drop_last();
            law_widths_add_up(t, Seq::empty());
            if forall|i: int| 0 <= i < a.len() ==> (#[trigger] a[i]) as u32 >= 128 {
                assert forall|i: int| 0 <= i < t.len() implies (#[trigger] t[i]) as u32 >= 128 by {
                    assert(t[i] == a[i]);
                }
            }
        }
    }
}

} // verus!
