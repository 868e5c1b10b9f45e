//! The strokes that pictures are made of, and how texts are fitted into their places.

use vstd::prelude::*;
use vstd::string::*;

use crate::chars::{chars_of, string_of};
use crate::overlay::RectF;
use crate::scalar;
use crate::scalar::{whole_number, Scalar};
use crate::text;
use crate::text::estimate_width;
use crate::theme;
use crate::theme::{Color, Theme};

verus! {

/// The kinds of writing.
#[derive(Debug, Clone, Copy, PartialEq, Eq, Structural)]
pub enum Font {
    Title,
    TitleBold,
    Label,
    Detail,
}

/// A rectangle by its edges.
#[derive(Debug, Clone, Copy, PartialEq)]
pub struct Edges<S> {
    pub left: S,
    pub top: S,
    pub right: S,
    pub bottom: S,
}

/// One stroke of a picture; texts are of the type `T`.
#[allow(inconsistent_fields)]
#[derive(Debug, PartialEq)]
pub enum Paint<S, T> {
    FillRounded { rect: Edges<S>, radius: S, color: Color<S> },
    DrawRounded { rect: Edges<S>, radius: S, color: Color<S>, width: S },
    FillEllipse { x: S, y: S, radius: S, color: Color<S> },
    DrawEllipse { x: S, y: S, radius: S, color: Color<S>, width: S },
    Line { x1: S, y1: S, x2: S, y2: S, color: Color<S>, width: S },
    Bitmap { id: u64, rect: Edges<S>, opacity: S },
    Text { text: T, font: Font, rect: Edges<S>, color: Color<S> },
    /// What follows is drawn within the rectangle only.
    PushClip(Edges<S>),
    PopClip,
    /// What follows is drawn as one picture that is not fully opaque.
    PushLayer(Edges<S>, S),
    PopLayer,
}

pub open spec fn mark<S>(p: Paint<S, String>) -> Paint<S, Seq<char>> {
    match p {
        Paint::FillRounded { rect, radius, color } => Paint::FillRounded { rect, radius, color },
        Paint::DrawRounded { rect, radius, color, width } => Paint::DrawRounded { rect, radius, color, width },
        Paint::FillEllipse { x, y, radius, color } => Paint::FillEllipse { x, y, radius, color },
        Paint::DrawEllipse { x, y, radius, color, width } => Paint::DrawEllipse { x, y, radius, color, width },
        Paint::Line { x1, y1, x2, y2, color, width } => Paint::Line { x1, y1, x2, y2, color, width },
        Paint::Bitmap { id, rect, opacity } => Paint::Bitmap { id, rect, opacity },
        Paint::Text { text, font, rect, color } => Paint::Text { text: text@, font, rect, color },
        Paint::PushClip(e) => Paint::PushClip(e),
        Paint::PopClip => Paint::PopClip,
        Paint::PushLayer(e, a) => Paint::PushLayer(e, a),
        Paint::PopLayer => Paint::PopLayer,
    }
}

pub open spec fn marks<S>(v: Seq<Paint<S, String>>) -> Seq<Paint<S, Seq<char>>> {
    v.map_values(|p: Paint<S, String>| mark(p))
}

/// Adds a stroke.
pub fn stroke<S>(out: &mut Vec<Paint<S, String>>, p: Paint<S, String>)
    ensures
        marks(final(out)@) == marks(old(out)@).push(mark(p)),
{
    let ghost o = out@;
    out.push(p);
    proof {
        assert(marks(out@) =~= marks(o).push(mark(p)));
    }
}

/// Strokes may be added one by one or many at once.
pub proof fn lemma_strokes<S>(
    a: Seq<Paint<S, Seq<char>>>,
    b: Seq<Paint<S, Seq<char>>>,
    c: Seq<Paint<S, Seq<char>>>,
    p: Paint<S, Seq<char>>,
)
    ensures
        (a + b) + c == a + (b + c),
        (a + b).push(p) == a + (b + seq![p]),
        a + Seq::<Paint<S, Seq<char>>>::empty() == a,
{
    assert((a + b) + c =~= a + (b + c));
    assert((a + b).push(p) =~= a + (b + seq![p]));
    assert(a + Seq::<Paint<S, Seq<char>>>::empty() =~= a);
}

impl<S: Scalar> RectF<S> {
    pub open spec fn sides(self) -> Edges<S> {
        Edges { left: self.x, top: self.y, right: self.right_edge(), bottom: self.bottom_edge() }
    }

    pub fn edges(&self) -> (e: Edges<S>)
        ensures
            e == self.sides(),
    {
        Edges { left: self.x, top: self.y, right: self.x.plus(self.w), bottom: self.y.plus(self.h) }
    }
}

/// A colour in hundredths whose opacity is taken `t` times.
pub open spec fn dimmed<S: Scalar>(r: i64, g: i64, b: i64, a: i64, t: S) -> Color<S> {
    Color { a: S::lit(a, 100).mul(t), ..theme::color(r, g, b, a) }
}

pub fn dim<S: Scalar>(r: i64, g: i64, b: i64, a: i64, t: S) -> (c: Color<S>)
    ensures
        c == dimmed::<S>(r, g, b, a, t),
{
    Color { r: S::ratio(r, 100), g: S::ratio(g, 100), b: S::ratio(b, 100), a: S::ratio(a, 100).times(t) }
}

/// White of the given opacity, in hundredths.
pub open spec fn white<S: Scalar>(a: i64) -> Color<S> {
    theme::color(100, 100, 100, a)
}

/// The size of a kind of writing.
pub open spec fn size_of<S: Scalar>(t: Theme<S>, font: Font) -> S {
    match font {
        Font::Title => t.title.size,
        Font::TitleBold => t.title.size,
        Font::Label => t.label.size,
        Font::Detail => t.label.size.mul(S::lit(72, 100)),
    }
}

pub fn font_size<S: Scalar>(t: &Theme<S>, font: Font) -> (r: S)
    ensures
        r == size_of(*t, font),
{
    match font {
        Font::Title => t.title.size,
        Font::TitleBold => t.title.size,
        Font::Label => t.label.size,
        Font::Detail => t.label.size.times(S::ratio(72, 100)),
    }
}

/// How many characters of `s` fit into `budget`, from the `n`-th on.
pub open spec fn fit_from<S: Scalar>(s: Seq<char>, budget: S, size: S, n: int) -> int
    decreases s.len() - n,
{
    if n < 0 || n >= s.len() || budget.lt(
        text::width_of(s.take(n), size).add(text::char_width::<S>(s[n]).mul(size)),
    ) {
        n
    } else {
        fit_from(s, budget, size, n + 1)
    }
}

/// `s`, or as much of it as fits into `max_w` with three dots behind it.
pub open spec fn fitted<S: Scalar>(s: Seq<char>, max_w: S, size: S) -> Seq<char> {
    if s.len() == 0 || text::width_of(s, size).le(max_w) {
        s
    } else {
        let budget = max_w.sub(text::width_of("…"@, size)).max(size.mul(S::lit(5, 10)));
        s.take(fit_from(s, budget, size, 0)) + "…"@
    }
}

/// Whether a text fits.
pub fn text_fits<S: Scalar>(s: &str, max_w: S, size: S) -> (r: bool)
    ensures
        r == text::width_of(s@, size).le(max_w),
{
    estimate_width(s, size).at_most(max_w)
}

/// A text, or as much of it as fits with three dots behind it.
pub fn truncate_to_fit<S: Scalar>(s: &str, max_w: S, size: S) -> (r: String)
    ensures
        r@ == fitted(s@, max_w, size),
{
    let v = chars_of(s);
    if v.len() == 0 || text_fits(s, max_w, size) {
        return s.to_owned();
    }
    let budget = max_w.minus(estimate_width("…", size)).greatest(size.times(S::ratio(5, 10)));
    let mut n: usize = 0;
    while n < v.len()
        invariant_except_break
            n <= v.len(),
        invariant
            n <= v.len(),
            v@ == s@,
            fit_from(v@, budget, size, n as int) == fit_from(v@, budget, size, 0),
        ensures
            n == fit_from(v@, budget, size, 0),
        decreases v.len() - n,
    {
        proof {
            assert(v@.subrange(0, n as int) =~= v@.take(n as int));
        }
        let w = if (v[n] as u32) < 128 {
            S::ratio(62, 100)
        } else {
            whole_number::<S>(1)
        };
        if budget.below(estimate_width(string_of(&v, 0, n).as_str(), size).plus(w.times(size))) {
            break;
        }
        n += 1;
    }
    proof {
        assert(v@.subrange(0, n as int) =~= v@.take(n as int));
    }
    let mut out = string_of(&v, 0, n);
    out.append("…");
    out
}

proof fn lemma_fit_from<S: Scalar>(s: Seq<char>, budget: S, size: S, n: int)
    requires
        0 <= n <= s.len(),
    ensures
        n <= fit_from(s, budget, size, n) <= s.len(),
    decreases s.len() - n,
{
    if n < s.len() && !budget.lt(
        text::width_of(s.take(n), size).add(text::char_width::<S>(s[n]).mul(size)),
    ) {
        lemma_fit_from(s, budget, size, n + 1);
    }
}

/// A text that fits is written in full, and any other by a beginning of it and three dots.
pub proof fn law_fitted<S: Scalar>(s: Seq<char>, max_w: S, size: S)
    ensures
        text::width_of(s, size).le(max_w) ==> fitted(s, max_w, size) == s,
        fitted(s, max_w, size) != s ==> exists|k: int|
            0 <= k <= s.len() && fitted(s, max_w, size) == #[trigger] s.take(k) + "…"@,
{
    let budget = max_w.sub(text::width_of("…"@, size)).max(size.mul(S::lit(5, 10)));
    lemma_fit_from(s, budget, size, 0);
    let k = fit_from(s, budget, size, 0);
    assert(s.take(k) + "…"@ == s.take(k) + "…"@);
}

/// A text in its place.
pub open spec fn written<S: Scalar>(s: Seq<char>, font: Font, rect: Edges<S>, color: Color<S>, t: Theme<S>) -> Paint<
    S,
    Seq<char>,
> {
    let max_w = rect.right.sub(rect.left).max(scalar::num(0));
    Paint::Text { text: fitted(s, max_w, size_of(t, font)), font, rect, color }
}

/// A text in the middle of its place.
pub open spec fn centered<S: Scalar>(s: Seq<char>, font: Font, rect: Edges<S>, color: Color<S>, t: Theme<S>) -> Paint<
    S,
    Seq<char>,
> {
    let size = size_of(t, font);
    let max_w = rect.right.sub(rect.left).max(scalar::num(0));
    let shown = fitted(s, max_w, size);
    let left = rect.left.add(rect.right.sub(rect.left).sub(text::width_of(shown, size)).div(scalar::num(2)));
    written(shown, font, Edges { left, ..rect }, color, t)
}

/// Writes a text in its place.
pub fn draw_text<S: Scalar>(
    out: &mut Vec<Paint<S, String>>,
    s: &str,
    font: Font,
    rect: Edges<S>,
    color: Color<S>,
    theme: &Theme<S>,
)
    ensures
        marks(final(out)@) == marks(old(out)@).push(written(s@, font, rect, color, *theme)),
{
    let max_w = rect.right.minus(rect.left).greatest(whole_number(0));
    let text = truncate_to_fit(s, max_w, font_size(theme, font));
    stroke(out, Paint::Text { text, font, rect, color });
}

/// Writes a text in the middle of its place.
pub fn draw_text_centered<S: Scalar>(
    out: &mut Vec<Paint<S, String>>,
    s: &str,
    font: Font,
    rect: Edges<S>,
    color: Color<S>,
    theme: &Theme<S>,
)
    ensures
        marks(final(out)@) == marks(old(out)@).push(centered(s@, font, rect, color, *theme)),
{
    let size = font_size(theme, font);
    let max_w = rect.right.minus(rect.left).greatest(whole_number(0));
    let shown = truncate_to_fit(s, max_w, size);
    let w = estimate_width(shown.as_str(), size);
    let left = rect.left.plus(rect.right.minus(rect.left).minus(w).over(whole_number(2)));
    draw_text(out, shown.as_str(), font, Edges { left, ..rect }, color, theme);
}

/// The pictures that have been handed to the graphics card, by their numbers.
#[derive(Debug)]
pub struct IconStore {
    pub ids: Vec<u64>,
    pub next_id: u64,
}

impl IconStore {
    pub fn new() -> (r: Self)
        ensures
            r.ids.len() == 0,
            r.next_id == 0,
    {
        IconStore { ids: Vec::new(), next_id: 0 }
    }

    /// Notes a new picture and gives its number.
    pub fn insert(&mut self) -> (id: u64)
        requires
            old(self).next_id < u64::MAX,
        ensures
            id == old(self).next_id,
            final(self).next_id == id + 1,
            forall|k: u64| #[trigger] final(self).ids@.contains(k) <==> old(self).ids@.contains(k) || k == id,
    {
        let id = self.next_id;
        self.next_id = id + 1;
        self.insert_at(id);
        id
    }

    /// Notes the picture of the given number.
    pub fn insert_at(&mut self, id: u64)
        ensures
            final(self).next_id == old(self).next_id,
            forall|k: u64| #[trigger] final(self).ids@.contains(k) <==> old(self).ids@.contains(k) || k == id,
    {
        let ghost o = self.ids@;
        if self.contains(id) {
            return;
        }
        self.ids.push(id);
        proof {
            assert forall|k: u64| #[trigger] self.ids@.contains(k) <==> o.contains(k) || k == id by {
                if o.contains(k) {
                    let i = choose|i: int| 0 <= i < o.len() && o[i] == k;
                    assert(self.ids@[i] == k);
                }
                if k == id {
                    assert(self.ids@[o.len() as int] == k);
                }
                if self.ids@.contains(k) && k != id {
                    let i = choose|i: int| 0 <= i < self.ids@.len() && self.ids@[i] == k;
                    assert(o[i] == k);
                }
            }
        }
    }

    pub fn contains(&self, id: u64) -> (r: bool)
        ensures
            r == self.ids@.contains(id),
    {
        let mut i: usize = 0;
        while i < self.ids.len()
            invariant
                i <= self.ids.len(),
                forall|j: int| 0 <= j < i ==> self.ids@[j] != id,
            decreases self.ids.len() - i,
        {
            if self.ids[i] == id {
                return true;
            }
            i += 1;
        }
        false
    }
}

impl Default for IconStore {
    fn default() -> (r: Self)
        ensures
            r.ids.len() == 0,
            r.next_id == 0,
    {
        IconStore::new()
    }
}

/// A text that has to be cut keeps as many of its characters as fit beside the three dots: so
/// many fit, and one more would not.
pub proof fn law_cut_keeps_what_fits<S: Scalar>(s: Seq<char>, budget: S, size: S, j: int)
    requires
        0 <= j <= s.len(),
    ensures
        ({
            let n = fit_from(s, budget, size, 0);
            &&& 0 <= n <= s.len()
            &&& j < n ==> !budget.lt(text::width_of(s.take(j), size).add(text::char_width::<S>(s[j]).mul(size)))
            &&& n < s.len() ==> budget.lt(
                text::width_of(s.take(n), size).add(text::char_width::<S>(s[n]).mul(size)),
            )
        }),
{
    lemma_fits_up_to(s, budget, size, 0, j);
}

proof fn lemma_fits_up_to<S: Scalar>(s: Seq<char>, budget: S, size: S, n: int, j: int)
    requires
        0 <= n <= s.len(),
        0 <= j <= s.len(),
    ensures
        ({
            let k = fit_from(s, budget, size, n);
            &&& n <= k <= s.len()
            &&& n <= j < k ==> !budget.lt(
                text::width_of(s.take(j), size).add(text::char_width::<S>(s[j]).mul(size)),
            )
            &&& k < s.len() ==> budget.lt(
                text::width_of(s.take(k), size).add(text::char_width::<S>(s[k]).mul(size)),
            )
        }),
    decreases s.len() - n,
{
    if n < s.len() && !budget.lt(
        text::width_of(s.take(n), size).add(text::char_width::<S>(s[n]).mul(size)),
    ) {
        lemma_fits_up_to(s, budget, size, n + 1, j);
    }
}

/// A text that fits is written in full in the middle of its place: there is as much room left
/// of it as right of it, but for a pixel.
pub proof fn law_centered_is_in_the_middle(s: Seq<char>, font: Font, rect: Edges<i64>, color: Color<i64>, t: Theme<i64>)
    requires
        s.len() <= 0x1_0000,
        0 <= size_of(t, font) <= 0x1_0000,
        -0x1000_0000_0000 <= rect.left <= 0x1000_0000_0000,
        -0x1000_0000_0000 <= rect.right <= 0x1000_0000_0000,
        text::units::<i64>(s) * size_of(t, font) <= rect.right - rect.left,
    ensures
        ({
            let w = text::units::<i64>(s) * size_of(t, font);
            &&& centered(s, font, rect, color, t) matches Paint::Text { text, font: f, rect: r, color: c }
            &&& text == s
            &&& f == font
            &&& c == color
            &&& r.top == rect.top && r.right == rect.right && r.bottom == rect.bottom
            &&& 0 <= (rect.right - (r.left + w)) - (r.left - rect.left) <= 1
        }),
{
    assert(scalar::num::<i64>(0) == 0);
    assert(scalar::num::<i64>(2) == 2);
    text::law_widths_add_up(s, Seq::empty());
    let u = text::units::<i64>(s);
    let size = size_of(t, font);
    assert(0 <= u * size <= 0x1_0000 * 0x1_0000) by (nonlinear_arith)
        requires
            0 <= u <= 0x1_0000,
            0 <= size <= 0x1_0000,
    ;
    assert(text::width_of(s, size) == u * size);
}

} // verus!
