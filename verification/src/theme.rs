//! Colours and measures of the picture, in pixels.

use vstd::prelude::*;

use crate::scalar;
use crate::scalar::{whole_number, Scalar};

verus! {

/// A colour with straight alpha, each channel from 0 to 1.
#[derive(Debug, Clone, Copy, PartialEq)]
pub struct Color<S> {
    pub r: S,
    pub g: S,
    pub b: S,
    pub a: S,
}

impl<S> Color<S> {
    pub fn rgba(r: S, g: S, b: S, a: S) -> (c: Self)
        ensures
            c == (Color { r, g, b, a }),
    {
        Color { r, g, b, a }
    }
}

/// How a text is set.
#[derive(Debug, Clone, Copy, PartialEq)]
pub struct TextStyle<S> {
    pub font_family: &'static str,
    pub size: S,
    pub color: Color<S>,
}

/// The measures of fences, titles, icons and labels.
#[derive(Debug, Clone, Copy, PartialEq)]
pub struct Theme<S> {
    /// Pixels to the unit: 1 at 96 dots per inch.
    pub scale: S,
    pub fence_bg: Color<S>,
    pub fence_border: Color<S>,
    pub fence_corner_radius: S,
    pub fence_padding: S,
    /// Standard deviation of the blur behind a fence.
    pub blur_stddev: S,
    pub title: TextStyle<S>,
    pub title_padding_bottom: S,
    pub icon_size: S,
    pub icon_gap: S,
    pub icon_caption_gap: S,
    pub label: TextStyle<S>,
    pub caption_max_width: S,
    pub icon_cols: u32,
    pub list_row_gap: S,
    pub list_label_gap: S,
}

/// Height of the two lines of a label under an icon, as a multiple of the label's size.
pub open spec fn caption_lines<S: Scalar>() -> S {
    S::lit(26, 10)
}

/// Height of the two lines of a label under an icon, as a multiple of the label's size.
pub fn grid_caption_h_mult<S: Scalar>() -> (r: S)
    ensures
        r == caption_lines::<S>(),
{
    S::ratio(26, 10)
}

pub open spec fn color<S: Scalar>(r: i64, g: i64, b: i64, a: i64) -> Color<S> {
    Color { r: S::lit(r, 100), g: S::lit(g, 100), b: S::lit(b, 100), a: S::lit(a, 100) }
}

/// The colour with channels in hundredths.
pub fn percent<S: Scalar>(r: i64, g: i64, b: i64, a: i64) -> (c: Color<S>)
    ensures
        c == color::<S>(r, g, b, a),
{
    Color { r: S::ratio(r, 100), g: S::ratio(g, 100), b: S::ratio(b, 100), a: S::ratio(a, 100) }
}

impl<S: Scalar> Theme<S> {
    /// The measures at 96 dots per inch.
    pub open spec fn usual(self) -> bool {
        &&& self.scale == scalar::num::<S>(1)
        &&& self.fence_bg == color::<S>(13, 15, 19, 60)
        &&& self.fence_border == color::<S>(100, 100, 100, 42)
        &&& self.fence_corner_radius == scalar::num::<S>(12)
        &&& self.fence_padding == scalar::num::<S>(14)
        &&& self.blur_stddev == scalar::num::<S>(20)
        &&& self.title.font_family@ == "Microsoft YaHei UI"@
        &&& self.title.size == scalar::num::<S>(16)
        &&& self.title.color == color::<S>(100, 100, 100, 90)
        &&& self.title_padding_bottom == scalar::num::<S>(10)
        &&& self.icon_size == scalar::num::<S>(48)
        &&& self.icon_gap == scalar::num::<S>(24)
        &&& self.icon_caption_gap == scalar::num::<S>(6)
        &&& self.label.font_family@ == "Microsoft YaHei UI"@
        &&& self.label.size == scalar::num::<S>(12)
        &&& self.label.color == color::<S>(100, 100, 100, 85)
        &&& self.caption_max_width == scalar::num::<S>(80)
        &&& self.icon_cols == 5
        &&& self.list_row_gap == scalar::num::<S>(8)
        &&& self.list_label_gap == scalar::num::<S>(10)
    }

    /// The theme with every measure multiplied by `scale`. Colours, the blur and the number
    /// of columns stay.
    pub open spec fn scaled(self, scale: S) -> Theme<S> {
        Theme {
            scale,
            title: TextStyle { size: self.title.size.mul(scale), ..self.title },
            label: TextStyle { size: self.label.size.mul(scale), ..self.label },
            icon_size: self.icon_size.mul(scale),
            icon_gap: self.icon_gap.mul(scale),
            icon_caption_gap: self.icon_caption_gap.mul(scale),
            fence_padding: self.fence_padding.mul(scale),
            fence_corner_radius: self.fence_corner_radius.mul(scale),
            title_padding_bottom: self.title_padding_bottom.mul(scale),
            caption_max_width: self.caption_max_width.mul(scale),
            list_row_gap: self.list_row_gap.mul(scale),
            list_label_gap: self.list_label_gap.mul(scale),
            ..self
        }
    }

    /// Height of the title with the space below it.
    pub open spec fn title_block(self) -> S {
        self.title.size.mul(S::lit(16, 10)).add(self.title_padding_bottom)
    }

    /// Height of the title with the space below it.
    pub fn title_block_h(&self) -> (r: S)
        ensures
            r == self.title_block(),
    {
        self.title.size.times(S::ratio(16, 10)).plus(self.title_padding_bottom)
    }
}

impl<S: Scalar> Default for Theme<S> {
    fn default() -> (t: Self)
        ensures
            t.usual(),
    {
        Theme {
            scale: whole_number(1),
            fence_bg: percent(13, 15, 19, 60),
            fence_border: percent(100, 100, 100, 42),
            fence_corner_radius: whole_number(12),
            fence_padding: whole_number(14),
            blur_stddev: whole_number(20),
            title: TextStyle {
                font_family: "Microsoft YaHei UI",
                size: whole_number(16),
                color: percent(100, 100, 100, 90),
            },
            title_padding_bottom: whole_number(10),
            icon_size: whole_number(48),
            icon_gap: whole_number(24),
            icon_caption_gap: whole_number(6),
            label: TextStyle {
                font_family: "Microsoft YaHei UI",
                size: whole_number(12),
                color: percent(100, 100, 100, 85),
            },
            caption_max_width: whole_number(80),
            icon_cols: 5,
            list_row_gap: whole_number(8),
            list_label_gap: whole_number(10),
        }
    }
}

/// Multiplies every measure of the theme by `scale`: measures scale together, or lines of
/// text would run into each other.
pub fn apply_theme_scale<S: Scalar>(theme: &mut Theme<S>, scale: S)
    ensures
        *final(theme) == old(theme).scaled(scale),
{
    theme.scale = scale;
    theme.title.size = theme.title.size.times(scale);
    theme.label.size = theme.label.size.times(scale);
    theme.icon_size = theme.icon_size.times(scale);
    theme.icon_gap = theme.icon_gap.times(scale);
    theme.icon_caption_gap = theme.icon_caption_gap.times(scale);
    theme.fence_padding = theme.fence_padding.times(scale);
    theme.fence_corner_radius = theme.fence_corner_radius.times(scale);
    theme.title_padding_bottom = theme.title_padding_bottom.times(scale);
    theme.caption_max_width = theme.caption_max_width.times(scale);
    theme.list_row_gap = theme.list_row_gap.times(scale);
    theme.list_label_gap = theme.list_label_gap.times(scale);
}

/// Measures scale together: between any two of them the proportion stays, and what is no
/// measure stays as it is.
pub proof fn law_measures_scale_together(t: Theme<i64>, scale: i64)
    requires
        0 <= scale <= 0x1_0000,
        0 <= t.title.size <= 0x1_0000_0000,
        0 <= t.label.size <= 0x1_0000_0000,
        0 <= t.icon_size <= 0x1_0000_0000,
        0 <= t.icon_gap <= 0x1_0000_0000,
        0 <= t.icon_caption_gap <= 0x1_0000_0000,
        0 <= t.fence_padding <= 0x1_0000_0000,
        0 <= t.fence_corner_radius <= 0x1_0000_0000,
        0 <= t.title_padding_bottom <= 0x1_0000_0000,
        0 <= t.caption_max_width <= 0x1_0000_0000,
        0 <= t.list_row_gap <= 0x1_0000_0000,
        0 <= t.list_label_gap <= 0x1_0000_0000,
    ensures
        ({
            let u = t.scaled(scale);
            &&& u.scale == scale
            &&& u.title.size == t.title.size * scale
            &&& u.label.size == t.label.size * scale
            &&& u.icon_size == t.icon_size * scale
            &&& u.icon_gap == t.icon_gap * scale
            &&& u.icon_caption_gap == t.icon_caption_gap * scale
            &&& u.fence_padding == t.fence_padding * scale
            &&& u.fence_corner_radius == t.fence_corner_radius * scale
            &&& u.title_padding_bottom == t.title_padding_bottom * scale
            &&& u.caption_max_width == t.caption_max_width * scale
            &&& u.list_row_gap == t.list_row_gap * scale
            &&& u.list_label_gap == t.list_label_gap * scale
            &&& u.fence_bg == t.fence_bg
            &&& u.fence_border == t.fence_border
            &&& u.title.color == t.title.color
            &&& u.label.color == t.label.color
            &&& u.blur_stddev == t.blur_stddev
            &&& u.icon_cols == t.icon_cols
        }),
{
    lemma_times(t.title.size, scale);
    lemma_times(t.label.size, scale);
    lemma_times(t.icon_size, scale);
    lemma_times(t.icon_gap, scale);
    lemma_times(t.icon_caption_gap, scale);
    lemma_times(t.fence_padding, scale);
    lemma_times(t.fence_corner_radius, scale);
    lemma_times(t.title_padding_bottom, scale);
    lemma_times(t.caption_max_width, scale);
    lemma_times(t.list_row_gap, scale);
    lemma_times(t.list_label_gap, scale);
}

proof fn lemma_times(a: i64, b: i64)
    requires
        0 <= a <= 0x1_0000_0000,
        0 <= b <= 0x1_0000,
    ensures
        a.mul(b) == a * b,
{
    assert(0 <= a * b <= 0x1_0000_0000 * 0x1_0000) by (nonlinear_arith)
        requires
            0 <= a <= 0x1_0000_0000,
            0 <= b <= 0x1_0000,
    ;
}

} // verus!
