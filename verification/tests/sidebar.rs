use sylva::model::{Fence, FenceAppearance, FenceLayout, FenceState, Rect, SidebarPosition};
use sylva::paint::{text_fits, truncate_to_fit};
use sylva::scalar::Scalar;
use sylva::scene::SceneIcon;
use sylva::sidebar::{clamp_sidebar_work_rect, sidebar_dock_rect, sidebar_eff_gap, sidebar_magnify};
use sylva::text::estimate_width;

/// Single precision pixels.
#[derive(Debug, Clone, Copy, PartialEq)]
struct Px(f32);

impl Scalar for Px {
    fn plus(self, o: Self) -> Self {
        Px(self.0 + o.0)
    }
    fn minus(self, o: Self) -> Self {
        Px(self.0 - o.0)
    }
    fn times(self, o: Self) -> Self {
        Px(self.0 * o.0)
    }
    fn over(self, o: Self) -> Self {
        Px(self.0 / o.0)
    }
    fn least(self, o: Self) -> Self {
        Px(self.0.min(o.0))
    }
    fn greatest(self, o: Self) -> Self {
        Px(self.0.max(o.0))
    }
    fn size(self) -> Self {
        Px(self.0.abs())
    }
    fn nearest(self) -> Self {
        Px(self.0.round())
    }
    fn down(self) -> Self {
        Px(self.0.floor())
    }
    fn up(self) -> Self {
        Px(self.0.ceil())
    }
    fn below(self, o: Self) -> bool {
        self.0 < o.0
    }
    fn at_most(self, o: Self) -> bool {
        self.0 <= o.0
    }
    fn equals(self, o: Self) -> bool {
        self.0 == o.0
    }
    fn square_root(self) -> Self {
        Px(self.0.sqrt())
    }
    fn damping(self) -> Self {
        Px((-5.0 * self.0).exp() * (7.0 * self.0).cos())
    }
    fn endless() -> Self {
        Px(f32::INFINITY)
    }
    fn ratio(n: i64, d: i64) -> Self {
        Px(n as f32 / d as f32)
    }
    fn cut(self) -> i64 {
        self.0 as i64
    }
    fn add(self, o: Self) -> Self {
        self.plus(o)
    }
    fn sub(self, o: Self) -> Self {
        self.minus(o)
    }
    fn mul(self, o: Self) -> Self {
        self.times(o)
    }
    fn div(self, o: Self) -> Self {
        self.over(o)
    }
    fn min(self, o: Self) -> Self {
        self.least(o)
    }
    fn max(self, o: Self) -> Self {
        self.greatest(o)
    }
    fn abs(self) -> Self {
        self.size()
    }
    fn rounded(self) -> Self {
        self.nearest()
    }
    fn floored(self) -> Self {
        self.down()
    }
    fn ceiled(self) -> Self {
        self.up()
    }
    fn lt(self, o: Self) -> bool {
        self.below(o)
    }
    fn le(self, o: Self) -> bool {
        self.at_most(o)
    }
    fn same_as(self, o: Self) -> bool {
        self.equals(o)
    }
    fn root(self) -> Self {
        self.square_root()
    }
    fn damped(self) -> Self {
        self.damping()
    }
    fn top() -> Self {
        Self::endless()
    }
    fn lit(n: i64, d: i64) -> Self {
        Self::ratio(n, d)
    }
    fn whole(self) -> i64 {
        self.cut()
    }
}

fn test_fence(layout: FenceLayout) -> Fence<Px> {
    Fence {
        id: 1,
        title: Some("测试".into()),
        monitor_id: 0,
        bounds: rect(0.0, 0.0, 0.0, 0.0),
        state: FenceState::Expanded,
        icon_ids: vec!["a".into(), "b".into(), "c".into()],
        appearance: FenceAppearance {
            layout,
            icon_size: Px(48.0),
            gap: Px(10.0),
            ..FenceAppearance::default()
        },
        scroll: Px(0.0),
        storage_path: None,
        sidebar_collapsed: false,
    }
}

fn rect(x: f32, y: f32, w: f32, h: f32) -> Rect<Px> {
    Rect::new(Px(x), Px(y), Px(w), Px(h))
}

#[test]
fn clamp_sidebar_work_rect_keeps_dock_above_taskbar() {
    let wa = rect(0.0, 0.0, 1920.0, 1560.0);
    let dock = rect(0.0, 1580.0, 168.0, 472.0);
    let out = clamp_sidebar_work_rect(dock, wa, SidebarPosition::Left);
    assert_eq!(out.bottom(), wa.bottom());
    assert!(out.y.0 >= wa.y.0);
}

#[test]
fn clamp_sidebar_work_rect_shrinks_oversized_dock() {
    let wa = rect(0.0, 0.0, 1920.0, 1560.0);
    let dock = rect(0.0, 0.0, 168.0, 3000.0);
    let out = clamp_sidebar_work_rect(dock, wa, SidebarPosition::Right);
    assert_eq!(out.h, wa.h);
    assert_eq!(out.y, wa.y);
    assert!(out.bottom().0 <= wa.bottom().0);
}

#[test]
fn clamp_sidebar_work_rect_top_dock_horizontal() {
    let wa = rect(0.0, 0.0, 1920.0, 1560.0);
    let dock = rect(1800.0, 0.0, 400.0, 168.0);
    let out = clamp_sidebar_work_rect(dock, wa, SidebarPosition::Top);
    assert_eq!(out.right(), wa.right());
    assert!(out.x.0 >= wa.x.0);
}

#[test]
fn clamp_sidebar_work_rect_untouched_when_inside() {
    let wa = rect(0.0, 0.0, 1920.0, 1560.0);
    let dock = rect(0.0, 400.0, 168.0, 472.0);
    assert_eq!(clamp_sidebar_work_rect(dock, wa, SidebarPosition::Left), dock);
}

#[test]
fn sidebar_dock_rect_vertical_fits_within_screen() {
    let f = test_fence(FenceLayout::Sidebar);
    let wa = rect(0.0, 0.0, 3072.0, 1920.0);
    let r = sidebar_dock_rect(Px(2.0), &f, &wa);
    assert_eq!(r.x.0, 0.0);
    assert_eq!(r.w.0, 168.0);
    assert_eq!(r.h.0, 472.0);
    assert_eq!(r.y.0, (1920.0 - 472.0) / 2.0);
    assert!(r.y.0 >= 0.0 && r.y.0 + r.h.0 <= 1920.0);
}

#[test]
fn sidebar_dock_rect_clamps_full_height_for_many_icons() {
    let mut f = test_fence(FenceLayout::Sidebar);
    f.icon_ids = (0..29).map(|i| format!("icon{i}")).collect();
    let wa = rect(0.0, 0.0, 1920.0, 1920.0);
    let r = sidebar_dock_rect(Px(2.0), &f, &wa);
    assert_eq!(r.h.0, 1920.0);
    assert_eq!(r.y.0, 0.0);
    assert!(r.x.0 + r.w.0 <= 1920.0);
}

#[test]
fn sidebar_dock_rect_right_anchors_to_right_edge() {
    let mut f = test_fence(FenceLayout::Sidebar);
    f.appearance.sidebar_pos = SidebarPosition::Right;
    let wa = rect(0.0, 0.0, 3072.0, 1920.0);
    let r = sidebar_dock_rect(Px(2.0), &f, &wa);
    assert_eq!(r.x.0, 3072.0 - r.w.0);
    assert!(r.x.0 >= 0.0);
}

#[test]
fn sidebar_dock_rect_top_makes_horizontal_dock() {
    let mut f = test_fence(FenceLayout::Sidebar);
    f.appearance.sidebar_pos = SidebarPosition::Top;
    let wa = rect(0.0, 0.0, 3072.0, 1920.0);
    let r = sidebar_dock_rect(Px(2.0), &f, &wa);
    assert_eq!(r.h.0, 168.0);
    assert_eq!(r.y.0, 0.0);
    assert_eq!(r.w.0, 472.0);
    assert_eq!(r.x.0, (3072.0 - 472.0) / 2.0);
    assert!(r.x.0 >= 0.0 && r.x.0 + r.w.0 <= 3072.0);
}

#[test]
fn sidebar_dock_rect_empty_fence_keeps_min_size() {
    let mut f = test_fence(FenceLayout::Sidebar);
    f.icon_ids.clear();
    let wa = rect(0.0, 0.0, 1920.0, 1920.0);
    let r = sidebar_dock_rect(Px(2.0), &f, &wa);
    assert_eq!(r.h.0, 200.0);
    assert_eq!(r.w.0, 168.0);
}

#[test]
fn sidebar_eff_gap_prevents_magnified_overlap() {
    let icon = 48.0;
    let gap = 10.0;
    let eff = sidebar_eff_gap(Px(icon), Px(gap)).0;
    assert_eq!(eff, gap + icon * 0.5);
    let step = icon + eff;
    assert!(step >= icon * 1.5, "step {step} 应 ≥ 1.5×图标");
    assert!(step - icon * 1.5 >= -0.001);
}

fn test_icon(x: f32, y: f32, size: f32) -> SceneIcon<Px> {
    SceneIcon {
        label: String::new(),
        bitmap_id: 0,
        x: Px(x),
        y: Px(y),
        size: Px(size),
        col_type: String::new(),
        col_modified: String::new(),
        col_size: String::new(),
        scale: Px(1.0),
    }
}

fn magnify(icons: &Vec<SceneIcon<Px>>, x: f32, y: f32) -> (Option<usize>, Vec<f32>) {
    let (hovered, scales) = sidebar_magnify(icons, Some((Px(x), Px(y))), Px(48.0), Px(10.0));
    (hovered, scales.iter().map(|s| s.0).collect())
}

#[test]
fn magnify_resets_when_cursor_far() {
    let icons = vec![test_icon(0.0, 0.0, 48.0), test_icon(0.0, 116.0, 48.0)];
    let (hovered, scales) = magnify(&icons, 24.0, 1000.0);
    assert!(hovered.is_none());
    assert!(scales.iter().all(|&s| s == 1.0));
}

#[test]
fn magnify_peak_at_icon_center() {
    let icons = vec![test_icon(0.0, 0.0, 48.0), test_icon(0.0, 116.0, 48.0)];
    let (hovered, scales) = magnify(&icons, 24.0, 24.0);
    assert_eq!(hovered, Some(0));
    assert!((scales[0] - 1.5).abs() < 0.001);
    assert!(scales[1] > 1.0 && scales[1] < 1.5);
}

#[test]
fn magnify_is_continuous_between_icons() {
    let icons = vec![test_icon(0.0, 0.0, 48.0), test_icon(0.0, 116.0, 48.0)];
    let (hovered, scales) = magnify(&icons, 24.0, 82.0);
    assert_eq!(hovered, Some(0));
    assert!((scales[0] - scales[1]).abs() < 0.001);
    assert!(scales[0] > 1.0);
}

#[test]
fn magnify_monotonic_toward_center() {
    let icons = vec![test_icon(0.0, 0.0, 48.0), test_icon(0.0, 116.0, 48.0)];
    let (_, s_at_center) = magnify(&icons, 24.0, 24.0);
    let (_, s_mid) = magnify(&icons, 24.0, 60.0);
    assert!(s_at_center[0] > s_mid[0]);
    assert!(s_mid[1] > 1.0);
}

#[test]
fn magnify_without_pointer_is_flat() {
    let icons = vec![test_icon(0.0, 0.0, 48.0)];
    let (hovered, scales) = sidebar_magnify(&icons, None, Px(48.0), Px(10.0));
    assert!(hovered.is_none());
    assert_eq!(scales, vec![Px(1.0)]);
}

#[test]
fn ascii_is_062_per_char() {
    assert_eq!(estimate_width("abc", Px(10.0)).0, 18.6);
}

#[test]
fn cjk_is_full_width() {
    assert_eq!(estimate_width("栅栏", Px(10.0)).0, 20.0);
}

#[test]
fn mixed_text_sums_units() {
    assert_eq!(estimate_width("a栅b", Px(10.0)).0, 22.4);
}

#[test]
fn empty_text_is_zero() {
    assert_eq!(estimate_width("", Px(10.0)).0, 0.0);
}

#[test]
fn scales_with_font_size() {
    let half = estimate_width("栅栏abc", Px(10.0)).0;
    assert_eq!(estimate_width("栅栏abc", Px(20.0)).0, half * 2.0);
}

#[test]
fn text_that_is_too_wide_is_cut() {
    assert_eq!(truncate_to_fit("栅栏", Px(20.0), Px(10.0)), "栅栏");
    assert_eq!(truncate_to_fit("栅栏栅栏栅栏", Px(32.0), Px(10.0)), "栅栏…");
    assert!(text_fits("栅栏", Px(20.0), Px(10.0)));
    assert!(!text_fits("栅栏", Px(19.0), Px(10.0)));
}
