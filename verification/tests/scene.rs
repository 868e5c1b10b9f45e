use sylva::backing::{blur_property, Backing, BlurPane, BlurStep, Blurs};
use sylva::console::{tint_color, tint_label};
use sylva::draw_fence::to_color;
use sylva::draw_scene::{caret_lit, draw_scene};
use sylva::messages::{build_region, client_point, PixelRect};
use sylva::model::FenceLayout;
use sylva::overlay::{rect_overlap, ConsoleZone, FenceHit, HitModel, IconHit, RectF, ResizeZone};
use sylva::paint::{IconStore, Paint};
use sylva::pointer::{
    on_button_down, on_button_up, on_double_click, on_drop, on_mouse_move, on_wheel, press_event, DragKind, DragState,
    OverlayEvent, Press,
};
use sylva::scalar::Scalar;
use sylva::scene::{ListColumns, Scene, SceneFence, SceneIcon};
use sylva::theme::{apply_theme_scale, Color, Theme};

/// Single precision pixels.
#[derive(Debug, Clone, Copy, PartialEq)]
struct Px(f32);

impl Scalar for Px {
    fn plus(self, o: Self) -> Self {
        Px(self.0 + o.0)
    }
    fn minus(self, o: Self) -> Self {
        Px(self.0 - o.0)
    }
    fn times(self, o: Self) -> Self {
        Px(self.0 * o.0)
    }
    fn over(self, o: Self) -> Self {
        Px(self.0 / o.0)
    }
    fn least(self, o: Self) -> Self {
        Px(self.0.min(o.0))
    }
    fn greatest(self, o: Self) -> Self {
        Px(self.0.max(o.0))
    }
    fn size(self) -> Self {
        Px(self.0.abs())
    }
    fn nearest(self) -> Self {
        Px(self.0.round())
    }
    fn down(self) -> Self {
        Px(self.0.floor())
    }
    fn up(self) -> Self {
        Px(self.0.ceil())
    }
    fn below(self, o: Self) -> bool {
        self.0 < o.0
    }
    fn at_most(self, o: Self) -> bool {
        self.0 <= o.0
    }
    fn equals(self, o: Self) -> bool {
        self.0 == o.0
    }
    fn square_root(self) -> Self {
        Px(self.0.sqrt())
    }
    fn damping(self) -> Self {
        Px((-5.0 * self.0).exp() * (7.0 * self.0).cos())
    }
    fn endless() -> Self {
        Px(f32::INFINITY)
    }
    fn ratio(n: i64, d: i64) -> Self {
        Px(n as f32 / d as f32)
    }
    fn cut(self) -> i64 {
        self.0 as i64
    }
    fn add(self, o: Self) -> Self {
        self.plus(o)
    }
    fn sub(self, o: Self) -> Self {
        self.minus(o)
    }
    fn mul(self, o: Self) -> Self {
        self.times(o)
    }
    fn div(self, o: Self) -> Self {
        self.over(o)
    }
    fn min(self, o: Self) -> Self {
        self.least(o)
    }
    fn max(self, o: Self) -> Self {
        self.greatest(o)
    }
    fn abs(self) -> Self {
        self.size()
    }
    fn rounded(self) -> Self {
        self.nearest()
    }
    fn floored(self) -> Self {
        self.down()
    }
    fn ceiled(self) -> Self {
        self.up()
    }
    fn lt(self, o: Self) -> bool {
        self.below(o)
    }
    fn le(self, o: Self) -> bool {
        self.at_most(o)
    }
    fn same_as(self, o: Self) -> bool {
        self.equals(o)
    }
    fn root(self) -> Self {
        self.square_root()
    }
    fn damped(self) -> Self {
        self.damping()
    }
    fn top() -> Self {
        Self::endless()
    }
    fn lit(n: i64, d: i64) -> Self {
        Self::ratio(n, d)
    }
    fn whole(self) -> i64 {
        self.cut()
    }
}

fn rectf(x: f32, y: f32, w: f32, h: f32) -> RectF<Px> {
    RectF { x: Px(x), y: Px(y), w: Px(w), h: Px(h) }
}

fn test_fence() -> SceneFence<Px> {
    SceneFence {
        x: Px(10.0),
        y: Px(20.0),
        width: Px(100.0),
        height: Px(80.0),
        title: "测试".into(),
        icons: vec![],
        layout: FenceLayout::Grid,
        list_cols: None,
        grid_cell_w: Px(72.0),
        scroll: Px(0.0),
        scroll_max: Px(0.0),
        scroll_view: Px(0.0),
        content_top: Px(0.0),
        content_left: Px(0.0),
        hover_icon: None,
        selected: vec![],
        select_band: None,
        border_width: Px(1.0),
        border_color: [Px(1.0), Px(1.0), Px(1.0), Px(0.1)],
        fill_color: Some([Px(0.08), Px(0.08), Px(0.12), Px(0.55)]),
        blur: false,
        alpha: Px(1.0),
        tooltip_rect: None,
        reorder_drag: None,
    }
}

#[test]
fn fence_contains_checks_rectangle() {
    let f = test_fence();
    assert!(f.contains(Px(10.0), Px(20.0)));
    assert!(f.contains(Px(110.0), Px(100.0)));
    assert!(!f.contains(Px(9.0), Px(20.0)));
    assert!(!f.contains(Px(10.0), Px(101.0)));
}

#[test]
fn fence_style_fields_are_plumbed() {
    let f = test_fence();
    assert_eq!(f.border_width.0, 1.0);
    assert!(f.fill_color.is_some());
    let outline = SceneFence { fill_color: None, border_width: Px(2.5), ..test_fence() };
    assert!(outline.fill_color.is_none());
    assert_eq!(outline.border_width.0, 2.5);
}

#[test]
fn fence_scroll_and_columns_fields_exist() {
    let f = test_fence();
    assert_eq!(f.layout, FenceLayout::Grid);
    assert_eq!(f.scroll.0, 0.0);
    assert_eq!(f.scroll_max.0, 0.0);
    assert!(f.list_cols.is_none());
    assert!(f.hover_icon.is_none());
}

#[test]
fn list_columns_store_absolute_x() {
    let c = ListColumns { type_x: Px(200.0), modified_x: Px(300.0), size_x: Px(450.0), header_h: Px(26.0) };
    assert_eq!(c.type_x.0, 200.0);
    assert!(c.size_x.0 > c.modified_x.0);
    assert_eq!(c.header_h.0, 26.0);
}

#[test]
fn scene_defaults_empty() {
    let s = Scene::new(Px(1920.0), Px(1080.0));
    assert!(s.fences.is_empty());
    assert_eq!(s.width.0, 1920.0);
    assert!(s.content_rect().is_none());
}

#[test]
fn content_rect_covers_fences() {
    let mut s = Scene::new(Px(3072.0), Px(1920.0));
    let f1 = test_fence();
    let f2 = SceneFence {
        x: Px(400.0),
        y: Px(300.0),
        width: Px(250.0),
        height: Px(120.0),
        ..test_fence()
    };
    s.fences = vec![f1, f2];
    let r = s.content_rect().expect("有内容应返回包围盒");
    assert_eq!(r.x.0, 10.0);
    assert_eq!(r.y.0, 20.0);
    assert_eq!(r.w.0, 640.0);
    assert_eq!(r.h.0, 400.0);
}

#[test]
fn content_rect_covers_the_label_of_a_dock() {
    let mut s = Scene::new(Px(3072.0), Px(1920.0));
    s.fences = vec![SceneFence { tooltip_rect: Some(rectf(120.0, 10.0, 60.0, 20.0)), ..test_fence() }];
    assert_eq!(s.content_rect(), Some(rectf(10.0, 10.0, 170.0, 90.0)));
}

#[test]
fn default_theme_metrics_are_sane() {
    let t: Theme<Px> = Theme::default();
    assert!(t.icon_size.0 > 0.0);
    assert!(t.icon_cols > 0);
    assert!(t.fence_corner_radius.0 >= 0.0);
    assert!(t.title.size.0 > 0.0 && t.label.size.0 > 0.0);
    assert!(t.fence_padding.0 >= 0.0);
}

#[test]
fn theme_grows_with_the_screen() {
    let plain: Theme<Px> = Theme::default();
    let mut t: Theme<Px> = Theme::default();
    apply_theme_scale(&mut t, Px(2.0));
    assert_eq!(t.scale.0, 2.0);
    assert_eq!(t.icon_size.0, plain.icon_size.0 * 2.0);
    assert_eq!(t.title.size.0, plain.title.size.0 * 2.0);
    assert_eq!(t.fence_padding.0, plain.fence_padding.0 * 2.0);
    assert_eq!(t.icon_cols, plain.icon_cols);
}

#[test]
fn color_converts_to_d2d_matching_input() {
    let c = Color::rgba(Px(0.2), Px(0.4), Px(0.6), Px(0.8));
    assert!((c.r.0 - 0.2).abs() < 1e-6);
    assert!((c.a.0 - 0.8).abs() < 1e-6);
}

#[test]
fn color_array_maps_to_d2d() {
    let c = to_color(&[Px(0.2), Px(0.4), Px(0.6), Px(0.8)]);
    assert!((c.r.0 - 0.2).abs() < 1e-6);
    assert!((c.a.0 - 0.8).abs() < 1e-6);
}

#[test]
fn icon_store_ids_are_monotonic_without_gpu() {
    let mut store = IconStore::new();
    assert_eq!(store.next_id, 0);
    store.next_id = 5;
    assert_eq!(store.insert(), 5);
    assert_eq!(store.insert(), 6);
    assert_eq!(store.next_id, 7);
    store.insert_at(40);
    assert!(store.contains(5) && store.contains(40) && !store.contains(7));
}

#[test]
fn rectf_contains_checks_rectangle() {
    let r = rectf(100.0, 200.0, 300.0, 400.0);
    assert!(r.contains(Px(100.0), Px(200.0)));
    assert!(r.contains(Px(400.0), Px(600.0)));
    assert!(!r.contains(Px(99.0), Px(200.0)));
    assert!(!r.contains(Px(100.0), Px(601.0)));
}

#[test]
fn client_point_sign_extension() {
    let (x, y) = client_point(0xFF0C_FE0Cu32 as i32 as isize);
    assert_eq!(x as f32, -500.0);
    assert_eq!(y as f32, -244.0);
}

fn drag(kind: DragKind) -> DragState<Px> {
    DragState {
        kind,
        fence: 3,
        start: (Px(300.0), Px(150.0)),
        orig: rectf(120.0, 90.0, 400.0, 240.0),
        pressed_icon: None,
        ctrl: false,
    }
}

#[test]
fn drag_resolve_delta_from_orig() {
    let m = HitModel::empty();
    let now = (Px(360.0), Px(220.0));
    let pos = on_mouse_move(&m, Some(drag(DragKind::Move)), now.0, now.1);
    assert_eq!(pos, Some(OverlayEvent::FenceMove { fence: 3, pos: (Px(180.0), Px(160.0)) }));

    let zone = ResizeZone::BottomRight;
    let size = on_mouse_move(&m, Some(drag(DragKind::Resize(zone))), now.0, now.1);
    assert_eq!(
        size,
        Some(OverlayEvent::FenceResize { fence: 3, zone, rect: (Px(120.0), Px(90.0), Px(460.0), Px(310.0)) })
    );
}

#[test]
fn upper_right_corner_changes_both_sizes() {
    let m = HitModel::empty();
    let zone = ResizeZone::TopRight;
    assert_eq!(
        on_mouse_move(&m, Some(drag(DragKind::Resize(zone))), Px(310.0), Px(170.0)),
        Some(OverlayEvent::FenceResize { fence: 3, zone, rect: (Px(120.0), Px(110.0), Px(410.0), Px(220.0)) })
    );
}

#[test]
fn rectangles_that_touch_overlap() {
    let a = rectf(0.0, 0.0, 10.0, 10.0);
    assert!(rect_overlap(a, rectf(10.0, 10.0, 5.0, 5.0)));
    assert!(rect_overlap(a, rectf(3.0, -4.0, 0.0, 4.0)));
    assert!(!rect_overlap(a, rectf(10.5, 0.0, 5.0, 5.0)));
}

#[test]
fn pointer_without_drag_reports_nothing() {
    let m: HitModel<Px> = HitModel::empty();
    assert_eq!(on_mouse_move(&m, None, Px(1.0), Px(1.0)), None);
    assert_eq!(on_double_click(&m, Px(1.0), Px(1.0)), None);
    assert_eq!(on_wheel(&m, Px(1.0), Px(1.0), 120), None);
    assert_eq!(on_button_down(&m, Px(1.0), Px(1.0), false), Press::Nothing);
}

fn two_fences() -> HitModel<Px> {
    HitModel {
        fences: vec![
            FenceHit {
                body: rectf(10.0, 10.0, 100.0, 80.0),
                title: rectf(10.0, 10.0, 100.0, 40.0),
                grip: rectf(84.0, 64.0, 26.0, 26.0),
                tooltip: None,
                is_sidebar: false,
                id: 0,
            },
            FenceHit {
                body: rectf(60.0, 50.0, 120.0, 90.0),
                title: rectf(60.0, 50.0, 120.0, 40.0),
                grip: rectf(154.0, 114.0, 26.0, 26.0),
                tooltip: None,
                is_sidebar: false,
                id: 1,
            },
        ],
        icons: vec![],
        console: None,
        edit_rect: None,
    }
}

#[test]
fn build_region_unions_without_panic() {
    let rgn = build_region(&two_fences());
    assert_eq!(
        rgn,
        vec![
            PixelRect { left: 10, top: 10, right: 110, bottom: 90 },
            PixelRect { left: 60, top: 50, right: 180, bottom: 140 },
        ]
    );
}

#[test]
fn press_on_an_empty_place_clears_the_selection() {
    let mut m = two_fences();
    let at = (Px(30.0), Px(60.0));
    let p = on_button_down(&m, at.0, at.1, true);
    assert_eq!(
        press_event(&p, at.0, at.1),
        Some(OverlayEvent::SelectDrag { fence: 0, rect: (at.0, at.1, Px(0.0), Px(0.0)), selected: vec![] })
    );
    m.icons.push(IconHit { rect: rectf(20.0, 55.0, 30.0, 30.0), fence: 0, icon: 4 });
    assert_eq!(press_event(&on_button_down(&m, at.0, at.1, true), at.0, at.1), None);
    assert_eq!(press_event(&on_button_down(&m, Px(1.0), Px(1.0), false), Px(1.0), Px(1.0)), None);
    let click = Press::Click(ConsoleZone::AddFence);
    assert_eq!(press_event(&click, at.0, at.1), Some(OverlayEvent::ConsoleClick { zone: ConsoleZone::AddFence }));
}

#[test]
fn icons_are_clicked_dragged_and_opened() {
    let mut m = two_fences();
    m.icons.push(IconHit { rect: rectf(20.0, 55.0, 30.0, 30.0), fence: 0, icon: 4 });
    assert_eq!(
        on_double_click(&m, Px(30.0), Px(60.0)),
        Some(OverlayEvent::IconDoubleClicked { fence: 0, icon: 4 })
    );
    match on_button_down(&m, Px(30.0), Px(60.0), true) {
        Press::Drag(d, _) => {
            assert_eq!(d.kind, DragKind::Move);
            assert_eq!(d.pressed_icon, Some(4));
            let up = on_button_up(Some(d), Px(31.0), Px(61.0));
            assert!(up.contains(&OverlayEvent::IconClicked { fence: 0, icon: 4, ctrl: true }));
        }
        other => panic!("{other:?}"),
    }
    match on_button_down(&m, Px(60.0), Px(30.0), false) {
        Press::Drag(d, _) => assert_eq!(d.kind, DragKind::Move),
        other => panic!("{other:?}"),
    }
    let band = drag(DragKind::Select);
    let ev = on_mouse_move(&m, Some(DragState { fence: 0, start: (Px(15.0), Px(50.0)), ..band }), Px(40.0), Px(70.0));
    assert_eq!(
        ev,
        Some(OverlayEvent::SelectDrag {
            fence: 0,
            rect: (Px(15.0), Px(50.0), Px(25.0), Px(20.0)),
            selected: vec![(0, 4)],
        })
    );
}

#[test]
fn dropped_files_go_to_the_fence_below() {
    let m = two_fences();
    assert_eq!(
        on_drop(&m, Px(20.0), Px(80.0), vec!["C:\\a".into()]),
        Some(OverlayEvent::FilesDropped { fence: 0, paths: vec!["C:\\a".into()] })
    );
    // Beside all fences they go to the first.
    assert_eq!(
        on_drop(&m, Px(900.0), Px(80.0), vec!["C:\\a".into()]),
        Some(OverlayEvent::FilesDropped { fence: 0, paths: vec!["C:\\a".into()] })
    );
    let none: HitModel<Px> = HitModel::empty();
    assert_eq!(on_drop(&none, Px(20.0), Px(80.0), vec!["C:\\a".into()]), None);
}

#[test]
fn surface_follows_the_picture() {
    let mut s = Scene::new(Px(3072.0), Px(1920.0));
    let first = Backing::new();
    assert_eq!(first.size(), (1, 1));
    assert_eq!(first.ensure_covering(&s), None);
    s.fences = vec![test_fence()];
    let b = first.ensure_covering(&s).expect("a larger surface");
    assert_eq!(b.area, rectf(-6.0, 4.0, 132.0, 112.0));
    assert_eq!(b.size(), (132, 112));
    assert_eq!(b.ensure_covering(&s), None);
    // Far too large: made smaller, unless a dock is seen.
    let huge = Backing { area: rectf(-100.0, -100.0, 4000.0, 4000.0), width: 4000, height: 4000 };
    assert_eq!(huge.ensure_covering(&s).map(|b| b.size()), Some((132, 112)));
    s.fences[0].layout = FenceLayout::Sidebar;
    assert_eq!(huge.ensure_covering(&s), None);
}

fn pane(f: &SceneFence<Px>, corner: f32) -> BlurPane<Px> {
    BlurPane { x: f.x, y: f.y, w: f.width, h: f.height, corner: Px(corner), opacity: f.alpha }
}

#[test]
fn panes_follow_the_fences() {
    let mut b = Blurs::new();
    let mut fences = vec![SceneFence { blur: true, ..test_fence() }, test_fence()];
    let steps = b.sync_blurs(&fences, Px(12.0));
    assert_eq!(steps, vec![BlurStep::Create(0, pane(&fences[0], 12.0))]);
    b.made(0, pane(&fences[0], 12.0));
    assert_eq!(b.sync_blurs(&fences, Px(12.0)), vec![]);
    fences[0].x = Px(50.0);
    assert_eq!(b.sync_blurs(&fences, Px(12.0)), vec![BlurStep::Update(0, pane(&fences[0], 12.0))]);
    fences[0].blur = false;
    assert_eq!(b.sync_blurs(&fences, Px(12.0)), vec![BlurStep::Remove(0)]);
    fences[1].blur = true;
    b.sync_blurs(&fences, Px(12.0));
    b.made(1, pane(&fences[1], 12.0));
    fences.clear();
    assert_eq!(b.sync_blurs(&fences, Px(12.0)), vec![BlurStep::Remove(1)]);
    assert!(b.panes.is_empty());
}

#[test]
fn pictures_are_drawn_where_they_are() {
    let theme: Theme<Px> = Theme::default();
    let mut s = Scene::new(Px(1920.0), Px(1080.0));
    let mut f = SceneFence { width: Px(300.0), height: Px(300.0), ..test_fence() };
    f.icons.push(SceneIcon {
        label: "a".into(),
        bitmap_id: 7,
        x: Px(40.0),
        y: Px(90.0),
        size: Px(48.0),
        col_type: String::new(),
        col_modified: String::new(),
        col_size: String::new(),
        scale: Px(1.0),
    });
    s.fences = vec![f];
    let mut store = IconStore::new();
    let without = draw_scene(&theme, &s, &store, true);
    assert!(!without.iter().any(|p| matches!(p, Paint::Bitmap { .. })));
    store.insert_at(7);
    let with = draw_scene(&theme, &s, &store, true);
    assert!(with.iter().any(|p| matches!(p, Paint::Bitmap { id: 7, .. })));
    assert!(with.iter().any(|p| matches!(p, Paint::Text { text, .. } if text == "测试")));
    let opened = with.iter().filter(|p| matches!(p, Paint::PushClip(_))).count();
    let closed = with.iter().filter(|p| matches!(p, Paint::PopClip)).count();
    assert_eq!(opened, closed);
}

#[test]
fn caret_blinks_every_half_second() {
    assert!(caret_lit(0) && caret_lit(499) && !caret_lit(500) && caret_lit(1000));
}

#[test]
fn tints_have_names_and_colours() {
    assert_eq!(tint_label(0), "蓝");
    assert_eq!(tint_label(5), "红");
    assert_eq!(tint_label(8), "灰");
    assert_eq!(tint_color::<Px>(0), [Px(32.0 / 100.0), Px(55.0 / 100.0), Px(95.0 / 100.0)]);
    assert_eq!(tint_color::<Px>(8), [Px(56.0 / 100.0), Px(58.0 / 100.0), Px(62.0 / 100.0)]);
}

#[test]
fn blur_properties_by_name() {
    assert_eq!(blur_property("StandardDeviation"), Some(0));
    assert_eq!(blur_property("BlurAmount"), Some(0));
    assert_eq!(blur_property("Optimization"), Some(1));
    assert_eq!(blur_property("BorderMode"), Some(2));
    assert_eq!(blur_property("borderMode"), None);
}
