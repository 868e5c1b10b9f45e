use sylva::animation::{ease, Ease, Tween, Vec2Tween};
use sylva::layout::GridLayout;
use sylva::magnet::{
    clearance_x, gap_separated, overlap_x, settle_move, settle_resize, FreeSides, FENCE_GAP,
};
use sylva::model::{Rect, Vec2};
use sylva::scalar::Scalar;

/// Single precision pixels.
#[derive(Debug, Clone, Copy, PartialEq)]
struct Px(f32);

impl Scalar for Px {
    fn plus(self, o: Self) -> Self {
        Px(self.0 + o.0)
    }
    fn minus(self, o: Self) -> Self {
        Px(self.0 - o.0)
    }
    fn times(self, o: Self) -> Self {
        Px(self.0 * o.0)
    }
    fn over(self, o: Self) -> Self {
        Px(self.0 / o.0)
    }
    fn least(self, o: Self) -> Self {
        Px(self.0.min(o.0))
    }
    fn greatest(self, o: Self) -> Self {
        Px(self.0.max(o.0))
    }
    fn size(self) -> Self {
        Px(self.0.abs())
    }
    fn nearest(self) -> Self {
        Px(self.0.round())
    }
    fn down(self) -> Self {
        Px(self.0.floor())
    }
    fn up(self) -> Self {
        Px(self.0.ceil())
    }
    fn below(self, o: Self) -> bool {
        self.0 < o.0
    }
    fn at_most(self, o: Self) -> bool {
        self.0 <= o.0
    }
    fn equals(self, o: Self) -> bool {
        self.0 == o.0
    }
    fn square_root(self) -> Self {
        Px(self.0.sqrt())
    }
    fn damping(self) -> Self {
        Px((-5.0 * self.0).exp() * (7.0 * self.0).cos())
    }
    fn endless() -> Self {
        Px(f32::INFINITY)
    }
    fn ratio(n: i64, d: i64) -> Self {
        Px(n as f32 / d as f32)
    }
    fn cut(self) -> i64 {
        self.0 as i64
    }
    fn add(self, o: Self) -> Self {
        self.plus(o)
    }
    fn sub(self, o: Self) -> Self {
        self.minus(o)
    }
    fn mul(self, o: Self) -> Self {
        self.times(o)
    }
    fn div(self, o: Self) -> Self {
        self.over(o)
    }
    fn min(self, o: Self) -> Self {
        self.least(o)
    }
    fn max(self, o: Self) -> Self {
        self.greatest(o)
    }
    fn abs(self) -> Self {
        self.size()
    }
    fn rounded(self) -> Self {
        self.nearest()
    }
    fn floored(self) -> Self {
        self.down()
    }
    fn ceiled(self) -> Self {
        self.up()
    }
    fn lt(self, o: Self) -> bool {
        self.below(o)
    }
    fn le(self, o: Self) -> bool {
        self.at_most(o)
    }
    fn same_as(self, o: Self) -> bool {
        self.equals(o)
    }
    fn root(self) -> Self {
        self.square_root()
    }
    fn damped(self) -> Self {
        self.damping()
    }
    fn top() -> Self {
        Self::endless()
    }
    fn lit(n: i64, d: i64) -> Self {
        Self::ratio(n, d)
    }
    fn whole(self) -> i64 {
        self.cut()
    }
}

fn px(x: f32) -> Px {
    Px(x)
}

fn rect(x: f32, y: f32, w: f32, h: f32) -> Rect<Px> {
    Rect::new(Px(x), Px(y), Px(w), Px(h))
}

fn gap() -> Px {
    Px(FENCE_GAP as f32)
}

fn screen() -> Rect<Px> {
    rect(0.0, 0.0, 1920.0, 1080.0)
}

#[test]
fn rect_contains_and_inset() {
    let r = rect(10.0, 10.0, 100.0, 50.0);
    assert!(r.contains(Vec2 { x: px(10.0), y: px(10.0) }));
    assert!(!r.contains(Vec2 { x: px(111.0), y: px(10.0) }));
    let inner = r.inset(px(5.0));
    assert_eq!(inner, rect(15.0, 15.0, 90.0, 40.0));
}

#[test]
fn rect_edges_and_oversized_inset() {
    let r = rect(10.0, 20.0, 30.0, 40.0);
    assert_eq!(r.right(), px(40.0));
    assert_eq!(r.bottom(), px(60.0));
    assert!(r.contains(Vec2 { x: px(40.0), y: px(60.0) }));
    assert_eq!(r.inset(px(100.0)), rect(110.0, 120.0, 0.0, 0.0));
}

#[test]
fn move_enforces_min_gap_with_neighbor() {
    // 目标位置压进邻居 100px → 沿侵入最小的轴向（水平）推出，保持至少 gap
    let b = rect(400.0, 200.0, 200.0, 100.0);
    let neighbor = rect(500.0, 200.0, 200.0, 100.0);
    let out = settle_move(&b, &vec![neighbor], &screen(), gap());
    assert!(clearance_x(&out, &neighbor).0 >= gap().0);
    assert!(overlap_x(&out, &neighbor).0 == 0.0);
    assert_eq!(out.y, b.y); // 推出沿水平轴，y 不变
}

#[test]
fn move_untouched_when_already_separated() {
    let b = rect(100.0, 100.0, 200.0, 100.0);
    let neighbor = rect(500.0, 200.0, 200.0, 100.0); // 水平分开 200 > gap
    let out = settle_move(&b, &vec![neighbor], &screen(), gap());
    assert_eq!(out, b);
}

#[test]
fn move_clears_multiple_neighbors() {
    let g = gap();
    // 右下方两个长条把 r 夹住，任何单次推出都会撞到另一个 → 迭代后全部保持 gap
    let b = rect(400.0, 400.0, 100.0, 100.0);
    let n1 = rect(450.0, 300.0, 100.0, 250.0); // 右侧长条
    let n2 = rect(300.0, 450.0, 250.0, 100.0); // 下方长条
    let out = settle_move(&b, &vec![n1, n2], &screen(), g);
    assert!(gap_separated(&out, &n1, g));
    assert!(gap_separated(&out, &n2, g));
}

#[test]
fn move_no_longer_aligns_edges_without_gap_contact() {
    let b = rect(600.0, 110.0, 200.0, 100.0); // 上边比邻居低 10px
    let neighbor = rect(300.0, 100.0, 200.0, 100.0); // 水平分开 100 > gap
    let out = settle_move(&b, &vec![neighbor], &screen(), gap());
    assert_eq!(out, b);
}

#[test]
fn move_clamps_to_screen() {
    let b = rect(-50.0, -30.0, 200.0, 100.0);
    let out = settle_move(&b, &vec![], &screen(), gap());
    assert_eq!(out.x, px(0.0));
    assert_eq!(out.y, px(0.0));
}

#[test]
fn resize_right_edge_stops_at_gap_from_neighbor() {
    let g = gap();
    // 右缘想伸到 700，邻居在 500..700 → 右缘停在 500 - gap，左缘锚定
    let b = rect(300.0, 200.0, 400.0, 100.0);
    let neighbor = rect(500.0, 200.0, 200.0, 100.0);
    let out = settle_resize(&b, &vec![neighbor], &screen(), FreeSides::Right, px(80.0), px(60.0), g);
    assert_eq!(out.right(), px(500.0 - g.0));
    assert_eq!(out.x, px(300.0));
    assert!(overlap_x(&out, &neighbor).0 == 0.0);
}

#[test]
fn resize_left_edge_keeps_right_anchored() {
    let g = gap();
    // 左缘拖进邻居(200..300) 范围内 → 左缘停在 300 + gap，右缘锚定
    let b = rect(250.0, 200.0, 200.0, 100.0); // 右缘 = 450
    let neighbor = rect(200.0, 200.0, 100.0, 100.0);
    let out = settle_resize(&b, &vec![neighbor], &screen(), FreeSides::Left, px(80.0), px(60.0), g);
    assert_eq!(out.x, px(300.0 + g.0));
    assert_eq!(out.right(), px(450.0));
}

#[test]
fn resize_corner_stops_min_intrusion_edge_first() {
    let g = gap();
    // 布局 A：下缘侵入更小（212 < 412）→ 下缘先停到邻居上缘 - gap。
    let a = rect(300.0, 200.0, 500.0, 300.0); // right=800, bottom=500
    let oa = rect(400.0, 300.0, 500.0, 400.0); // 400..900, 300..700
    let out_a = settle_resize(&a, &vec![oa], &screen(), FreeSides::BottomRight, px(80.0), px(60.0), g);
    assert!(gap_separated(&out_a, &oa, g));
    assert_eq!(out_a.x, px(300.0));
    assert_eq!(out_a.y, px(200.0));
    assert_eq!(out_a.bottom(), px(300.0 - g.0)); // 下缘停在邻居上缘 - gap
    assert_eq!(out_a.right(), px(800.0)); // 夹完已隔开，右缘保持提案位置

    // 布局 B：右缘侵入更小（62 < 212）→ 右缘先停到邻居左缘 - gap。
    let b = rect(300.0, 200.0, 500.0, 300.0); // right=800, bottom=500
    let ob = rect(750.0, 300.0, 100.0, 200.0); // 750..850, 300..500
    let out_b = settle_resize(&b, &vec![ob], &screen(), FreeSides::BottomRight, px(80.0), px(60.0), g);
    assert!(gap_separated(&out_b, &ob, g));
    assert_eq!(out_b.x, px(300.0));
    assert_eq!(out_b.y, px(200.0));
    assert_eq!(out_b.right(), px(750.0 - g.0)); // 右缘停在邻居左缘 - gap
    assert_eq!(out_b.bottom(), px(500.0)); // 夹完已隔开，下缘保持提案位置
}

#[test]
fn resize_respects_min_size_and_screen() {
    let g = gap();
    // 缩到比最小还小 → 取最小尺寸
    let b = rect(100.0, 100.0, 30.0, 30.0);
    let out = settle_resize(&b, &vec![], &screen(), FreeSides::BottomRight, px(80.0), px(60.0), g);
    assert!(out.w.0 >= 80.0);
    assert!(out.h.0 >= 60.0);
    // 超屏幕底部/右侧 → 钳制
    let b2 = rect(1900.0, 1050.0, 400.0, 400.0);
    let out2 = settle_resize(&b2, &vec![], &screen(), FreeSides::BottomRight, px(80.0), px(60.0), g);
    assert!(out2.right().0 <= 1920.0);
    assert!(out2.bottom().0 <= 1080.0);
}

#[test]
fn free_sides_flags_are_consistent() {
    assert!(FreeSides::Move.left_free() && FreeSides::Move.right_free());
    assert!(FreeSides::Move.top_free() && FreeSides::Move.bottom_free());
    assert!(FreeSides::Right.right_free() && !FreeSides::Right.left_free());
    assert!(FreeSides::Left.left_free() && !FreeSides::Left.right_free());
    assert!(FreeSides::BottomLeft.left_free() && FreeSides::BottomLeft.bottom_free());
    assert!(!FreeSides::BottomLeft.top_free() && !FreeSides::BottomLeft.right_free());
}

#[test]
fn whole_pixels_settle_too() {
    let screen: Rect<i64> = Rect::new(0, 0, 1920, 1080);
    let o: Rect<i64> = Rect::new(500, 200, 200, 100);
    let r: Rect<i64> = Rect::new(400, 200, 200, 100);
    assert_eq!(settle_move(&r, &vec![o], &screen, FENCE_GAP), Rect::new(288, 200, 200, 100));
    let far: Rect<i64> = Rect::new(i64::MAX, 0, 10, 10);
    assert_eq!(settle_move(&far, &vec![], &screen, FENCE_GAP), Rect::new(1910, 0, 10, 10));
    let wide: Rect<i64> = Rect::new(300, 200, 400, 100);
    assert_eq!(
        settle_resize(&wide, &vec![o], &screen, FreeSides::Right, 80, 60, FENCE_GAP),
        Rect::new(300, 200, 188, 100)
    );
    // the top edge gives way downwards, the lower edge stays
    let tall: Rect<i64> = Rect::new(500, 250, 100, 300);
    assert_eq!(
        settle_resize(&tall, &vec![o], &screen, FreeSides::TopRight, 80, 60, FENCE_GAP),
        Rect::new(500, 312, 100, 238)
    );
}

#[test]
fn fence_on_top_of_another_is_pushed_past_it() {
    let screen: Rect<i64> = Rect::new(0, 0, 3000, 3000);
    let big: Rect<i64> = Rect::new(0, 0, 1000, 1000);
    let r: Rect<i64> = Rect::new(500, 500, 10, 10);
    assert_eq!(settle_move(&r, &vec![big], &screen, FENCE_GAP), Rect::new(1012, 500, 10, 10));
}

#[test]
fn fence_between_others_goes_to_the_nearest_free_place() {
    // pushes between the two outer ones end on one of them; below them there is room
    let screen: Rect<i64> = Rect::new(0, 0, 700, 400);
    let left: Rect<i64> = Rect::new(0, 0, 340, 150);
    let right: Rect<i64> = Rect::new(352, 0, 348, 150);
    let r: Rect<i64> = Rect::new(300, 10, 100, 100);
    let out = settle_move(&r, &vec![left, right], &screen, FENCE_GAP);
    assert_eq!((out.w, out.h), (100, 100));
    for o in [left, right] {
        assert!(gap_separated(&out, &o, FENCE_GAP));
    }
    assert!(out.x >= 0 && out.y >= 0 && out.x + out.w <= 700 && out.y + out.h <= 400);
    assert_eq!(out.y, 162);
}

#[test]
fn gap_yields_to_the_screen() {
    let screen: Rect<i64> = Rect::new(0, 0, 300, 1000);
    let o: Rect<i64> = Rect::new(100, 0, 100, 500);
    let r: Rect<i64> = Rect::new(0, 0, 95, 50);
    assert_eq!(settle_move(&r, &vec![o], &screen, FENCE_GAP), r);
    // the same between two others
    let left: Rect<i64> = Rect::new(0, 0, 100, 1000);
    let right: Rect<i64> = Rect::new(200, 0, 100, 1000);
    let out = settle_move(&Rect::new(102, 10, 96, 50), &vec![left, right], &screen, FENCE_GAP);
    assert_eq!((out.y, out.w, out.h), (10, 96, 50));
    assert!(100 <= out.x && out.x <= 104);
}

#[test]
fn fence_goes_where_it_fits_without_the_gap() {
    // below the two others there is just the height of the fence
    let screen: Rect<i64> = Rect::new(0, 0, 700, 250);
    let left: Rect<i64> = Rect::new(0, 0, 340, 150);
    let right: Rect<i64> = Rect::new(352, 0, 348, 150);
    let out = settle_move(&Rect::new(300, 10, 100, 100), &vec![left, right], &screen, FENCE_GAP);
    assert_eq!(out.y, 150);
    assert!(0 <= out.x && out.x + 100 <= 700);
}

#[test]
fn fence_too_wide_for_the_screen_ends_on_it_vertically() {
    let screen: Rect<i64> = Rect::new(10, 20, 300, 1000);
    let out = settle_move(&Rect::new(50, 2000, 400, 100), &vec![], &screen, FENCE_GAP);
    assert_eq!(out, Rect::new(10, 920, 400, 100));
}

#[test]
fn fence_stays_on_the_screen_where_there_is_no_room() {
    let screen: Rect<i64> = Rect::new(0, 0, 100, 100);
    let r: Rect<i64> = Rect::new(10, 10, 50, 50);
    let out = settle_move(&r, &vec![screen], &screen, FENCE_GAP);
    assert!(out.x >= 0 && out.y >= 0 && out.x + 50 <= 100 && out.y + 50 <= 100);
}

#[test]
fn resize_beyond_the_screen_keeps_the_far_edges() {
    let screen: Rect<i64> = Rect::new(0, 0, 1920, 1080);
    let left: Rect<i64> = Rect::new(-50, 100, 200, 100);
    assert_eq!(
        settle_resize(&left, &vec![], &screen, FreeSides::Left, 80, 60, FENCE_GAP),
        Rect::new(0, 100, 150, 100)
    );
    let top: Rect<i64> = Rect::new(100, -30, 200, 130);
    assert_eq!(
        settle_resize(&top, &vec![], &screen, FreeSides::TopRight, 80, 60, FENCE_GAP),
        Rect::new(100, 0, 200, 100)
    );
}

#[test]
fn resize_keeps_clear_of_many_fences() {
    // six neighbours, each further into the way than the one before
    let screen: Rect<i64> = Rect::new(0, 0, 1920, 1080);
    let others: Vec<Rect<i64>> = (0..6).map(|i| Rect::new(1000 - 100 * i, 20 * i, 300, 5)).collect();
    let r: Rect<i64> = Rect::new(100, 0, 1200, 200);
    let out = settle_resize(&r, &others, &screen, FreeSides::Right, 80, 60, FENCE_GAP);
    assert_eq!(out, Rect::new(100, 0, 388, 200));
    for o in &others {
        assert!(gap_separated(&out, o, FENCE_GAP));
    }
}

fn g() -> GridLayout<Px> {
    GridLayout { icon_size: px(48.0), gap: px(10.0), padding: px(10.0) }
}

#[test]
fn arrange_fills_left_to_right_top_to_bottom() {
    let area = rect(0.0, 0.0, 200.0, 200.0);
    // 内宽 = 180，列数 = floor((180+10)/58) = 3
    let pos = g().arrange(4, &area);
    assert_eq!(pos.len(), 4);
    // 第一行: x = 10 + 0*58 + 24 = 34 ; 第二行: y = 10 + 1*58 + 24 = 92
    assert_eq!(pos[0], Vec2 { x: px(34.0), y: px(34.0) });
    assert_eq!(pos[1], Vec2 { x: px(92.0), y: px(34.0) });
    assert_eq!(pos[2], Vec2 { x: px(150.0), y: px(34.0) });
    assert_eq!(pos[3], Vec2 { x: px(34.0), y: px(92.0) });
}

#[test]
fn cols_never_zero() {
    assert_eq!(g().cols_for_width(px(5.0)), 1);
    assert_eq!(g().cols_for_width(px(48.0)), 1);
}

#[test]
fn content_height_matches_rows() {
    assert_eq!(g().content_height(0, 3), px(0.0));
    assert_eq!(g().content_height(1, 3), px(48.0));
    assert_eq!(g().content_height(4, 3), px(48.0 * 2.0 + 10.0));
    assert_eq!(g().rows_for_count(7, 0), 7);
    let d: GridLayout<Px> = sylva::layout::default_grid();
    assert_eq!(d, GridLayout { icon_size: px(48.0), gap: px(10.0), padding: px(12.0) });
}

#[test]
fn ease_maps_endpoints() {
    assert_eq!(ease(px(0.0), Ease::Linear), px(0.0));
    assert_eq!(ease(px(1.0), Ease::Linear), px(1.0));
    assert_eq!(ease(px(0.0), Ease::CubicOut), px(0.0));
    assert_eq!(ease(px(1.0), Ease::CubicOut), px(1.0));
    assert_eq!(ease(px(0.0), Ease::BackOut), px(0.0));
    assert!((ease(px(1.0), Ease::BackOut).0 - 1.0).abs() < 1e-5);
    assert_eq!(ease(px(0.0), Ease::Spring), px(0.0));
    // 弹簧中段应有轻微过冲（>1），体现“丝滑回弹”
    assert!(ease(px(0.4), Ease::Spring).0 > 1.0);
    // 阻尼弹簧终值收敛到 1（允许小幅残差，视觉上已稳定）
    assert!((ease(px(1.0), Ease::Spring).0 - 1.0).abs() < 1e-2);
    assert_eq!(ease(px(0.25), Ease::QuadInOut), px(0.125));
    assert_eq!(ease(px(0.75), Ease::QuadInOut), px(0.875));
}

#[test]
fn tween_reaches_end() {
    let mut t = Tween::new(px(0.0), px(100.0), px(1.0));
    for _ in 0..10 {
        t.update(px(0.2));
    }
    assert!(t.done());
    assert!((t.value().0 - 100.0).abs() < f32::EPSILON);
}

#[test]
fn tween_zero_duration_immediately_done() {
    let mut t = Tween::new(px(5.0), px(10.0), px(0.0));
    assert_eq!(t.update(px(0.0)), px(10.0));
    assert!(t.done());
}

#[test]
fn vec2_tween_interpolates() {
    let mut t = Vec2Tween::new(Vec2 { x: px(0.0), y: px(0.0) }, Vec2 { x: px(10.0), y: px(20.0) }, px(1.0));
    assert_eq!(t.value(), Vec2 { x: px(0.0), y: px(0.0) });
    assert_eq!(t.update(px(2.0)), Vec2 { x: px(10.0), y: px(20.0) });
    assert!(t.done());
}

#[test]
fn finished_whole_number_tween_arrives() {
    let mut t: Tween<i64> = Tween::new(3, 12, 2).with_ease(Ease::Spring);
    assert_eq!(t.update(5), 12);
}
