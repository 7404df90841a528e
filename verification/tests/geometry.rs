use simple_paint::draw::canvas::{
    build_viewport, Canvas, INITIAL_ZOOM, MAX_ZOOM, MIN_ZOOM, VIEW_GRAIN,
};
use simple_paint::draw::stroke::Segment;
use simple_paint::geometry::{Point, Rect, Size, COORD_MAX};
use simple_paint::utils::{cursor_to_segment_distance, Distance};

fn seg(ax: i64, ay: i64, bx: i64, by: i64) -> Segment {
    Segment::new(Point::new(ax, ay), Point::new(bx, by))
}

#[test]
fn distance_beside_the_segment_is_the_perpendicular() {
    let d = cursor_to_segment_distance(Point::new(5, 3), &seg(0, 0, 10, 0));
    assert_eq!(d, Distance { num: 900, den: 100 });
}

#[test]
fn distance_before_the_start_is_to_the_start() {
    let d = cursor_to_segment_distance(Point::new(-3, 4), &seg(0, 0, 10, 0));
    assert_eq!(d, Distance { num: 25, den: 1 });
}

#[test]
fn distance_at_the_foot_of_the_start_is_to_the_start() {
    let d = cursor_to_segment_distance(Point::new(0, 5), &seg(0, 0, 10, 0));
    assert_eq!(d, Distance { num: 25, den: 1 });
}

#[test]
fn distance_past_the_end_is_to_the_end() {
    let d = cursor_to_segment_distance(Point::new(13, -4), &seg(0, 0, 10, 0));
    assert_eq!(d, Distance { num: 25, den: 1 });
}

#[test]
fn distance_on_the_segment_is_zero() {
    let d = cursor_to_segment_distance(Point::new(4, 4), &seg(0, 0, 10, 10));
    assert_eq!(d.num, 0);
    assert!(d.den > 0);
    assert!(!d.exceeds(0));
}

#[test]
fn distance_to_a_slanted_segment() {
    // The foot of (0, 10) on the line through (0, 0) and (10, 10) is (5, 5):
    // squared distance 50, held as 10000 / 200.
    let d = cursor_to_segment_distance(Point::new(0, 10), &seg(0, 0, 10, 10));
    assert_eq!(d, Distance { num: 10_000, den: 200 });
    assert!(d.exceeds(7));
    assert!(!d.exceeds(8));
}

#[test]
fn distance_to_a_degenerate_segment_is_to_its_point() {
    let d = cursor_to_segment_distance(Point::new(0, 0), &seg(3, 4, 3, 4));
    assert_eq!(d, Distance { num: 25, den: 1 });
    let at = cursor_to_segment_distance(Point::new(3, 4), &seg(3, 4, 3, 4));
    assert_eq!(at, Distance { num: 0, den: 1 });
}

#[test]
fn distance_does_not_depend_on_direction() {
    let p = Point::new(7, -2);
    let forth = cursor_to_segment_distance(p, &seg(1, 1, 9, 5));
    let back = cursor_to_segment_distance(p, &seg(9, 5, 1, 1));
    assert_eq!(forth.num * back.den, back.num * forth.den);
}

#[test]
fn distance_is_the_least_over_sampled_points() {
    let s = seg(-7, 3, 12, -9);
    let points = [Point::new(0, 0), Point::new(-20, 5), Point::new(30, -30), Point::new(3, 11)];
    let m: i128 = 1000;
    for p in points {
        let d = cursor_to_segment_distance(p, &s);
        let mut least: Option<i128> = None;
        for k in 0..=m {
            let dx = m * (p.x - s.a.x) as i128 - k * (s.b.x - s.a.x) as i128;
            let dy = m * (p.y - s.a.y) as i128 - k * (s.b.y - s.a.y) as i128;
            let here = dx * dx + dy * dy;
            assert!(d.num as i128 * m * m <= d.den as i128 * here);
            least = Some(match least {
                Some(l) if l < here => l,
                _ => here,
            });
        }
        // The sample nearest to the closest point is off by at most half
        // a step along the segment.
        let least = least.unwrap();
        let vx = (s.b.x - s.a.x) as i128;
        let vy = (s.b.y - s.a.y) as i128;
        let len_sq = vx * vx + vy * vy;
        assert!(d.den as i128 * least <= d.num as i128 * m * m + d.den as i128 * len_sq);
    }
}

#[test]
fn distance_at_the_edge_of_the_range() {
    let m = COORD_MAX;
    let d = cursor_to_segment_distance(Point::new(m, -m), &seg(-m, -m, m, m));
    assert_eq!(d, Distance { num: 1u128 << 124, den: 1u128 << 63 });
    assert!(d.exceeds(1 << 30));
    assert!(!d.exceeds(u32::MAX));
    let far = cursor_to_segment_distance(Point::new(m, m), &seg(-m, -m, -m, -m));
    assert_eq!(far, Distance { num: 1u128 << 63, den: 1 });
}

#[test]
fn exceeds_is_strict() {
    let d = cursor_to_segment_distance(Point::new(5, 3), &seg(0, 0, 10, 0));
    assert!(d.exceeds(2));
    assert!(!d.exceeds(3));
    assert!(!d.exceeds(4));
}

#[test]
fn exceeds_with_the_largest_radius() {
    let d = Distance { num: u128::MAX, den: u128::MAX };
    assert!(!d.exceeds(u32::MAX));
    assert!(d.exceeds(0));
}

#[test]
fn point_range_check() {
    assert!(Point::new(0, 0).is_in_range());
    assert!(Point::new(COORD_MAX, -COORD_MAX).is_in_range());
    assert!(!Point::new(COORD_MAX + 1, 0).is_in_range());
    assert!(!Point::new(0, -COORD_MAX - 1).is_in_range());
}

const G: i64 = VIEW_GRAIN as i64;

fn view(min_x: i64, min_y: i64, max_x: i64, max_y: i64) -> Rect {
    Rect::from_min_max(Point::new(min_x, min_y), Point::new(max_x, max_y))
}

#[test]
fn viewport_grid_is_finer_than_the_canvas() {
    assert_eq!(VIEW_GRAIN, 1 << 20);
    assert_eq!(MIN_ZOOM, 10);
    assert_eq!(MAX_ZOOM, 10_000);
}

#[test]
fn viewport_at_unit_zoom_is_the_sheet() {
    let r = build_viewport(Size::new(100, 60), 1000);
    assert_eq!(r, view(0, 0, 100 * G, 60 * G));
}

#[test]
fn viewport_zoomed_in_is_smaller_and_centred() {
    let r = build_viewport(Size::new(100, 60), 2000);
    assert_eq!(r, view(25 * G, 15 * G, 75 * G, 45 * G));
}

#[test]
fn viewport_zoomed_out_is_larger_and_centred() {
    let r = build_viewport(Size::new(100, 60), 500);
    assert_eq!(r, view(-50 * G, -30 * G, 150 * G, 90 * G));
}

#[test]
fn viewport_at_initial_zoom_rounds_down_on_its_own_grid() {
    let r = build_viewport(Size::new(100, 100), 850);
    assert_eq!(r, view(-9_252_141, -9_252_141, 114_109_741, 114_109_741));
}

#[test]
fn viewport_of_a_sheet_of_one_unit_has_a_width_at_every_zoom() {
    for zoom in [1u64, 10, 850, 3000, 7000, 9999, 10_000] {
        let r = build_viewport(Size::new(1, 1), zoom);
        assert_eq!((r.max.x - r.min.x) as u64, VIEW_GRAIN * 1000 / zoom);
        assert!(r.max.x - r.min.x >= 2 * zoom as i64);
    }
}

#[test]
fn viewport_of_the_widest_sheet_at_the_least_zoom() {
    let r = build_viewport(Size::new(u32::MAX, 0), 1);
    assert_eq!(r.max.x - r.min.x, u32::MAX as i64 * G * 1000);
    assert_eq!(r.min.y, 0);
    assert_eq!(r.max.y, 0);
}

#[test]
fn new_canvas_is_empty_and_seen_at_initial_zoom() {
    let c = Canvas::new(Size::new(100, 100));
    assert_eq!(c.canvas_area, Rect::from_min_max(Point::new(0, 0), Point::new(100, 100)));
    assert_eq!(c.canvas_viewport, build_viewport(Size::new(100, 100), INITIAL_ZOOM));
    assert_eq!(c.zoom, 850);
    assert!(c.strokes.is_empty());
    assert!(c.segments.is_empty());
    assert_eq!(c.last_cursor_pos, None);
}

#[test]
fn new_canvas_has_its_zoom_in_line_from_the_start() {
    for width in [1u32, 2, 64, 100, 723, 6400, 122_880, u32::MAX] {
        let mut c = Canvas::new(Size::new(width, 7));
        assert_eq!(c.zoom, 850);
        c.update_zoom();
        assert_eq!(c.zoom, 850);
    }
}

#[test]
fn update_zoom_is_the_ratio_of_widths_to_the_nearest_thousandth() {
    let mut c = Canvas::new(Size::new(100, 100));
    c.canvas_viewport = view(10 * G, 10 * G, 60 * G, 35 * G);
    c.update_zoom();
    assert_eq!(c.zoom, 2000);
    // 100 / 300 is 333.33 thousandths, 200 / 300 is 666.67.
    c.canvas_viewport = view(-100 * G, 0, 200 * G, 1);
    c.update_zoom();
    assert_eq!(c.zoom, 333);
    c.canvas_area = Rect::from_min_max(Point::new(0, 0), Point::new(200, 100));
    c.update_zoom();
    assert_eq!(c.zoom, 667);
    // On a sheet of one unit: 0.625 thousandths go up to 1, and 2.5
    // thousandths, a half, go up to 3.
    c.canvas_area = Rect::from_min_max(Point::new(0, 0), Point::new(1, 100));
    c.canvas_viewport = view(0, 0, 1600 * G, 1);
    c.update_zoom();
    assert_eq!(c.zoom, 1);
    c.canvas_viewport = view(0, 0, 400 * G, 1);
    c.update_zoom();
    assert_eq!(c.zoom, 3);
    c.canvas_viewport = view(0, 0, 401 * G, 1);
    c.update_zoom();
    assert_eq!(c.zoom, 2);
}

#[test]
fn update_zoom_leaves_the_rest_of_the_canvas_alone() {
    let mut c = Canvas::new(Size::new(100, 100));
    c.segments.push(Segment::new(Point::new(0, 0), Point::new(1, 1)));
    c.last_cursor_pos = Some(Point::new(1, 1));
    c.canvas_viewport = view(0, 5, 50 * G, 6);
    c.zoom = 1;
    c.update_zoom();
    assert_eq!(c.zoom, 2000);
    assert_eq!(c.canvas_viewport, view(0, 5, 50 * G, 6));
    assert_eq!(c.canvas_area, Rect::from_min_max(Point::new(0, 0), Point::new(100, 100)));
    assert_eq!(c.segments.len(), 1);
    assert_eq!(c.last_cursor_pos, Some(Point::new(1, 1)));
}

#[test]
fn update_zoom_never_gives_zero() {
    let mut c = Canvas::new(Size::new(1, 1));
    c.canvas_viewport = view(0, 0, 2000 * G, 1);
    c.update_zoom();
    assert_eq!(c.zoom, 1);
    c.canvas_viewport = view(i64::MIN, 0, i64::MAX, 1);
    c.update_zoom();
    assert_eq!(c.zoom, 1);
}

#[test]
fn update_zoom_with_the_narrowest_viewport() {
    let mut c = Canvas::new(Size::new(u32::MAX, 1));
    c.canvas_viewport = view(0, 0, 1, 1);
    c.update_zoom();
    assert_eq!(c.zoom, u32::MAX as u64 * VIEW_GRAIN * 1000);
}

#[test]
fn update_zoom_recovers_the_zoom_of_a_built_viewport() {
    let zooms = [1u64, 10, 17, 333, 850, 1000, 3000, 3333, 7000, 9999, 10_000];
    for width in [1u32, 2, 3, 64, 100, 6400, 122_880, 1 << 30, u32::MAX] {
        for zoom in zooms {
            let size = Size::new(width, 69_120);
            let mut c = Canvas::new(size);
            c.canvas_viewport = build_viewport(size, zoom);
            c.update_zoom();
            assert_eq!(c.zoom, zoom, "sheet {width} at zoom {zoom}");
        }
    }
}

#[test]
fn update_zoom_recovers_every_zoom_of_the_controls_on_a_sheet_of_one_unit() {
    let size = Size::new(1, 1);
    let mut c = Canvas::new(size);
    for zoom in MIN_ZOOM..=MAX_ZOOM {
        c.canvas_viewport = build_viewport(size, zoom);
        c.update_zoom();
        assert_eq!(c.zoom, zoom);
    }
}

#[test]
fn rect_size_of_an_area() {
    let c = Canvas::new(Size::new(7, 9));
    assert_eq!(c.canvas_area.size(), Size::new(7, 9));
}
