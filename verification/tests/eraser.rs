use simple_paint::draw::action::Action;
use simple_paint::draw::canvas::Canvas;
use simple_paint::draw::history::History;
use simple_paint::draw::stroke::{Color, Segment, SingleStroke, StrokeStyle};
use simple_paint::geometry::{Point, Size};
use simple_paint::utils::cursor_to_segment_distance;

fn style() -> StrokeStyle {
    StrokeStyle { width: 3, color: Color { r: 10, g: 20, b: 30, a: 255 } }
}

fn seg(ax: i64, ay: i64, bx: i64, by: i64) -> Segment {
    Segment::new(Point::new(ax, ay), Point::new(bx, by))
}

fn stroke_of(points: Vec<Segment>) -> SingleStroke {
    SingleStroke { stroke: style(), points }
}

fn two_strokes() -> Canvas {
    let mut c = Canvas::new(Size::new(300, 300));
    c.strokes.push(stroke_of(vec![seg(0, 0, 10, 0), seg(10, 0, 10, 10), seg(10, 10, 20, 10)]));
    c.strokes.push(stroke_of(vec![seg(200, 200, 210, 200), seg(210, 200, 210, 210)]));
    c
}

#[test]
fn eraser_near_one_segment_of_the_first_stroke_replaces_that_stroke_only() {
    let mut c = two_strokes();
    let mut h = History::new();
    let actions = c.capture_erase(Some(Point::new(3, 2)), true, 5);
    assert_eq!(
        actions,
        vec![Action::ModifyStroke {
            before: Some(stroke_of(vec![
                seg(0, 0, 10, 0),
                seg(10, 0, 10, 10),
                seg(10, 10, 20, 10)
            ])),
            after: Some(stroke_of(vec![seg(10, 0, 10, 10), seg(10, 10, 20, 10)])),
            index: 0,
        }]
    );
    // The canvas is changed only when the history runs the actions.
    assert_eq!(c.strokes[0].points.len(), 3);
    h.run_all(actions, &mut c);
    assert_eq!(c.strokes[0], stroke_of(vec![seg(10, 0, 10, 10), seg(10, 10, 20, 10)]));
    assert_eq!(c.strokes[1], stroke_of(vec![seg(200, 200, 210, 200), seg(210, 200, 210, 210)]));
    assert_eq!(h.undo.len(), 1);
}

#[test]
fn eraser_without_drag_or_pointer_yields_nothing() {
    let c = two_strokes();
    assert!(c.capture_erase(Some(Point::new(3, 2)), false, 5).is_empty());
    assert!(c.capture_erase(None, true, 5).is_empty());
    assert!(c.capture_erase(None, false, 5).is_empty());
}

#[test]
fn eraser_away_from_all_ink_yields_nothing() {
    let c = two_strokes();
    assert!(c.capture_erase(Some(Point::new(100, 100)), true, 5).is_empty());
}

#[test]
fn eraser_takes_a_segment_exactly_at_the_radius() {
    let mut c = Canvas::new(Size::new(300, 300));
    c.strokes.push(stroke_of(vec![seg(0, 0, 10, 0)]));
    assert!(c.capture_erase(Some(Point::new(5, 6)), true, 5).is_empty());
    let actions = c.capture_erase(Some(Point::new(5, 5)), true, 5);
    assert_eq!(actions.len(), 1);
    assert_eq!(
        actions[0],
        Action::ModifyStroke {
            before: Some(stroke_of(vec![seg(0, 0, 10, 0)])),
            after: Some(stroke_of(vec![])),
            index: 0,
        }
    );
}

#[test]
fn eraser_over_several_strokes_yields_actions_in_stroke_order() {
    let mut c = Canvas::new(Size::new(300, 300));
    c.strokes.push(stroke_of(vec![seg(0, 0, 10, 0), seg(50, 50, 60, 50)]));
    c.strokes.push(stroke_of(vec![seg(100, 100, 110, 100)]));
    c.strokes.push(stroke_of(vec![seg(0, 2, 10, 2), seg(0, 4, 10, 4)]));
    c.strokes.push(stroke_of(vec![seg(5, 0, 5, 3)]));
    let mut h = History::new();
    let actions = c.capture_erase(Some(Point::new(5, 1)), true, 2);
    let indexes: Vec<usize> = actions
        .iter()
        .map(|a| match a {
            Action::ModifyStroke { index, .. } => *index,
            other => panic!("expected a replacement, got {:?}", other),
        })
        .collect();
    assert_eq!(indexes, vec![0, 2, 3]);
    h.run_all(actions, &mut c);
    assert_eq!(c.strokes.len(), 4);
    assert_eq!(c.strokes[0], stroke_of(vec![seg(50, 50, 60, 50)]));
    assert_eq!(c.strokes[1], stroke_of(vec![seg(100, 100, 110, 100)]));
    assert_eq!(c.strokes[2], stroke_of(vec![seg(0, 4, 10, 4)]));
    assert_eq!(c.strokes[3], stroke_of(vec![]));
    assert_eq!(h.undo.len(), 3);
}

#[test]
fn eraser_pass_leaves_only_segments_out_of_reach() {
    let mut c = Canvas::new(Size::new(300, 300));
    let mut all = Vec::new();
    for i in 0..40i64 {
        all.push(seg(i * 3, (i * 7) % 50, i * 3 + 5, (i * 11) % 50));
    }
    c.strokes.push(stroke_of(all[..20].to_vec()));
    c.strokes.push(stroke_of(all[20..].to_vec()));
    let before: Vec<Vec<Segment>> = c.strokes.iter().map(|s| s.points.clone()).collect();
    let eraser = Point::new(60, 25);
    let radius = 12;
    let mut h = History::new();
    let actions = c.capture_erase(Some(eraser), true, radius);
    h.run_all(actions, &mut c);
    for (stroke, old) in c.strokes.iter().zip(before.iter()) {
        for s in &stroke.points {
            assert!(cursor_to_segment_distance(eraser, s).exceeds(radius));
        }
        let kept: Vec<Segment> = old
            .iter()
            .filter(|s| cursor_to_segment_distance(eraser, s).exceeds(radius))
            .copied()
            .collect();
        assert_eq!(stroke.points, kept);
        assert!(kept.len() < old.len());
    }
}

#[test]
fn eraser_emptied_stroke_stays_in_the_list_and_is_not_reported_again() {
    let mut c = Canvas::new(Size::new(300, 300));
    c.strokes.push(stroke_of(vec![seg(0, 0, 10, 0)]));
    c.strokes.push(stroke_of(vec![seg(100, 0, 110, 0)]));
    let mut h = History::new();
    let actions = c.capture_erase(Some(Point::new(5, 0)), true, 1);
    h.run_all(actions, &mut c);
    assert_eq!(c.strokes.len(), 2);
    assert!(c.strokes[0].points.is_empty());
    assert!(c.capture_erase(Some(Point::new(5, 0)), true, 1).is_empty());
}

#[test]
fn eraser_steps_are_undone_one_by_one() {
    let mut c = Canvas::new(Size::new(300, 300));
    c.strokes.push(stroke_of(vec![seg(0, 0, 10, 0), seg(20, 0, 30, 0)]));
    let untouched = c.strokes.clone();
    let mut h = History::new();
    let first = c.capture_erase(Some(Point::new(5, 0)), true, 1);
    h.run_all(first, &mut c);
    let middle = c.strokes.clone();
    let second = c.capture_erase(Some(Point::new(25, 0)), true, 1);
    h.run_all(second, &mut c);
    assert!(c.strokes[0].points.is_empty());
    h.undo(&mut c);
    assert_eq!(c.strokes, middle);
    h.undo(&mut c);
    assert_eq!(c.strokes, untouched);
    h.redo(&mut c);
    assert_eq!(c.strokes, middle);
}

#[test]
fn segments_out_of_reach_keeps_order_and_style_is_kept_by_the_action() {
    let s = stroke_of(vec![seg(0, 0, 1, 0), seg(50, 0, 51, 0), seg(0, 1, 1, 1), seg(60, 0, 61, 0)]);
    assert_eq!(
        s.segments_out_of_reach(Point::new(0, 0), 5),
        vec![seg(50, 0, 51, 0), seg(60, 0, 61, 0)]
    );
    assert_eq!(s.segments_out_of_reach(Point::new(0, 0), 0).len(), 3);
    assert_eq!(s.segments_out_of_reach(Point::new(0, 0), 1000), vec![]);
}
