use simple_paint::app::SimplePaintApp;
use simple_paint::draw::canvas::build_viewport;
use simple_paint::geometry::{Point, Rect, Size};
use simple_paint::modals::{initial_modal, InitialModal, ModalEvent};

#[test]
fn modal_starts_shown_and_empty() {
    let m = InitialModal::default();
    assert!(m.active);
    assert_eq!(m.width, "");
    assert_eq!(m.height, "");
}

#[test]
fn modal_create_starts_over_on_a_canvas_of_the_extent_asked_for() {
    let mut app = SimplePaintApp::new();
    app.draw(Some(Point::new(0, 0)), true, false);
    app.draw(Some(Point::new(1, 1)), true, false);
    app.draw(Some(Point::new(1, 1)), false, true);
    assert_eq!(app.drawing.canvas().strokes.len(), 1);
    assert_eq!(app.drawing.history().undo.len(), 1);
    app.initial_modal.width = "12.5".to_string();
    app.initial_modal.height = "10".to_string();
    // 12.5 by 10 points, in canvas units.
    initial_modal(&mut app, ModalEvent::Create { size: Some(Size::new(800, 640)) });
    assert!(!app.initial_modal.active);
    assert_eq!(app.initial_modal.width, "12.5");
    assert_eq!(app.initial_modal.height, "10");
    assert_eq!(
        app.drawing.canvas().canvas_area,
        Rect::from_min_max(Point::new(0, 0), Point::new(800, 640))
    );
    assert_eq!(app.drawing.canvas().canvas_viewport, build_viewport(Size::new(800, 640), 850));
    assert_eq!(app.drawing.canvas().zoom, 850);
    assert!(app.drawing.canvas().strokes.is_empty());
    assert!(app.drawing.canvas().segments.is_empty());
    assert!(app.drawing.history().undo.is_empty());
    assert!(app.drawing.history().redo.is_empty());
}

#[test]
fn modal_create_of_an_empty_sheet() {
    let mut app = SimplePaintApp::new();
    initial_modal(&mut app, ModalEvent::Create { size: Some(Size::new(0, 0)) });
    assert!(!app.initial_modal.active);
    assert_eq!(
        app.drawing.canvas().canvas_area,
        Rect::from_min_max(Point::new(0, 0), Point::new(0, 0))
    );
}

#[test]
fn modal_create_without_an_extent_clears_the_fields_and_stays() {
    let mut app = SimplePaintApp::new();
    app.draw(Some(Point::new(0, 0)), true, false);
    app.draw(Some(Point::new(1, 1)), true, false);
    app.draw(Some(Point::new(1, 1)), false, true);
    let area = app.drawing.canvas().canvas_area;
    app.initial_modal.width = "100".to_string();
    app.initial_modal.height = "fifty".to_string();
    initial_modal(&mut app, ModalEvent::Create { size: None });
    assert!(app.initial_modal.active);
    assert_eq!(app.initial_modal.width, "");
    assert_eq!(app.initial_modal.height, "");
    assert_eq!(app.drawing.canvas().canvas_area, area);
    assert_eq!(app.drawing.canvas().strokes.len(), 1);
    assert_eq!(app.drawing.history().undo.len(), 1);
}

#[test]
fn modal_create_without_an_extent_leaves_a_closed_dialog_closed() {
    let mut app = SimplePaintApp::new();
    initial_modal(&mut app, ModalEvent::KeepDefault);
    app.initial_modal.width = "x".to_string();
    initial_modal(&mut app, ModalEvent::Create { size: None });
    assert!(!app.initial_modal.active);
    assert_eq!(app.initial_modal.width, "");
}

#[test]
fn modal_keep_default_closes_the_dialog() {
    let mut app = SimplePaintApp::new();
    let area = app.drawing.canvas().canvas_area;
    app.initial_modal.width = "12".to_string();
    initial_modal(&mut app, ModalEvent::KeepDefault);
    assert!(!app.initial_modal.active);
    assert_eq!(app.initial_modal.width, "12");
    assert_eq!(app.initial_modal.height, "");
    assert_eq!(app.drawing.canvas().canvas_area, area);
}
