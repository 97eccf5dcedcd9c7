use monotonic_scheduler::layout::{
    greeting_start, header_baseline, measure_text, place_header, wander, Position,
    TextBounds, MAX_COORDINATE, MAX_TEXT_BYTES,
};

#[test]
fn map_scales_between_ranges() {
    assert_eq!(monotonic_scheduler::layout::map(0, 0, 255, 0, 88), 0);
    assert_eq!(monotonic_scheduler::layout::map(255, 0, 255, 0, 88), 88);
    assert_eq!(monotonic_scheduler::layout::map(128, 0, 255, 0, 88), 44);
    assert_eq!(monotonic_scheduler::layout::map(1, 0, 255, 0, 88), 0);
    assert_eq!(monotonic_scheduler::layout::map(3, 0, 255, 0, 88), 1);
    assert_eq!(monotonic_scheduler::layout::map(5, 0, 10, 100, 200), 150);
    assert_eq!(monotonic_scheduler::layout::map(15, 10, 20, 0, 100), 50);
}

#[test]
fn map_rounds_towards_zero() {
    assert_eq!(monotonic_scheduler::layout::map(100, 0, 255, 10, 0), 7);
    assert_eq!(monotonic_scheduler::layout::map(255, 0, 255, 10, 0), 0);
    assert_eq!(monotonic_scheduler::layout::map(0, 0, 255, 10, 0), 10);
    assert_eq!(monotonic_scheduler::layout::map(-1, 0, 3, 0, 1), 0);
    assert_eq!(monotonic_scheduler::layout::map(-4, 0, 3, 0, 1), -1);
    assert_eq!(monotonic_scheduler::layout::map(7, 0, -2, 0, 1), -3);
    assert_eq!(monotonic_scheduler::layout::map(-7, 0, -2, 0, 1), 3);
    assert_eq!(monotonic_scheduler::layout::map(20, 10, 0, 0, 5), -5);
}

#[test]
fn wander_stays_on_the_display() {
    assert_eq!(wander(0, 0, 128, 64), Position { x: 0, y: 10 });
    assert_eq!(wander(255, 255, 128, 64), Position { x: 88, y: 63 });
    assert_eq!(wander(128, 128, 128, 64), Position { x: 44, y: 36 });
    assert_eq!(wander(200, 17, 128, 64), Position { x: 69, y: 13 });
    assert_eq!(wander(255, 255, 40, 1), Position { x: 0, y: 0 });
    assert_eq!(wander(100, 100, 40, 1), Position { x: 0, y: 7 });
    assert_eq!(wander(255, 255, 255, 255), Position { x: 215, y: 254 });
}

#[test]
fn greeting_starts_at_the_bottom_left() {
    assert_eq!(greeting_start(64), Position { x: 1, y: 63 });
    assert_eq!(greeting_start(1), Position { x: 1, y: 0 });
    assert_eq!(greeting_start(255), Position { x: 1, y: 254 });
}

#[test]
fn header_baseline_adds_the_margin() {
    assert_eq!(header_baseline(9), 12);
    assert_eq!(header_baseline(0), 3);
    assert_eq!(header_baseline(0x7fff_fffc), i32::MAX);
}

#[test]
fn measure_text_gives_the_rendered_rectangle() {
    assert_eq!(
        measure_text("RTIC testing", 3, 0),
        Some(TextBounds { left: 3, top: -6, width: 72, height: 9 })
    );
    assert_eq!(
        measure_text("hello, rust!", 1, 63),
        Some(TextBounds { left: 1, top: 57, width: 72, height: 9 })
    );
    assert_eq!(
        measure_text("ab\ncdef", 0, 10),
        Some(TextBounds { left: 0, top: 4, width: 24, height: 18 })
    );
    assert_eq!(measure_text("", 5, 5), Some(TextBounds { left: 5, top: 5, width: 0, height: 0 }));
}

#[test]
fn measure_text_refuses_what_is_out_of_range() {
    assert_eq!(measure_text("a", MAX_COORDINATE + 1, 0), None);
    assert_eq!(measure_text("a", 0, -MAX_COORDINATE - 1), None);
    assert!(measure_text("a", MAX_COORDINATE, -MAX_COORDINATE).is_some());
    let long = "x".repeat(MAX_TEXT_BYTES + 1);
    assert_eq!(measure_text(&long, 0, 0), None);
    assert_eq!(place_header(&long), None);
}

#[test]
fn header_is_moved_down_by_its_height() {
    assert_eq!(place_header("RTIC testing"), Some(Position { x: 3, y: 12 }));
    assert_eq!(place_header("one\ntwo"), Some(Position { x: 3, y: 21 }));
    assert_eq!(place_header(""), Some(Position { x: 3, y: 3 }));
}
