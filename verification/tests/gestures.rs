use tear::{
    index_of, Edge, Gesture, Handler, Percent, Point, TouchEvent, Trigger, DEFAULT_MIN_DISTANCE,
    MAX_TOUCHES,
};

fn p(value: f64) -> Percent {
    Percent::new(value.to_bits())
}

fn point(x: f64, y: f64) -> Point {
    Point { x: p(x), y: p(y) }
}

fn trigger(command: &str, edge: Edge, from: f64, to: f64) -> Trigger {
    Trigger { command: command.to_string(), edge, from: p(from), to: p(to) }
}

fn handler(table: Vec<Trigger>) -> Handler {
    Handler::new(table, DEFAULT_MIN_DISTANCE)
}

fn slots(h: &Handler) -> Vec<Option<Gesture>> {
    (0..MAX_TOUCHES).map(|slot| h.gesture_in(slot)).collect()
}

#[test]
fn new_handler_tracks_nothing() {
    let table = vec![trigger("X", Edge::Left, 40.0, 60.0)];
    let h = Handler::new(table.clone(), 1234);
    assert_eq!(slots(&h), vec![None; 10]);
    assert_eq!(h.trigger_table(), &table);
    assert_eq!(h.swipe_distance(), 1234);
    assert_eq!(MAX_TOUCHES, 10);
    assert_eq!(DEFAULT_MIN_DISTANCE, 4_000);
}

#[test]
fn short_gesture_near_left_edge_fires_nothing() {
    let mut h = handler(vec![trigger("X", Edge::Left, 0.0, 100.0)]);
    h.touch_down(0, p(0.5), p(50.0));
    h.touch_motion(0, p(0.3), p(50.0));
    assert_eq!(
        h.gesture_in(0),
        Some(Gesture {
            start: point(0.5, 50.0),
            position: point(0.3, 50.0),
            edge: Edge::Left,
        })
    );
    assert!(h.touch_up(0).is_empty());
    assert_eq!(h.gesture_in(0), None);
}

#[test]
fn swipe_from_left_edge_runs_command_once() {
    let mut h = handler(vec![trigger("X", Edge::Left, 40.0, 60.0)]);
    h.touch_down(0, p(0.0), p(50.0));
    h.touch_motion(0, p(30.0), p(50.0));
    assert_eq!(h.touch_up(0), vec!["X".to_string()]);
    assert_eq!(h.gesture_in(0), None);
    assert!(h.touch_up(0).is_empty());
}

#[test]
fn two_matching_triggers_both_run() {
    let mut h = handler(vec![
        trigger("one", Edge::Left, 40.0, 60.0),
        trigger("two", Edge::Left, 40.0, 60.0),
    ]);
    h.touch_down(0, p(0.0), p(50.0));
    h.touch_motion(0, p(30.0), p(50.0));
    assert_eq!(h.touch_up(0), vec!["one".to_string(), "two".to_string()]);
}

#[test]
fn release_without_motion_uses_the_landing_point() {
    let mut h = Handler::new(vec![trigger("X", Edge::Top, 0.0, 100.0)], 500);
    h.touch_down(2, p(50.0), p(0.9));
    assert_eq!(h.touch_up(2), vec!["X".to_string()]);
    let mut h = handler(vec![trigger("X", Edge::Top, 0.0, 100.0)]);
    h.touch_down(2, p(50.0), p(0.9));
    assert!(h.touch_up(2).is_empty());
}

#[test]
fn swipe_from_each_edge() {
    let table = vec![
        trigger("l", Edge::Left, 0.0, 100.0),
        trigger("t", Edge::Top, 0.0, 100.0),
        trigger("r", Edge::Right, 0.0, 100.0),
        trigger("b", Edge::Bottom, 0.0, 100.0),
    ];
    let mut h = handler(table);
    h.touch_down(0, p(0.1), p(50.0));
    h.touch_down(1, p(50.0), p(0.1));
    h.touch_down(2, p(99.9), p(50.0));
    h.touch_down(3, p(50.0), p(99.9));
    for slot in 0..4 {
        h.touch_motion(slot, p(50.0), p(50.0));
    }
    assert_eq!(h.touch_up(0), vec!["l".to_string()]);
    assert_eq!(h.touch_up(1), vec!["t".to_string()]);
    assert_eq!(h.touch_up(2), vec!["r".to_string()]);
    assert_eq!(h.touch_up(3), vec!["b".to_string()]);
}

#[test]
fn threshold_is_strict() {
    let table = vec![trigger("X", Edge::Right, 0.0, 100.0)];
    let mut h = handler(table);
    h.touch_down(0, p(99.5), p(10.0));
    h.touch_motion(0, p(96.0), p(10.0));
    assert!(h.touch_up(0).is_empty());
    h.touch_down(0, p(99.5), p(10.0));
    h.touch_motion(0, p(95.999), p(10.0));
    assert_eq!(h.touch_up(0), vec!["X".to_string()]);
}

#[test]
fn zone_bounds_at_release() {
    let mut h = handler(vec![trigger("X", Edge::Left, 10.0, 20.0)]);
    for (y, expected) in [(9.9999, 0), (10.0, 1), (19.9999, 1), (19.999999999999996, 1), (20.0, 0)] {
        h.touch_down(4, p(0.0), p(y));
        h.touch_motion(4, p(30.0), p(y));
        assert_eq!(h.touch_up(4).len(), expected);
    }
}

#[test]
fn slots_do_not_interfere() {
    let mut h = handler(vec![
        trigger("A", Edge::Left, 0.0, 100.0),
        trigger("B", Edge::Bottom, 0.0, 100.0),
    ]);
    h.touch_down(1, p(0.0), p(20.0));
    h.touch_down(7, p(60.0), p(100.0));
    h.touch_motion(1, p(50.0), p(20.0));
    let b_before = h.gesture_in(7);
    assert_eq!(
        b_before,
        Some(Gesture {
            start: point(60.0, 100.0),
            position: point(60.0, 100.0),
            edge: Edge::Bottom,
        })
    );
    assert_eq!(h.touch_up(1), vec!["A".to_string()]);
    assert_eq!(h.gesture_in(7), b_before);
    h.touch_motion(7, p(60.0), p(40.0));
    assert_eq!(h.gesture_in(1), None);
    assert_eq!(h.touch_up(7), vec!["B".to_string()]);
    assert_eq!(slots(&h), vec![None; 10]);
}

#[test]
fn order_of_events_for_different_slots_does_not_matter() {
    let table = vec![trigger("A", Edge::Left, 0.0, 100.0)];
    let mut one = handler(table.clone());
    one.touch_down(0, p(0.0), p(10.0));
    one.touch_down(5, p(20.0), p(0.0));
    one.touch_motion(0, p(9.0), p(11.0));
    one.touch_motion(5, p(21.0), p(30.0));
    let mut two = handler(table);
    two.touch_down(5, p(20.0), p(0.0));
    two.touch_motion(5, p(21.0), p(30.0));
    two.touch_down(0, p(0.0), p(10.0));
    two.touch_motion(0, p(9.0), p(11.0));
    assert_eq!(slots(&one), slots(&two));
    assert_eq!(one.touch_up(0), two.touch_up(0));
}

#[test]
fn slot_beyond_capacity_is_ignored() {
    let mut h = handler(vec![trigger("X", Edge::Left, 0.0, 100.0)]);
    h.touch_down(3, p(0.0), p(50.0));
    let before = slots(&h);
    for slot in [MAX_TOUCHES, MAX_TOUCHES + 1, 1_000, usize::MAX] {
        h.touch_down(slot, p(0.0), p(50.0));
        assert_eq!(h.gesture_in(slot), None);
        h.touch_motion(slot, p(50.0), p(50.0));
        assert_eq!(h.gesture_in(slot), None);
        assert!(h.touch_up(slot).is_empty());
        assert_eq!(slots(&h), before);
    }
}

#[test]
fn last_slot_is_tracked() {
    let mut h = handler(vec![trigger("X", Edge::Left, 0.0, 100.0)]);
    h.touch_down(MAX_TOUCHES - 1, p(0.0), p(50.0));
    h.touch_motion(MAX_TOUCHES - 1, p(50.0), p(50.0));
    assert_eq!(h.touch_up(MAX_TOUCHES - 1), vec!["X".to_string()]);
}

#[test]
fn release_of_a_free_slot_does_nothing() {
    let mut h = handler(vec![trigger("X", Edge::Left, 0.0, 100.0)]);
    assert!(h.touch_up(0).is_empty());
    h.touch_down(6, p(0.0), p(50.0));
    h.touch_motion(6, p(50.0), p(50.0));
    let before = slots(&h);
    assert!(h.touch_up(0).is_empty());
    assert_eq!(slots(&h), before);
    assert_eq!(h.touch_up(6).len(), 1);
    let after = slots(&h);
    assert!(h.touch_up(6).is_empty());
    assert!(h.touch_up(6).is_empty());
    assert_eq!(slots(&h), after);
}

#[test]
fn interior_touch_is_ignored_for_good() {
    let mut h = handler(vec![trigger("X", Edge::Left, 0.0, 100.0)]);
    h.touch_down(0, p(50.0), p(50.0));
    assert_eq!(h.gesture_in(0), None);
    h.touch_motion(0, p(0.0), p(50.0));
    assert_eq!(h.gesture_in(0), None);
    h.touch_motion(0, p(30.0), p(50.0));
    assert!(h.touch_up(0).is_empty());
    assert_eq!(slots(&h), vec![None; 10]);
}

#[test]
fn motion_moves_only_the_position() {
    let mut h = handler(Vec::new());
    h.touch_down(0, p(99.999), p(0.5));
    h.touch_motion(0, p(0.5), p(99.999));
    assert_eq!(
        h.gesture_in(0),
        Some(Gesture {
            start: point(99.999, 0.5),
            position: point(0.5, 99.999),
            edge: Edge::Top,
        })
    );
}

#[test]
fn second_landing_replaces_the_gesture() {
    let mut h = handler(Vec::new());
    h.touch_down(0, p(0.0), p(50.0));
    h.touch_motion(0, p(10.0), p(50.0));
    h.touch_down(0, p(50.0), p(0.0));
    assert_eq!(
        h.gesture_in(0),
        Some(Gesture {
            start: point(50.0, 0.0),
            position: point(50.0, 0.0),
            edge: Edge::Top,
        })
    );
    h.touch_down(0, p(50.0), p(50.0));
    assert_eq!(h.gesture_in(0).map(|g| g.edge), Some(Edge::Top));
}

#[test]
fn events_without_slot_go_to_slot_zero() {
    assert_eq!(index_of(None), 0);
    assert_eq!(index_of(Some(0)), 0);
    assert_eq!(index_of(Some(9)), 9);
    assert_eq!(index_of(Some(4_000_000_000)), 4_000_000_000);
    let mut h = handler(vec![trigger("X", Edge::Left, 40.0, 60.0)]);
    assert!(h.handle(TouchEvent::Down { slot: None, x: p(0.0), y: p(50.0) }).is_empty());
    assert!(h.gesture_in(0).is_some());
    assert!(h.handle(TouchEvent::Motion { slot: Some(0), x: p(30.0), y: p(50.0) }).is_empty());
    assert_eq!(h.handle(TouchEvent::Up { slot: None }), vec!["X".to_string()]);
    assert_eq!(h.gesture_in(0), None);
}

#[test]
fn handle_agrees_with_the_three_transitions() {
    let table = vec![trigger("X", Edge::Bottom, 0.0, 50.0)];
    let mut by_event = handler(table.clone());
    let mut by_call = handler(table);
    by_event.handle(TouchEvent::Down { slot: Some(3), x: p(20.0), y: p(99.5) });
    by_call.touch_down(3, p(20.0), p(99.5));
    by_event.handle(TouchEvent::Down { slot: Some(12), x: p(20.0), y: p(99.5) });
    by_call.touch_down(12, p(20.0), p(99.5));
    by_event.handle(TouchEvent::Motion { slot: Some(3), x: p(25.0), y: p(60.0) });
    by_call.touch_motion(3, p(25.0), p(60.0));
    assert_eq!(slots(&by_event), slots(&by_call));
    assert_eq!(by_event.handle(TouchEvent::Up { slot: Some(3) }), by_call.touch_up(3));
    assert_eq!(slots(&by_event), slots(&by_call));
}


#[test]
fn smallest_excess_over_the_minimum_fires() {
    let mut h = handler(vec![trigger("X", Edge::Left, 40.0, 60.0)]);
    h.touch_down(0, p(0.0), p(50.0));
    h.touch_motion(0, p(4.0001), p(50.0));
    assert_eq!(h.touch_up(0), vec!["X".to_string()]);
    assert_eq!(h.gesture_in(0), None);
    h.touch_down(0, p(0.0), p(50.0));
    h.touch_motion(0, p(4.000000000000001), p(50.0));
    assert_eq!(h.touch_up(0), vec!["X".to_string()]);
    h.touch_down(0, p(0.0), p(50.0));
    h.touch_motion(0, p(4.0), p(50.0));
    assert!(h.touch_up(0).is_empty());
}

#[test]
fn landing_just_inside_the_right_band_starts_a_gesture() {
    let mut h = handler(vec![trigger("X", Edge::Right, 0.0, 100.0)]);
    h.touch_down(0, p(99.0005), p(50.0));
    assert_eq!(h.gesture_in(0).map(|g| g.edge), Some(Edge::Right));
    h.touch_motion(0, p(50.0), p(50.0));
    assert_eq!(h.touch_up(0), vec!["X".to_string()]);
    h.touch_down(0, p(99.0), p(50.0));
    assert_eq!(h.gesture_in(0), None);
}

#[test]
fn positions_that_are_no_numbers_fire_nothing() {
    let mut h = handler(vec![trigger("X", Edge::Left, f64::NEG_INFINITY, f64::INFINITY)]);
    h.touch_down(0, p(0.0), p(50.0));
    h.touch_motion(0, p(f64::NAN), p(50.0));
    assert!(h.touch_up(0).is_empty());
    h.touch_down(0, p(0.0), p(50.0));
    h.touch_motion(0, p(30.0), p(f64::NAN));
    assert!(h.touch_up(0).is_empty());
    h.touch_down(0, p(f64::NAN), p(f64::NAN));
    assert_eq!(h.gesture_in(0), None);
    h.touch_down(0, p(0.0), p(50.0));
    h.touch_motion(0, p(f64::INFINITY), p(50.0));
    assert_eq!(h.touch_up(0), vec!["X".to_string()]);
}
