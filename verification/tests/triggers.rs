use tear::{
    load_triggers, matching_commands, Edge, Field, Gesture, LoadError, Percent, Point, Trigger,
    TriggerError, TriggerRecord,
};

fn p(value: f64) -> Percent {
    Percent::new(value.to_bits())
}

fn down(value: f64) -> f64 {
    f64::from_bits(value.to_bits() - 1)
}

fn trigger(command: &str, edge: Edge, from: f64, to: f64) -> Trigger {
    Trigger { command: command.to_string(), edge, from: p(from), to: p(to) }
}

fn record(command: &str, edge: &str, from: f64, to: f64) -> TriggerRecord {
    TriggerRecord {
        command: Field::Value(command.to_string()),
        edge: Field::Value(edge.to_string()),
        from: Field::Value(p(from)),
        to: Field::Value(p(to)),
    }
}

#[test]
fn zone_includes_from_and_excludes_to() {
    let t = trigger("X", Edge::Left, 10.0, 20.0);
    assert!(!t.matches(Edge::Left, p(9.999)));
    assert!(!t.matches(Edge::Left, p(down(10.0))));
    assert!(t.matches(Edge::Left, p(10.0)));
    assert!(t.matches(Edge::Left, p(15.0)));
    assert!(t.matches(Edge::Left, p(19.999)));
    assert!(t.matches(Edge::Left, p(down(20.0))));
    assert!(!t.matches(Edge::Left, p(20.0)));
    assert!(!t.matches(Edge::Left, p(20.001)));
}

#[test]
fn zone_bounds_are_compared_as_written() {
    let t = trigger("X", Edge::Left, 10.0004, 10.0008);
    assert!(!t.matches(Edge::Left, p(10.0002)));
    assert!(!t.matches(Edge::Left, p(down(10.0004))));
    assert!(t.matches(Edge::Left, p(10.0004)));
    assert!(t.matches(Edge::Left, p(10.0006)));
    assert!(!t.matches(Edge::Left, p(10.0008)));
}

#[test]
fn zone_agrees_with_the_doubles() {
    let values = [f64::NEG_INFINITY, -1.0, -0.0, 0.0, 0.3, 10.0, 10.0004, 15.0, down(20.0), 20.0, 1e10, f64::INFINITY, f64::NAN];
    for from in values {
        for to in values {
            for position in values {
                assert_eq!(
                    trigger("X", Edge::Top, from, to).matches(Edge::Top, p(position)),
                    from <= position && position < to,
                    "{:?} in {:?}..{:?}",
                    position,
                    from,
                    to
                );
            }
        }
    }
}

#[test]
fn zone_applies_to_its_edge_only() {
    let t = trigger("X", Edge::Top, 10.0, 20.0);
    assert!(t.matches(Edge::Top, p(15.0)));
    assert!(!t.matches(Edge::Left, p(15.0)));
    assert!(!t.matches(Edge::Right, p(15.0)));
    assert!(!t.matches(Edge::Bottom, p(15.0)));
}

#[test]
fn empty_or_reversed_zone_never_matches() {
    let empty = trigger("X", Edge::Left, 10.0, 10.0);
    let reversed = trigger("X", Edge::Left, 20.0, 10.0);
    let open = trigger("X", Edge::Left, f64::NAN, 10.0);
    let unbounded = trigger("X", Edge::Left, 10.0, f64::NAN);
    for position in [f64::NEG_INFINITY, 0.0, 9.999, 10.0, 10.001, 15.0, 19.999, 20.0, f64::INFINITY, f64::NAN] {
        assert!(!empty.matches(Edge::Left, p(position)));
        assert!(!reversed.matches(Edge::Left, p(position)));
        assert!(!open.matches(Edge::Left, p(position)));
        assert!(!unbounded.matches(Edge::Left, p(position)));
    }
}

#[test]
fn zone_without_end() {
    let t = trigger("X", Edge::Left, 50.0, f64::INFINITY);
    assert!(t.matches(Edge::Left, p(50.0)));
    assert!(t.matches(Edge::Left, p(1e300)));
    assert!(!t.matches(Edge::Left, p(f64::INFINITY)));
    assert!(!t.matches(Edge::Left, p(49.0)));
}

#[test]
fn record_becomes_trigger() {
    assert_eq!(
        Trigger::from_record(&record("notify-send hi", "bottom", 0.0, 100.0)),
        Ok(trigger("notify-send hi", Edge::Bottom, 0.0, 100.0))
    );
    assert_eq!(
        Trigger::from_record(&record("", "left", 0.05, -0.05)),
        Ok(trigger("", Edge::Left, 0.05, -0.05))
    );
    assert_eq!(
        Trigger::from_record(&record("X", "top", f64::NEG_INFINITY, 1e10)),
        Ok(trigger("X", Edge::Top, f64::NEG_INFINITY, 1e10))
    );
}

#[test]
fn record_without_command() {
    let mut r = record("X", "left", 0.0, 1.0);
    r.command = Field::Missing;
    assert_eq!(Trigger::from_record(&r), Err(TriggerError::NoCommand));
}

#[test]
fn record_with_invalid_command() {
    let mut r = record("X", "left", 0.0, 1.0);
    r.command = Field::Invalid;
    assert_eq!(Trigger::from_record(&r), Err(TriggerError::InvalidCommand));
}

#[test]
fn record_without_edge() {
    let mut r = record("X", "left", 0.0, 1.0);
    r.edge = Field::Missing;
    assert_eq!(Trigger::from_record(&r), Err(TriggerError::NoEdge));
}

#[test]
fn record_with_invalid_edge() {
    let mut r = record("X", "left", 0.0, 1.0);
    r.edge = Field::Invalid;
    assert_eq!(Trigger::from_record(&r), Err(TriggerError::InvalidEdge));
    assert_eq!(Trigger::from_record(&record("X", "middle", 0.0, 1.0)), Err(TriggerError::InvalidEdge));
    assert_eq!(Trigger::from_record(&record("X", "Top", 0.0, 1.0)), Err(TriggerError::InvalidEdge));
}

#[test]
fn record_with_invalid_range() {
    for bad in [Field::Missing, Field::Invalid] {
        let mut r = record("X", "left", 0.0, 1.0);
        r.from = bad.clone();
        assert_eq!(Trigger::from_record(&r), Err(TriggerError::InvalidRange));
        let mut r = record("X", "left", 0.0, 1.0);
        r.to = bad.clone();
        assert_eq!(Trigger::from_record(&r), Err(TriggerError::InvalidRange));
    }
}

#[test]
fn first_fault_of_a_record_decides() {
    let all_bad = TriggerRecord {
        command: Field::Missing,
        edge: Field::Missing,
        from: Field::Missing,
        to: Field::Missing,
    };
    assert_eq!(Trigger::from_record(&all_bad), Err(TriggerError::NoCommand));
    let r = TriggerRecord {
        command: Field::Invalid,
        edge: Field::Missing,
        from: Field::Invalid,
        to: Field::Missing,
    };
    assert_eq!(Trigger::from_record(&r), Err(TriggerError::InvalidCommand));
    let r = TriggerRecord {
        command: Field::Value("X".to_string()),
        edge: Field::Missing,
        from: Field::Invalid,
        to: Field::Missing,
    };
    assert_eq!(Trigger::from_record(&r), Err(TriggerError::NoEdge));
    let r = TriggerRecord {
        command: Field::Value("X".to_string()),
        edge: Field::Value("nowhere".to_string()),
        from: Field::Invalid,
        to: Field::Missing,
    };
    assert_eq!(Trigger::from_record(&r), Err(TriggerError::InvalidEdge));
}

#[test]
fn table_keeps_configuration_order() {
    let entries = vec![
        Some(record("a", "left", 0.0, 10.0)),
        Some(record("b", "top", 20.0, 30.0)),
        Some(record("c", "left", 5.0, 6.0)),
    ];
    assert_eq!(
        load_triggers(&entries),
        Ok(vec![
            trigger("a", Edge::Left, 0.0, 10.0),
            trigger("b", Edge::Top, 20.0, 30.0),
            trigger("c", Edge::Left, 5.0, 6.0),
        ])
    );
}

#[test]
fn empty_table_loads() {
    assert_eq!(load_triggers(&Vec::new()), Ok(Vec::new()));
}

#[test]
fn one_bad_entry_rejects_the_table() {
    let mut bad = record("c", "left", 5.0, 6.0);
    bad.to = Field::Missing;
    let entries = vec![
        Some(record("a", "left", 0.0, 10.0)),
        Some(bad),
        Some(record("b", "sideways", 20.0, 30.0)),
    ];
    assert_eq!(
        load_triggers(&entries),
        Err(LoadError { index: 1, reason: TriggerError::InvalidRange })
    );
}

#[test]
fn entry_that_is_no_record_rejects_the_table() {
    let entries = vec![None, Some(record("a", "left", 0.0, 10.0))];
    assert_eq!(
        load_triggers(&entries),
        Err(LoadError { index: 0, reason: TriggerError::NotARecord })
    );
    let entries = vec![Some(record("a", "left", 0.0, 10.0)), None];
    assert_eq!(
        load_triggers(&entries),
        Err(LoadError { index: 1, reason: TriggerError::NotARecord })
    );
}

fn released(edge: Edge, x: f64, y: f64) -> Gesture {
    Gesture { start: Point { x: p(0.0), y: p(0.0) }, position: Point { x: p(x), y: p(y) }, edge }
}

#[test]
fn every_matching_trigger_fires_in_table_order() {
    let table = vec![
        trigger("first", Edge::Left, 40.0, 60.0),
        trigger("other edge", Edge::Right, 40.0, 60.0),
        trigger("second", Edge::Left, 0.0, 100.0),
        trigger("other zone", Edge::Left, 60.0, 80.0),
        trigger("third", Edge::Left, 50.0, 50.001),
    ];
    assert_eq!(
        matching_commands(&table, &released(Edge::Left, 30.0, 50.0), 4_000),
        vec!["first".to_string(), "second".to_string(), "third".to_string()]
    );
}

#[test]
fn same_trigger_twice_fires_twice() {
    let table = vec![trigger("X", Edge::Top, 0.0, 0.01), trigger("X", Edge::Top, 0.0, 0.01)];
    assert_eq!(
        matching_commands(&table, &released(Edge::Top, 0.005, 9.0), 4_000),
        vec!["X".to_string(), "X".to_string()]
    );
}

#[test]
fn short_gesture_fires_nothing() {
    let table = vec![trigger("X", Edge::Left, 0.0, 100.0)];
    assert!(matching_commands(&table, &released(Edge::Left, 4.0, 50.0), 4_000).is_empty());
    assert!(matching_commands(&table, &released(Edge::Left, 0.3, 50.0), 4_000).is_empty());
    assert_eq!(
        matching_commands(&table, &released(Edge::Left, 4.0001, 50.0), 4_000),
        vec!["X".to_string()]
    );
    assert_eq!(
        matching_commands(&table, &released(Edge::Left, 4.000000000000001, 50.0), 4_000),
        vec!["X".to_string()]
    );
}

#[test]
fn zone_is_read_along_the_edge() {
    let table = vec![
        trigger("left", Edge::Left, 10.0, 20.0),
        trigger("top", Edge::Top, 10.0, 20.0),
        trigger("right", Edge::Right, 10.0, 20.0),
        trigger("bottom", Edge::Bottom, 10.0, 20.0),
    ];
    assert_eq!(
        matching_commands(&table, &released(Edge::Left, 50.0, 15.0), 4_000),
        vec!["left".to_string()]
    );
    assert_eq!(
        matching_commands(&table, &released(Edge::Right, 50.0, 15.0), 4_000),
        vec!["right".to_string()]
    );
    assert_eq!(
        matching_commands(&table, &released(Edge::Top, 15.0, 50.0), 4_000),
        vec!["top".to_string()]
    );
    assert_eq!(
        matching_commands(&table, &released(Edge::Bottom, 15.0, 50.0), 4_000),
        vec!["bottom".to_string()]
    );
    assert!(matching_commands(&table, &released(Edge::Top, 50.0, 15.0), 4_000).is_empty());
}
