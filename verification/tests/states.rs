use raygeo::binary64::Binary64;
use raygeo::error::ErrorKind;
use raygeo::ops::command::{AirAssistMode, CommandType, CoolantMode, HeadCoolantMode, State};
use raygeo::python::ops::container::PyOps;

fn n(v: f64) -> Binary64 {
    Binary64 { bits: v.to_bits() }
}

fn v(b: Binary64) -> f64 {
    f64::from_bits(b.bits)
}

fn full() -> State {
    State {
        power: Some(n(0.5)),
        feed_rate: Some(100),
        rapid_rate: Some(200),
        frequency: Some(300),
        pulse_width: Some(n(4.0)),
        spindle_rpm: Some(500),
        coolant: Some(CoolantMode { code: 1 }),
        air_assist: Some(AirAssistMode { code: 2 }),
        head_coolant: Some(HeadCoolantMode { code: 3 }),
        head_uid: Some("head".to_string()),
    }
}

fn with_power(power: f64) -> State {
    let mut s = State::unknown();
    s.power = Some(n(power));
    s
}

#[test]
fn applying_a_state_reaches_it() {
    let mut ops = PyOps::new();
    ops.apply_state(&full());
    assert_eq!(ops.len(), 10);
    let s = ops.state_at(9).unwrap();
    assert_eq!(v(s.power.unwrap()), 0.5);
    assert_eq!(s.feed_rate, Some(100));
    assert_eq!(s.rapid_rate, Some(200));
    assert_eq!(s.frequency, Some(300));
    assert_eq!(v(s.pulse_width.unwrap()), 4.0);
    assert_eq!(s.spindle_rpm, Some(500));
    assert_eq!(s.coolant, Some(CoolantMode { code: 1 }));
    assert_eq!(s.air_assist, Some(AirAssistMode { code: 2 }));
    assert_eq!(s.head_coolant, Some(HeadCoolantMode { code: 3 }));
    assert_eq!(s.head_uid, Some("head".to_string()));
}

#[test]
fn power_is_always_applied_and_nothing_else_unasked() {
    let mut ops = PyOps::new();
    ops.apply_state(&State::unknown());
    assert_eq!(ops.len(), 1);
    assert_eq!(v(ops.power(0).unwrap()), 0.0);
    ops.set_feed_rate(n(700.0));
    let mut s = State::unknown();
    s.frequency = Some(40);
    ops.apply_state(&s);
    let reached = ops.state_at(ops.len() - 1).unwrap();
    assert_eq!(reached.feed_rate, Some(700));
    assert_eq!(reached.frequency, Some(40));
    assert_eq!(v(reached.power.unwrap()), 0.0);
    assert_eq!(reached.rapid_rate, None);
}

#[test]
fn states_accumulate_along_the_sequence() {
    let mut ops = PyOps::new();
    ops.move_to(n(0.0), n(0.0), n(0.0), None);
    ops.set_power(n(0.25));
    ops.dwell(n(10.0));
    ops.line_to(n(1.0), n(0.0), n(0.0), None);
    ops.set_power(n(0.75));
    assert!(ops.state_at(0).unwrap().power.is_none());
    assert_eq!(v(ops.state_at(1).unwrap().power.unwrap()), 0.25);
    assert_eq!(v(ops.state_at(3).unwrap().power.unwrap()), 0.25);
    assert_eq!(v(ops.state_at(4).unwrap().power.unwrap()), 0.75);
    let error = ops.state_at(5).err().unwrap();
    assert_eq!(error.kind, ErrorKind::Index);
    assert_eq!(error.message, "index out of range");
}

#[test]
fn preloading_stores_the_accumulated_states() {
    let mut ops = PyOps::new();
    ops.move_to(n(0.0), n(0.0), n(0.0), None);
    ops.set_power(n(0.25));
    ops.line_to(n(1.0), n(0.0), n(0.0), None);
    ops.set_feed_rate(n(9.0));
    ops.scan_to(n(2.0), n(0.0), n(0.0), None, None);
    ops.preload_state();
    assert_eq!(ops.len(), 5);
    for i in [0, 2, 4] {
        let stored = ops.state(i).unwrap().unwrap();
        let there = ops.state_at(i).unwrap();
        assert_eq!(stored.power.map(v), there.power.map(v));
        assert_eq!(stored.feed_rate, there.feed_rate);
    }
    assert!(ops.state(0).unwrap().unwrap().power.is_none());
    assert_eq!(ops.state(4).unwrap().unwrap().feed_rate, Some(9));
    assert!(ops.state(1).unwrap().is_none());
}

#[test]
fn states_are_put_on_moving_commands() {
    let mut ops = PyOps::new();
    ops.line_to(n(1.0), n(0.0), n(0.0), None);
    ops.set_power(n(1.0));
    ops.line_to(n(2.0), n(0.0), n(0.0), None);
    ops.set_state_at(2, &with_power(0.5));
    ops.set_state_on_moving(&with_power(0.1));
    assert_eq!(v(ops.state(0).unwrap().unwrap().power.unwrap()), 0.1);
    assert!(ops.state(1).unwrap().is_none());
    assert_eq!(v(ops.state(2).unwrap().unwrap().power.unwrap()), 0.5);
    ops.set_state_at(2, &with_power(0.9));
    assert_eq!(v(ops.state(2).unwrap().unwrap().power.unwrap()), 0.9);
    assert_eq!(v(ops.endpoint(2).unwrap().0), 2.0);
}

#[test]
fn a_polyline_starts_with_its_state() {
    let points = vec![(n(0.0), n(0.0), n(0.0)), (n(1.0), n(0.0), n(0.0))];
    let mut s = with_power(0.5);
    s.head_uid = Some("h".to_string());
    let ops = PyOps::from_polyline(&points, true, Some(&s));
    let kinds: Vec<CommandType> = (0..4).map(|i| ops.command_type(i).unwrap()).collect();
    assert_eq!(
        kinds,
        vec![CommandType::SetPower, CommandType::SetHead, CommandType::MoveTo, CommandType::LineTo]
    );
    assert_eq!(ops.len(), 4);
}
