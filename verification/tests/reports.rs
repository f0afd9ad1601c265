use raygeo::binary64::Binary64;
use raygeo::ops::command::{
    AirAssistMode, Axis, CommandType, CoolantMode, HeadCoolantMode, RasterMode, SectionType, State,
};
use raygeo::python::ops::container::PyOps;
use raygeo::python::ops::info::{py_pyany_eq, EqStep, ObjectComparison, PyCommandInfo};

fn n(v: f64) -> Binary64 {
    Binary64 { bits: v.to_bits() }
}

fn v(b: Binary64) -> f64 {
    f64::from_bits(b.bits)
}

fn report(build: fn(&mut PyOps)) -> PyCommandInfo {
    let mut ops = PyOps::new();
    build(&mut ops);
    ops.inspect(ops.len() - 1)
}

/// Runs a comparison to its answer, and lists the questions it asked.
fn compare(
    a: &PyCommandInfo,
    b: &PyCommandInfo,
    axes_equal: bool,
    state_equal: bool,
) -> (bool, Vec<EqStep>) {
    let mut asked: Vec<EqStep> = Vec::new();
    let mut step = a.__eq__(Some(b));
    loop {
        match step {
            EqStep::Answer(equal) => return (equal, asked),
            EqStep::CompareExtraAxes => {
                asked.push(step);
                step = a.eq_next(b, step, axes_equal);
            }
            EqStep::CompareState => {
                asked.push(step);
                step = a.eq_next(b, step, state_equal);
            }
        }
    }
}

#[test]
fn reports_name_the_parameters_of_a_command() {
    let arc = report(|o| {
        o.arc_to(n(1.0), n(2.0), n(3.0), n(4.0), false, n(5.0), Some(vec![(Axis { code: 1 }, n(6.0))]))
    });
    assert_eq!(arc.type_, CommandType::ArcTo);
    let e = arc.end.unwrap();
    assert_eq!((v(e.0), v(e.1), v(e.2)), (1.0, 2.0, 5.0));
    let c = arc.center_offset.unwrap();
    assert_eq!((v(c.0), v(c.1)), (3.0, 4.0));
    assert_eq!(arc.clockwise, Some(false));
    assert_eq!(arc.extra_axes.as_ref().unwrap()[0].0, Axis { code: 1 });
    assert!(arc.control.is_none() && arc.power.is_none() && arc.state.is_none());

    let cubic = report(|o| {
        o.bezier_to(
            (n(1.0), n(1.0), n(1.0)),
            (n(2.0), n(2.0), n(2.0)),
            (n(3.0), n(3.0), n(3.0)),
            None,
        )
    });
    assert_eq!(v(cubic.control1.unwrap().0), 1.0);
    assert_eq!(v(cubic.control2.unwrap().0), 2.0);
    let quadratic =
        report(|o| o.quadratic_bezier_to((n(7.0), n(8.0), n(9.0)), (n(0.0), n(0.0), n(0.0)), None));
    assert_eq!(v(quadratic.control.unwrap().2), 9.0);
    let scan = report(|o| o.scan_to(n(0.0), n(0.0), n(0.0), Some(vec![1, 2]), None));
    assert_eq!(scan.power_values, Some(vec![1, 2]));

    assert_eq!(v(report(|o| o.set_power(n(0.5))).power.unwrap()), 0.5);
    assert_eq!(report(|o| o.set_feed_rate(n(7.0))).feed_rate, Some(7));
    assert_eq!(report(|o| o.set_rapid_rate(n(8.0))).rapid_rate, Some(8));
    assert_eq!(report(|o| o.set_frequency(9)).frequency, Some(9));
    assert_eq!(v(report(|o| o.set_pulse_width(n(1.5))).pulse_width.unwrap()), 1.5);
    assert_eq!(report(|o| o.set_spindle_rpm(10)).spindle_rpm, Some(10));
    assert_eq!(
        report(|o| o.set_coolant(CoolantMode { code: 1 })).coolant,
        Some(CoolantMode { code: 1 })
    );
    assert_eq!(
        report(|o| o.set_air_assist(AirAssistMode { code: 2 })).air_assist,
        Some(AirAssistMode { code: 2 })
    );
    assert_eq!(
        report(|o| o.set_head_coolant(HeadCoolantMode { code: 3 })).head_coolant,
        Some(HeadCoolantMode { code: 3 })
    );
    assert_eq!(report(|o| o.set_head("h")).head_uid, Some("h".to_string()));
    assert_eq!(v(report(|o| o.dwell(n(20.0))).duration_ms.unwrap()), 20.0);
    assert_eq!(report(|o| o.layer_start("l")).layer_uid, Some("l".to_string()));
    assert_eq!(report(|o| o.layer_end("l")).layer_uid, Some("l".to_string()));
    assert_eq!(report(|o| o.workpiece_start("w")).workpiece_uid, Some("w".to_string()));
    assert_eq!(report(|o| o.workpiece_end("w")).workpiece_uid, Some("w".to_string()));
    let start = report(|o| {
        assert!(o
            .ops_section_start(SectionType::RasterFill, "w", Some(RasterMode { code: 1 }))
            .is_ok())
    });
    assert_eq!(start.section_type, Some(SectionType::RasterFill));
    assert_eq!(start.workpiece_uid, Some("w".to_string()));
    let end = report(|o| assert!(o.ops_section_end(SectionType::VectorOutline, None).is_ok()));
    assert_eq!(end.section_type, Some(SectionType::VectorOutline));
    assert!(end.workpiece_uid.is_none());
    assert_eq!(report(|o| o.job_end()).type_, CommandType::JobEnd);
}

#[test]
fn a_report_shows_the_stored_state() {
    let mut ops = PyOps::new();
    ops.line_to(n(0.0), n(0.0), n(0.0), None);
    let mut s = State::unknown();
    s.feed_rate = Some(3);
    ops.set_state_at(0, &s);
    assert_eq!(ops.inspect(0).state.unwrap().feed_rate, Some(3));
}

#[test]
fn equal_reports_are_equal_both_ways() {
    let a = report(|o| o.set_power(n(0.0)));
    let b = report(|o| o.set_power(n(-0.0)));
    assert_eq!(compare(&a, &b, false, false), (true, vec![]));
    assert_eq!(compare(&b, &a, false, false), (true, vec![]));
    assert_eq!(compare(&a, &a, false, false).0, true);
}

#[test]
fn a_nan_makes_reports_differ() {
    let a = report(|o| o.set_power(n(f64::NAN)));
    assert_eq!(compare(&a, &a, true, true), (false, vec![]));
    let b = report(|o| o.line_to(n(f64::NAN), n(0.0), n(0.0), None));
    assert_eq!(compare(&b, &b, true, true), (false, vec![]));
}

#[test]
fn each_plain_parameter_counts() {
    let pairs: Vec<(PyCommandInfo, PyCommandInfo)> = vec![
        (report(|o| o.job_start()), report(|o| o.job_end())),
        (
            report(|o| o.line_to(n(1.0), n(0.0), n(0.0), None)),
            report(|o| o.line_to(n(1.0), n(0.0), n(2.0), None)),
        ),
        (
            report(|o| o.arc_to(n(0.0), n(0.0), n(1.0), n(0.0), true, n(0.0), None)),
            report(|o| o.arc_to(n(0.0), n(0.0), n(1.0), n(0.0), false, n(0.0), None)),
        ),
        (
            report(|o| o.arc_to(n(0.0), n(0.0), n(1.0), n(0.0), true, n(0.0), None)),
            report(|o| o.arc_to(n(0.0), n(0.0), n(1.0), n(5.0), true, n(0.0), None)),
        ),
        (report(|o| o.set_feed_rate(n(1.0))), report(|o| o.set_feed_rate(n(2.0)))),
        (report(|o| o.set_frequency(1)), report(|o| o.set_frequency(2))),
        (report(|o| o.set_spindle_rpm(1)), report(|o| o.set_spindle_rpm(2))),
        (report(|o| o.set_head("a")), report(|o| o.set_head("b"))),
        (report(|o| o.layer_start("a")), report(|o| o.layer_start("b"))),
        (report(|o| o.dwell(n(1.0))), report(|o| o.dwell(n(2.0)))),
        (
            report(|o| o.set_coolant(CoolantMode { code: 0 })),
            report(|o| o.set_coolant(CoolantMode { code: 1 })),
        ),
        (
            report(|o| o.scan_to(n(0.0), n(0.0), n(0.0), Some(vec![1, 2]), None)),
            report(|o| o.scan_to(n(0.0), n(0.0), n(0.0), Some(vec![1, 3]), None)),
        ),
        (
            report(|o| o.scan_to(n(0.0), n(0.0), n(0.0), Some(vec![1]), None)),
            report(|o| o.scan_to(n(0.0), n(0.0), n(0.0), Some(vec![1, 3]), None)),
        ),
    ];
    for (a, b) in &pairs {
        assert_eq!(compare(a, b, true, true).0, false);
        assert_eq!(compare(b, a, true, true).0, false);
        assert_eq!(compare(a, a, true, true).0, true);
    }
}

#[test]
fn objects_are_asked_for_only_where_both_are_there() {
    let mut ops = PyOps::new();
    ops.line_to(n(0.0), n(0.0), n(0.0), Some(vec![(Axis { code: 1 }, n(1.0))]));
    ops.line_to(n(0.0), n(0.0), n(0.0), None);
    ops.set_state_at(0, &State::unknown());
    let both = ops.inspect(0);
    let bare = ops.inspect(1);
    let questions = vec![EqStep::CompareExtraAxes, EqStep::CompareState];
    assert_eq!(compare(&both, &both, true, true), (true, questions.clone()));
    assert_eq!(compare(&both, &both, true, false), (false, questions));
    assert_eq!(compare(&both, &both, false, true), (false, vec![EqStep::CompareExtraAxes]));
    assert_eq!(compare(&both, &bare, true, true), (false, vec![]));
    assert_eq!(compare(&bare, &both, true, true), (false, vec![]));
    assert_eq!(compare(&bare, &bare, false, false), (true, vec![]));
    assert_eq!(both.__eq__(None), EqStep::Answer(false));
    assert_eq!(both.eq_next(&bare, EqStep::Answer(true), false), EqStep::Answer(true));
}

#[test]
fn absent_objects_compare_by_their_absence() {
    assert_eq!(py_pyany_eq::<u8>(None, None), ObjectComparison::Equal);
    assert_eq!(py_pyany_eq(Some(&1u8), None), ObjectComparison::Different);
    assert_eq!(py_pyany_eq(None, Some(&1u8)), ObjectComparison::Different);
    assert_eq!(py_pyany_eq(Some(&1u8), Some(&2u8)), ObjectComparison::Ask);
}
