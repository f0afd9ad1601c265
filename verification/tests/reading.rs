use raygeo::binary64::Binary64;
use raygeo::error::{ErrorKind, PyError};
use raygeo::ops::command::{
    AirAssistMode, Axis, CommandCategory, CommandType, CoolantMode, HeadCoolantMode, Point3D,
    RasterMode, SectionType,
};
use raygeo::python::ops::container::{normalize_index, PyOps};

fn n(v: f64) -> Binary64 {
    Binary64 { bits: v.to_bits() }
}

fn v(b: Binary64) -> f64 {
    f64::from_bits(b.bits)
}

fn triple(t: (Binary64, Binary64, Binary64)) -> (f64, f64, f64) {
    (v(t.0), v(t.1), v(t.2))
}

fn message<T>(r: Result<T, PyError>, kind: ErrorKind) -> String {
    match r {
        Ok(_) => panic!("no error"),
        Err(e) => {
            assert_eq!(e.kind, kind);
            e.message
        }
    }
}

/// One command of every kind.
fn everything() -> PyOps {
    let mut ops = PyOps::new();
    ops.move_to(n(1.0), n(2.0), n(3.0), None);
    ops.line_to(n(4.0), n(5.0), n(6.0), Some(vec![(Axis { code: 7 }, n(90.0))]));
    ops.arc_to(n(1.0), n(0.0), n(0.5), n(-0.5), true, n(0.0), None);
    ops.bezier_to(
        (n(1.0), n(1.0), n(1.0)),
        (n(2.0), n(2.0), n(2.0)),
        (n(3.0), n(3.0), n(3.0)),
        None,
    );
    ops.quadratic_bezier_to((n(9.0), n(8.0), n(7.0)), (n(6.0), n(5.0), n(4.0)), None);
    ops.scan_to(n(10.0), n(0.0), n(0.0), Some(vec![1, 2, 3]), None);
    ops.set_power(n(0.75));
    ops.set_feed_rate(n(1200.9));
    ops.set_rapid_rate(n(-3.5));
    ops.set_frequency(5000);
    ops.set_pulse_width(n(12.5));
    ops.set_spindle_rpm(18000);
    ops.set_coolant(CoolantMode { code: 1 });
    ops.set_air_assist(AirAssistMode { code: 2 });
    ops.set_head_coolant(HeadCoolantMode { code: 3 });
    ops.set_head("head-1");
    ops.dwell(n(250.0));
    ops.job_start();
    ops.layer_start("layer");
    ops.workpiece_start("piece");
    assert!(ops
        .ops_section_start(SectionType::RasterFill, "piece", Some(RasterMode { code: 4 }))
        .is_ok());
    ops.state_block_start(Some("block"));
    ops.state_block_end();
    assert!(ops.ops_section_end(SectionType::RasterFill, Some(RasterMode { code: 4 })).is_ok());
    ops.workpiece_end("piece");
    ops.layer_end("layer");
    ops.job_end();
    ops
}

const KINDS: [CommandType; 27] = [
    CommandType::MoveTo,
    CommandType::LineTo,
    CommandType::ArcTo,
    CommandType::BezierTo,
    CommandType::QuadraticBezierTo,
    CommandType::ScanLine,
    CommandType::SetPower,
    CommandType::SetFeedRate,
    CommandType::SetRapidRate,
    CommandType::SetFrequency,
    CommandType::SetPulseWidth,
    CommandType::SetSpindleRpm,
    CommandType::SetCoolant,
    CommandType::SetAirAssist,
    CommandType::SetHeadCoolant,
    CommandType::SetHead,
    CommandType::Dwell,
    CommandType::JobStart,
    CommandType::LayerStart,
    CommandType::WorkpieceStart,
    CommandType::OpsSectionStart,
    CommandType::StateBlockStart,
    CommandType::StateBlockEnd,
    CommandType::OpsSectionEnd,
    CommandType::WorkpieceEnd,
    CommandType::LayerEnd,
    CommandType::JobEnd,
];

#[test]
fn every_kind_is_found_by_either_index() {
    let ops = everything();
    assert_eq!(ops.len(), KINDS.len());
    for (i, kind) in KINDS.iter().enumerate() {
        assert_eq!(ops.command_type(i as isize).unwrap(), *kind);
        assert_eq!(ops.command_type(i as isize - 27).unwrap(), *kind);
        assert_eq!(ops.indices_of(*kind), vec![i]);
        let category = if i < 6 {
            CommandCategory::Moving
        } else if i < 17 {
            CommandCategory::State
        } else {
            CommandCategory::Marker
        };
        assert_eq!(ops.category(i as isize).unwrap(), category);
        assert_eq!(kind.category(), category);
    }
}

#[test]
fn each_command_belongs_to_one_class() {
    let ops = everything();
    for i in 0..ops.len() {
        let travel = ops.is_travel(i).unwrap();
        let cutting = ops.is_cutting(i).unwrap();
        let state = ops.is_state(i).unwrap();
        let marker = ops.is_marker(i).unwrap();
        let count = [travel, cutting, state, marker].iter().filter(|b| **b).count();
        assert_eq!(count, 1);
        assert_eq!(travel, i == 0);
        assert_eq!(cutting, (1..6).contains(&i));
        assert_eq!(state, (6..17).contains(&i));
        assert_eq!(marker, i >= 17);
        assert_eq!(ops.is_scanline(i).unwrap(), i == 5);
    }
}

#[test]
fn parameters_are_read_back() {
    let ops = everything();
    assert_eq!(triple(ops.endpoint(0).unwrap()), (1.0, 2.0, 3.0));
    assert_eq!(triple(ops.endpoint(-26).unwrap()), (4.0, 5.0, 6.0));
    let (i, j, cw) = ops.arc_params(2).unwrap();
    assert_eq!((v(i), v(j), cw), (0.5, -0.5, true));
    let (c1, c2) = ops.bezier_params(3).unwrap();
    assert_eq!(triple(c1), (1.0, 1.0, 1.0));
    assert_eq!(triple(c2), (2.0, 2.0, 2.0));
    assert_eq!(triple(ops.quadratic_bezier_params(4).unwrap()), (9.0, 8.0, 7.0));
    assert_eq!(ops.scanline_data(5).unwrap(), vec![1, 2, 3]);
    assert_eq!(v(ops.power(6).unwrap()), 0.75);
    assert_eq!(ops.rate(7).unwrap(), 1200);
    assert_eq!(ops.rate(8).unwrap(), -3);
    assert_eq!(ops.frequency(9).unwrap(), 5000);
    assert_eq!(v(ops.pulse_width(10).unwrap()), 12.5);
    assert_eq!(ops.spindle_rpm(11).unwrap(), 18000);
    assert_eq!(ops.coolant(12).unwrap(), CoolantMode { code: 1 });
    assert_eq!(ops.air_assist(13).unwrap(), AirAssistMode { code: 2 });
    assert_eq!(ops.head_coolant(14).unwrap(), HeadCoolantMode { code: 3 });
    assert_eq!(ops.head_uid(15).unwrap(), "head-1");
    assert_eq!(v(ops.dwell_duration(16).unwrap()), 250.0);
    assert_eq!(ops.layer_uid(18).unwrap(), "layer");
    assert_eq!(ops.layer_uid(25).unwrap(), "layer");
    assert_eq!(ops.workpiece_uid(19).unwrap(), "piece");
    assert_eq!(ops.workpiece_uid(24).unwrap(), "piece");
    assert_eq!(
        ops.section_params(20).unwrap(),
        (SectionType::RasterFill, Some("piece".to_string()), Some(RasterMode { code: 4 }))
    );
    assert_eq!(
        ops.section_params(23).unwrap(),
        (SectionType::RasterFill, None, Some(RasterMode { code: 4 }))
    );
    let axes = ops.extra_axes(1).unwrap().unwrap();
    assert_eq!(axes.len(), 1);
    assert_eq!((axes[0].0, v(axes[0].1)), (Axis { code: 7 }, 90.0));
    assert!(ops.extra_axes(0).unwrap().is_none());
    assert!(ops.extra_axes(6).unwrap().is_none());
    assert!(ops.state(0).unwrap().is_none());
}

#[test]
fn other_kinds_are_type_errors() {
    let ops = everything();
    assert_eq!(message(ops.arc_params(0), ErrorKind::Type), "Not an ArcToCommand");
    assert_eq!(message(ops.bezier_params(0), ErrorKind::Type), "Not a BezierToCommand");
    assert_eq!(
        message(ops.quadratic_bezier_params(0), ErrorKind::Type),
        "Not a QuadraticBezierToCommand"
    );
    assert_eq!(message(ops.scanline_data(0), ErrorKind::Type), "Not a ScanLinePowerCommand");
    assert_eq!(message(ops.dwell_duration(0), ErrorKind::Type), "Not a DwellCommand");
    assert_eq!(message(ops.power(0), ErrorKind::Type), "Not a SetPowerCommand");
    assert_eq!(message(ops.rate(0), ErrorKind::Type), "Not a rate command");
    assert_eq!(message(ops.frequency(0), ErrorKind::Type), "Not a SetFrequencyCommand");
    assert_eq!(message(ops.pulse_width(0), ErrorKind::Type), "Not a SetPulseWidthCommand");
    assert_eq!(message(ops.spindle_rpm(0), ErrorKind::Type), "Not a SetSpindleRpmCommand");
    assert_eq!(message(ops.coolant(0), ErrorKind::Type), "Not a SetCoolantCommand");
    assert_eq!(message(ops.air_assist(0), ErrorKind::Type), "Not a SetAirAssistCommand");
    assert_eq!(message(ops.head_coolant(0), ErrorKind::Type), "Not a SetHeadCoolantCommand");
    assert_eq!(message(ops.head_uid(0), ErrorKind::Type), "Not a SetHeadCommand");
    assert_eq!(message(ops.layer_uid(19), ErrorKind::Type), "Not a Layer command");
    assert_eq!(message(ops.workpiece_uid(20), ErrorKind::Type), "Not a Workpiece command");
    assert_eq!(message(ops.section_params(21), ErrorKind::Type), "Not an OpsSection command");
}

#[test]
fn indices_past_the_end_are_index_errors() {
    let ops = everything();
    let past = ops.len();
    let text = "index out of range";
    assert_eq!(message(ops.is_travel(past), ErrorKind::Index), text);
    assert_eq!(message(ops.is_cutting(past), ErrorKind::Index), text);
    assert_eq!(message(ops.is_state(past), ErrorKind::Index), text);
    assert_eq!(message(ops.is_marker(past), ErrorKind::Index), text);
    assert_eq!(message(ops.is_scanline(past), ErrorKind::Index), text);
    assert_eq!(message(ops.arc_params(past), ErrorKind::Index), text);
    assert_eq!(message(ops.power(past), ErrorKind::Index), text);
    assert_eq!(message(ops.section_params(past), ErrorKind::Index), text);
    assert_eq!(message(ops.extra_axes(past), ErrorKind::Index), text);
    assert_eq!(message(ops.state(past), ErrorKind::Index), text);
    assert_eq!(message(ops.command_type(27), ErrorKind::Index), "index out of range: 27");
    assert_eq!(message(ops.category(-30), ErrorKind::Index), "index out of range: -3");
    assert_eq!(message(ops.endpoint(100), ErrorKind::Index), "index out of range: 100");
}

#[test]
fn negative_indices_count_from_the_end() {
    assert_eq!(normalize_index(0, 3).unwrap(), 0);
    assert_eq!(normalize_index(2, 3).unwrap(), 2);
    assert_eq!(normalize_index(-1, 3).unwrap(), 2);
    assert_eq!(normalize_index(-3, 3).unwrap(), 0);
    assert_eq!(message(normalize_index(3, 3), ErrorKind::Index), "index out of range: 3");
    assert_eq!(message(normalize_index(-4, 3), ErrorKind::Index), "index out of range: -1");
    assert_eq!(message(normalize_index(0, 0), ErrorKind::Index), "index out of range: 0");
    assert_eq!(message(normalize_index(-1, 0), ErrorKind::Index), "index out of range: -1");
    assert_eq!(
        message(normalize_index(isize::MIN, 0), ErrorKind::Index),
        format!("index out of range: {}", isize::MIN)
    );
    assert_eq!(
        message(normalize_index(isize::MAX, 5), ErrorKind::Index),
        format!("index out of range: {}", isize::MAX)
    );
}

#[test]
fn counts_add_up() {
    let mut ops = everything();
    assert_eq!((ops.count_travel(), ops.count_cutting(), ops.count_scanline()), (1, 5, 1));
    ops.scan_to(n(0.0), n(0.0), n(0.0), None, None);
    assert_eq!(ops.count_cutting(), 6);
    assert_eq!(ops.count_scanline(), 2);
    assert_eq!(ops.scanline_count(), 2);
    assert_eq!(ops.indices_of(CommandType::ScanLine), vec![5, 27]);
    assert_eq!(PyOps::new().count_cutting(), 0);
    assert!(PyOps::new().indices_of(CommandType::MoveTo).is_empty());
}

#[test]
fn scan_without_power_values_runs_at_full_power() {
    let mut ops = PyOps::new();
    ops.scan_to(n(1.0), n(0.0), n(0.0), None, None);
    ops.scan_to(n(2.0), n(0.0), n(0.0), Some(Vec::new()), None);
    assert_eq!(ops.scanline_data(0).unwrap(), vec![255]);
    assert_eq!(ops.scanline_data(1).unwrap(), Vec::<u8>::new());
}

#[test]
fn rates_are_rounded_and_clamped() {
    let mut ops = PyOps::new();
    ops.set_feed_rate(n(1.0e12));
    ops.set_rapid_rate(n(f64::NEG_INFINITY));
    ops.set_feed_rate(n(f64::NAN));
    assert_eq!(ops.rate(0).unwrap(), i32::MAX);
    assert_eq!(ops.rate(1).unwrap(), i32::MIN);
    assert_eq!(ops.rate(2).unwrap(), 0);
}

#[test]
fn sections_must_fit_their_raster_mode() {
    let mut ops = PyOps::new();
    let mode = Some(RasterMode { code: 1 });
    assert_eq!(
        message(ops.ops_section_start(SectionType::RasterFill, "w", None), ErrorKind::Value),
        "RasterFill requires a raster_mode"
    );
    assert_eq!(
        message(ops.ops_section_start(SectionType::VectorOutline, "w", mode), ErrorKind::Value),
        "VectorOutline takes no raster_mode"
    );
    assert_eq!(
        message(ops.ops_section_end(SectionType::RasterFill, None), ErrorKind::Value),
        "RasterFill requires a raster_mode"
    );
    assert_eq!(
        message(ops.ops_section_end(SectionType::VectorOutline, mode), ErrorKind::Value),
        "VectorOutline takes no raster_mode"
    );
    assert!(ops.is_empty());
    assert!(ops.ops_section_start(SectionType::VectorOutline, "w", None).is_ok());
    assert!(ops.ops_section_end(SectionType::VectorOutline, None).is_ok());
    assert_eq!(ops.len(), 2);
}

#[test]
fn closing_a_path_leads_back_to_its_start() {
    let mut ops = PyOps::new();
    assert_eq!(triple(ops.get_last_move_to()), (0.0, 0.0, 0.0));
    ops.move_to(n(1.0), n(2.0), n(3.0), None);
    ops.line_to(n(5.0), n(2.0), n(3.0), None);
    ops.set_power(n(1.0));
    ops.line_to(n(5.0), n(6.0), n(3.0), None);
    ops.close_path();
    assert_eq!(ops.command_type(-1).unwrap(), CommandType::LineTo);
    assert_eq!(triple(ops.endpoint(-1).unwrap()), (1.0, 2.0, 3.0));
    assert_eq!(triple(ops.get_last_move_to()), (1.0, 2.0, 3.0));
    ops.set_last_move_to((n(7.0), n(8.0), n(9.0)));
    ops.close_path();
    assert_eq!(triple(ops.endpoint(-1).unwrap()), (7.0, 8.0, 9.0));
}

/// Adds up the distances in the plane between consecutive points.
fn length(points: Vec<Point3D>) -> f64 {
    points
        .windows(2)
        .map(|w| {
            let dx = v(w[1].x) - v(w[0].x);
            let dy = v(w[1].y) - v(w[0].y);
            (dx * dx + dy * dy).sqrt()
        })
        .fold(0.0, |total, length| total + length)
}

#[test]
fn distances_are_cumulative() {
    let mut ops = PyOps::new();
    ops.move_to(n(0.0), n(0.0), n(0.0), None);
    ops.line_to(n(3.0), n(4.0), n(0.0), None);
    ops.line_to(n(3.0), n(10.0), n(0.0), None);
    ops.set_power(n(1.0));
    assert_eq!(length(ops.distance_at(0, None)), 0.0);
    assert_eq!(length(ops.distance_at(1, None)), 5.0);
    assert_eq!(length(ops.distance_at(2, None)), 11.0);
    assert_eq!(length(ops.distance_at(3, None)), 11.0);
}

#[test]
fn a_distance_can_start_elsewhere() {
    let mut ops = PyOps::new();
    ops.set_power(n(1.0));
    ops.line_to(n(3.0), n(4.0), n(7.0), None);
    ops.line_to(n(3.0), n(10.0), n(0.0), None);
    let start = Some((n(0.0), n(0.0), n(0.0)));
    assert_eq!(ops.distance_at(0, start).len(), 1);
    assert!(ops.distance_at(0, None).is_empty());
    assert_eq!(length(ops.distance_at(1, start)), 5.0);
    assert_eq!(length(ops.distance_at(2, start)), 11.0);
    let points = ops.distance_at(2, start);
    let ys: Vec<f64> = points.iter().map(|p| v(p.y)).collect();
    assert_eq!(ys, vec![0.0, 4.0, 10.0]);
    assert_eq!(v(points[1].z), 7.0);
}

#[test]
fn polylines_become_moves_and_cuts() {
    let points = vec![(n(0.0), n(1.0), n(2.0)), (n(3.0), n(4.0), n(5.0)), (n(6.0), n(7.0), n(8.0))];
    let ops = PyOps::from_polyline(&points, true, None);
    assert_eq!(ops.len(), 3);
    assert_eq!(ops.indices_of(CommandType::MoveTo), vec![0]);
    assert_eq!(ops.indices_of(CommandType::LineTo), vec![1, 2]);
    assert_eq!(triple(ops.endpoint(2).unwrap()), (6.0, 7.0, 8.0));
    assert_eq!(triple(ops.get_last_move_to()), (0.0, 1.0, 2.0));
    let cuts = PyOps::from_polyline(&points, false, None);
    assert_eq!(cuts.indices_of(CommandType::LineTo), vec![0, 1, 2]);
    assert!(PyOps::from_polyline(&Vec::new(), true, None).is_empty());
}

#[test]
fn changes_make_the_cached_time_stale() {
    let mut ops = PyOps::new();
    ops.inner.time_dirty = false;
    ops.inner.cached_time = n(4.0);
    ops.inner.time_params = Some((n(1.0), n(2.0), n(3.0)));
    assert!(!ops.get__time_dirty());
    ops.extend(None);
    assert!(!ops.get__time_dirty());
    ops.set_power(n(1.0));
    assert!(ops.get__time_dirty());
    assert_eq!(v(ops.get__cached_time()), 4.0);
    assert_eq!(triple(ops.get__time_params().unwrap()), (1.0, 2.0, 3.0));
    ops.inner.time_dirty = false;
    ops.clear();
    assert!(ops.get__time_dirty());
}
