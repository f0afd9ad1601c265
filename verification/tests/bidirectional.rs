use raygeo::binary64::Binary64;
use raygeo::ops::command::{Axis, CommandType};
use raygeo::ops::transform::bidir_scan_offset::{scan_passes, BidirScanOffsetSpec, PassShift};
use raygeo::ops::transform::Phase;
use raygeo::python::ops::container::PyOps;
use raygeo::python::ops::transform::bidir_scan_offset::BidirScanOffsetSpec as PySpec;
use std::collections::hash_map::DefaultHasher;
use std::hash::{Hash, Hasher};

fn n(v: f64) -> Binary64 {
    Binary64 { bits: v.to_bits() }
}

fn v(b: Binary64) -> f64 {
    f64::from_bits(b.bits)
}

/// Measures the passes of a sequence against a scan angle.
fn shifts(ops: &PyOps, offset_mm: f64, angle_deg: f64) -> Vec<PassShift> {
    let angle = angle_deg.to_radians();
    let (rx, ry) = (angle.cos(), -angle.sin());
    let (sx, sy) = (rx * offset_mm, ry * offset_mm);
    scan_passes(&ops.inner)
        .iter()
        .map(|p| {
            let dx = v(p.scan_end.x) - v(p.move_end.x);
            let dy = v(p.scan_end.y) - v(p.move_end.y);
            PassShift {
                along_ref: n(dx * rx + dy * ry),
                move_x: n(v(p.move_end.x) + sx),
                move_y: n(v(p.move_end.y) + sy),
                scan_x: n(v(p.scan_end.x) + sx),
                scan_y: n(v(p.scan_end.y) + sy),
            }
        })
        .collect()
}

fn correct(ops: &mut PyOps, offset_mm: f64, angle_deg: f64) {
    let measured = shifts(ops, offset_mm, angle_deg);
    ops.apply_bidir_scan_offset(n(offset_mm), &measured);
}

fn end(ops: &PyOps, i: isize) -> (f64, f64, f64) {
    let p = ops.endpoint(i).unwrap();
    (v(p.0), v(p.1), v(p.2))
}

/// A pass to the right, one to the left with a state command inside, and a cut.
fn two_passes() -> PyOps {
    let mut ops = PyOps::new();
    ops.move_to(n(0.0), n(0.0), n(1.0), None);
    ops.scan_to(n(10.0), n(0.0), n(1.0), Some(vec![9, 8]), None);
    ops.move_to(n(10.0), n(1.0), n(2.0), Some(vec![(Axis { code: 3 }, n(45.0))]));
    ops.set_power(n(0.5));
    ops.scan_to(n(0.0), n(1.0), n(2.0), Some(vec![7, 6, 5]), Some(vec![(Axis { code: 4 }, n(1.5))]));
    ops.line_to(n(3.0), n(3.0), n(0.0), None);
    ops
}

#[test]
fn only_the_pass_to_the_left_is_shifted() {
    let mut ops = two_passes();
    correct(&mut ops, 0.25, 0.0);
    assert_eq!(ops.len(), 6);
    assert_eq!(end(&ops, 0), (0.0, 0.0, 1.0));
    assert_eq!(end(&ops, 1), (10.0, 0.0, 1.0));
    assert_eq!(end(&ops, 2), (10.25, 1.0, 2.0));
    assert_eq!(v(ops.power(3).unwrap()), 0.5);
    assert_eq!(end(&ops, 4), (0.25, 1.0, 2.0));
    assert_eq!(ops.scanline_data(4).unwrap(), vec![7, 6, 5]);
    assert_eq!(ops.extra_axes(2).unwrap().unwrap()[0].0, Axis { code: 3 });
    assert_eq!(v(ops.extra_axes(4).unwrap().unwrap()[0].1), 1.5);
    assert_eq!(end(&ops, 5), (3.0, 3.0, 0.0));
    let last = ops.get_last_move_to();
    assert_eq!((v(last.0), v(last.1)), (10.25, 1.0));
}

#[test]
fn kinds_and_passes_stay_where_they_are() {
    let before = two_passes();
    let mut after = two_passes();
    correct(&mut after, -2.0, 30.0);
    for i in 0..before.len() as isize {
        assert_eq!(before.command_type(i).unwrap(), after.command_type(i).unwrap());
    }
    let a = scan_passes(&before.inner);
    let b = scan_passes(&after.inner);
    assert_eq!(a.len(), 2);
    assert_eq!(b.len(), 2);
    for (x, y) in a.iter().zip(b.iter()) {
        assert_eq!((x.move_idx, x.scan_idx), (y.move_idx, y.scan_idx));
    }
    assert_eq!((a[0].move_idx, a[0].scan_idx), (0, 1));
    assert_eq!((a[1].move_idx, a[1].scan_idx), (2, 4));
}

#[test]
fn the_opposite_offset_undoes_a_correction() {
    let before = two_passes();
    let mut ops = two_passes();
    correct(&mut ops, 0.25, 0.0);
    assert_ne!(end(&ops, 4), end(&before, 4));
    correct(&mut ops, -0.25, 0.0);
    assert_eq!(ops.len(), before.len());
    for i in [0, 1, 2, 4, 5] {
        assert_eq!(end(&ops, i), end(&before, i));
    }
    assert_eq!(v(ops.power(3).unwrap()), 0.5);
    assert_eq!(ops.scanline_data(4).unwrap(), before.scanline_data(4).unwrap());
    assert_eq!(v(ops.extra_axes(4).unwrap().unwrap()[0].1), 1.5);
}

#[test]
fn the_last_of_two_corrections_decides() {
    let mut twice = two_passes();
    let shift = |x: f64| PassShift {
        along_ref: n(-1.0),
        move_x: n(x),
        move_y: n(x),
        scan_x: n(x + 1.0),
        scan_y: n(x + 1.0),
    };
    let with = PassShift { along_ref: n(1.0), ..shift(0.0) };
    twice.apply_bidir_scan_offset(n(1.0), &vec![with, shift(20.0)]);
    twice.apply_bidir_scan_offset(n(1.0), &vec![with, shift(30.0)]);
    assert_eq!(end(&twice, 1), (10.0, 0.0, 1.0));
    assert_eq!(end(&twice, 2), (30.0, 30.0, 2.0));
    assert_eq!(end(&twice, 4), (31.0, 31.0, 2.0));
}

#[test]
fn vertical_passes_are_told_apart_by_the_angle() {
    let mut ops = PyOps::new();
    ops.move_to(n(0.0), n(0.0), n(0.0), None);
    ops.scan_to(n(0.0), n(-10.0), n(0.0), None, None);
    ops.move_to(n(1.0), n(-10.0), n(0.0), None);
    ops.scan_to(n(1.0), n(0.0), n(0.0), None, None);
    correct(&mut ops, 2.0, 90.0);
    assert_eq!(end(&ops, 0), (0.0, 0.0, 0.0));
    assert_eq!(end(&ops, 1), (0.0, -10.0, 0.0));
    assert!((end(&ops, 2).1 - -12.0).abs() < 1e-12);
    assert!((end(&ops, 3).1 - -2.0).abs() < 1e-12);
}

#[test]
fn diagonal_passes_follow_the_flipped_direction() {
    let mut ops = PyOps::new();
    ops.move_to(n(10.0), n(-10.0), n(0.0), None);
    ops.scan_to(n(0.0), n(0.0), n(0.0), None, None);
    correct(&mut ops, 1.0, 45.0);
    let d = 0.5_f64.sqrt();
    assert!((end(&ops, 0).0 - (10.0 + d)).abs() < 1e-12);
    assert!((end(&ops, 0).1 - (-10.0 - d)).abs() < 1e-12);
    assert!((end(&ops, 1).0 - d).abs() < 1e-12);
}

#[test]
fn a_pass_without_length_stays() {
    let mut ops = PyOps::new();
    ops.move_to(n(5.0), n(5.0), n(0.0), None);
    ops.scan_to(n(5.0), n(5.0), n(0.0), None, None);
    correct(&mut ops, 1.0, 0.0);
    assert_eq!(end(&ops, 0), (5.0, 5.0, 0.0));
    assert_eq!(end(&ops, 1), (5.0, 5.0, 0.0));
}

#[test]
fn no_offset_and_no_commands_change_nothing() {
    let mut ops = two_passes();
    ops.inner.time_dirty = false;
    ops.apply_bidir_scan_offset(n(0.0), &Vec::new());
    ops.apply_bidir_scan_offset(n(-0.0), &Vec::new());
    assert!(!ops.get__time_dirty());
    assert_eq!(end(&ops, 2), (10.0, 1.0, 2.0));
    let mut empty = PyOps::new();
    empty.apply_bidir_scan_offset(n(1.0), &Vec::new());
    assert!(empty.is_empty());
}

#[test]
fn a_marker_or_a_second_move_breaks_a_pass() {
    let mut ops = PyOps::new();
    ops.move_to(n(9.0), n(0.0), n(0.0), None);
    ops.job_start();
    ops.scan_to(n(0.0), n(0.0), n(0.0), None, None);
    ops.move_to(n(8.0), n(0.0), n(0.0), None);
    ops.move_to(n(7.0), n(0.0), n(0.0), None);
    ops.scan_to(n(0.0), n(0.0), n(0.0), None, None);
    ops.move_to(n(6.0), n(0.0), n(0.0), None);
    ops.set_power(n(1.0));
    let found = scan_passes(&ops.inner);
    assert_eq!(found.len(), 1);
    assert_eq!((found[0].move_idx, found[0].scan_idx), (4, 5));
    correct(&mut ops, 1.0, 0.0);
    assert_eq!(end(&ops, 0).0, 9.0);
    assert_eq!(end(&ops, 2).0, 0.0);
    assert_eq!(end(&ops, 3).0, 8.0);
    assert_eq!(end(&ops, 4).0, 8.0);
    assert_eq!(end(&ops, 5).0, 1.0);
    assert_eq!(end(&ops, 6).0, 6.0);
    assert_eq!(ops.command_type(7).unwrap(), CommandType::SetPower);
}

fn expected_key(offset_mm: f64) -> u64 {
    let mut h = DefaultHasher::new();
    "bidir_scan_offset".hash(&mut h);
    offset_mm.to_bits().hash(&mut h);
    h.finish()
}

#[test]
fn the_cache_key_hashes_the_name_and_the_offset() {
    let spec = BidirScanOffsetSpec { offset_mm: n(0.125), scan_angle_deg: n(30.0) };
    assert_eq!(spec.cache_key(), expected_key(0.125));
    let turned = BidirScanOffsetSpec { offset_mm: n(0.125), scan_angle_deg: n(60.0) };
    assert_eq!(turned.cache_key(), spec.cache_key());
    let other = BidirScanOffsetSpec { offset_mm: n(-0.125), scan_angle_deg: n(30.0) };
    assert_eq!(other.cache_key(), expected_key(-0.125));
    assert_ne!(other.cache_key(), spec.cache_key());
    assert_ne!(spec.cache_key(), DefaultHasher::new().finish());
}

#[test]
fn the_correction_is_a_transformer() {
    let spec = PySpec::new(n(0.25), n(0.0)).into_core();
    assert_eq!(spec.phase(), Phase::PostProcessing);
    assert_eq!(spec.name(), "bidir_scan_offset");
    let mut ops = two_passes();
    let measured = shifts(&ops, 0.25, 0.0);
    spec.apply(&mut ops.inner, &measured);
    assert_eq!(end(&ops, 2), (10.25, 1.0, 2.0));
}

#[test]
fn parameters_are_equal_as_numbers_are() {
    assert!(PySpec::new(n(0.0), n(1.0)) == PySpec::new(n(-0.0), n(1.0)));
    assert!(PySpec::new(n(0.5), n(1.0)) != PySpec::new(n(0.5), n(2.0)));
    assert!(PySpec::new(n(f64::NAN), n(1.0)) != PySpec::new(n(f64::NAN), n(1.0)));
    let core = PySpec::new(n(0.5), n(1.0)).into_core();
    assert!(core == BidirScanOffsetSpec { offset_mm: n(0.5), scan_angle_deg: n(1.0) });
    assert!(core != BidirScanOffsetSpec { offset_mm: n(0.75), scan_angle_deg: n(1.0) });
}
