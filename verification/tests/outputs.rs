use raygeo::binary64::{Binary32, Binary64};
use raygeo::error::{ErrorKind, PyError};
use raygeo::ops::transform::{next_transformer, order_by_phase, Phase};
use raygeo::python::ops::container::PyOps;
use raygeo::python::ops::gcode::{
    machine_code_to_op_to_pybytes, op_line_ranges_to_pybytes, OpLineRange,
};
use raygeo::python::ops::geometry::{
    clip_points, matrix_columns, polygons_from_tuples, rect_or_zero,
};
use raygeo::python::ops::scene::{
    py_scene_data_to_object, scene_spec, CompiledSceneData, LayerInfo, LayerOptions, VertexGroup,
};
use raygeo::python::ops::timing::{find_index_at_time, get_cumulative_time_at};

fn n(v: f64) -> Binary64 {
    Binary64 { bits: v.to_bits() }
}

fn v(b: Binary64) -> f64 {
    f64::from_bits(b.bits)
}

fn s(v: f32) -> Binary32 {
    Binary32 { bits: v.to_bits() }
}

fn message<T>(r: Result<T, PyError>, kind: ErrorKind) -> String {
    match r {
        Ok(_) => panic!("no error"),
        Err(e) => {
            assert_eq!(e.kind, kind);
            e.message
        }
    }
}

#[test]
fn line_ranges_become_pairs_of_words() {
    let ranges =
        vec![OpLineRange { start: 1, len: 2 }, OpLineRange { start: 0x0102_0304, len: u32::MAX }];
    let little = op_line_ranges_to_pybytes(&ranges, false);
    let mut expected: Vec<u8> = Vec::new();
    for w in [1u32, 2, 0x0102_0304, u32::MAX] {
        expected.extend_from_slice(&w.to_le_bytes());
    }
    assert_eq!(little, expected);
    let big = op_line_ranges_to_pybytes(&ranges, true);
    let mut expected: Vec<u8> = Vec::new();
    for w in [1u32, 2, 0x0102_0304, u32::MAX] {
        expected.extend_from_slice(&w.to_be_bytes());
    }
    assert_eq!(big, expected);
    assert!(op_line_ranges_to_pybytes(&Vec::new(), false).is_empty());
}

#[test]
fn lines_without_a_command_read_as_minus_one() {
    let none = usize::MAX;
    let list = vec![0, none, 7, 0x7fff_ffff, 0x1_0000_0005];
    let bytes = machine_code_to_op_to_pybytes(&list, none, false);
    let read: Vec<i32> = bytes
        .chunks(4)
        .map(|c| i32::from_le_bytes([c[0], c[1], c[2], c[3]]))
        .collect();
    assert_eq!(read, vec![0, -1, 7, i32::MAX, 0x1_0000_0005usize as i32]);
    let bytes = machine_code_to_op_to_pybytes(&list, none, true);
    assert_eq!(&bytes[8..12], &[0, 0, 0, 7]);
}

#[test]
fn the_command_at_a_time_is_the_last_that_has_ended() {
    let times: Vec<Binary64> = [1.0, 1.0, 2.5, 4.0].iter().map(|t| n(*t)).collect();
    for (t, index) in [(0.0, 0), (1.0, 1), (2.0, 1), (2.5, 2), (3.9, 2), (4.0, 3), (99.0, 3)] {
        assert_eq!(find_index_at_time(&times, n(t)), index, "{t}");
    }
    assert_eq!(find_index_at_time(&times, n(f64::NAN)), 0);
    assert_eq!(find_index_at_time(&Vec::new(), n(1.0)), 0);
    for i in 0..4 {
        let t = get_cumulative_time_at(&times, i);
        assert!(find_index_at_time(&times, t) >= i);
    }
}

#[test]
fn times_past_the_end_are_clamped() {
    let times: Vec<Binary64> = [1.0, 3.0].iter().map(|t| n(*t)).collect();
    assert_eq!(v(get_cumulative_time_at(&times, 0)), 1.0);
    assert_eq!(v(get_cumulative_time_at(&times, 1)), 3.0);
    assert_eq!(v(get_cumulative_time_at(&times, 50)), 3.0);
    assert_eq!(v(get_cumulative_time_at(&Vec::new(), 2)), 0.0);
}

#[test]
fn transformers_run_phase_by_phase() {
    let phases = vec![
        Phase::PostProcessing,
        Phase::GeometryRefinement,
        Phase::PathInterruption,
        Phase::PostProcessing,
        Phase::GeometryRefinement,
    ];
    let order = order_by_phase(&phases);
    assert_eq!(order, vec![1, 4, 2, 0, 3]);
    let mut ran: Vec<usize> = Vec::new();
    while let Some(i) = next_transformer(&order, ran.len(), false).unwrap() {
        ran.push(i);
    }
    assert_eq!(ran, order);
    assert_eq!(
        message(next_transformer(&order, 2, true), ErrorKind::Runtime),
        "apply_transformers cancelled"
    );
    assert_eq!(next_transformer(&order, 5, true).unwrap(), None);
    assert!(order_by_phase(&Vec::new()).is_empty());
}

#[test]
fn a_matrix_must_be_four_by_four() {
    let rows: Vec<Vec<Binary64>> =
        (0..4).map(|i| (0..4).map(|j| n((10 * i + j) as f64)).collect()).collect();
    let columns = matrix_columns(Some(&rows)).unwrap();
    for i in 0..4 {
        for j in 0..4 {
            assert_eq!(v(columns[j][i]), (10 * i + j) as f64);
        }
    }
    let text = "transform requires a 4x4 matrix";
    assert_eq!(message(matrix_columns(Some(&rows[..3].to_vec())), ErrorKind::Value), text);
    let mut ragged = rows.clone();
    ragged[2].push(n(0.0));
    assert_eq!(message(matrix_columns(Some(&ragged)), ErrorKind::Value), text);
    assert_eq!(
        message(matrix_columns(None), ErrorKind::Type),
        "expected a Matrix or a 4x4 list of lists"
    );
}

#[test]
fn only_moves_can_be_made_straight() {
    let mut ops = PyOps::new();
    ops.move_to(n(0.0), n(0.0), n(0.0), None);
    ops.scan_to(n(0.0), n(0.0), n(0.0), None, None);
    ops.set_power(n(1.0));
    ops.workpiece_end("w");
    assert!(ops.check_linearize(0).is_ok());
    assert!(ops.check_linearize(1).is_ok());
    assert_eq!(
        message(ops.check_linearize(2), ErrorKind::Type),
        "Cannot linearize command at index 2: SetPower"
    );
    assert_eq!(
        message(ops.check_linearize(3), ErrorKind::Type),
        "Cannot linearize command at index 3: WorkpieceEnd"
    );
}

#[test]
fn points_and_rectangles_are_converted() {
    let tabs = clip_points(&vec![(n(1.0), n(2.0), n(3.0)), (n(4.0), n(5.0), n(6.0))]);
    assert_eq!(tabs.len(), 2);
    assert_eq!((v(tabs[1].x), v(tabs[1].y), v(tabs[1].width)), (4.0, 5.0, 6.0));
    let polygons = polygons_from_tuples(&vec![vec![(n(1.0), n(2.0)), (n(3.0), n(4.0))], vec![]]);
    assert_eq!(polygons.len(), 2);
    assert_eq!((v(polygons[0][1].x), v(polygons[0][1].y)), (3.0, 4.0));
    assert!(polygons[1].is_empty());
    let r = rect_or_zero(Some((n(1.0), n(2.0), n(3.0), n(4.0))));
    assert_eq!((v(r.0), v(r.3)), (1.0, 4.0));
    let z = rect_or_zero(None);
    assert_eq!((v(z.0), v(z.1), v(z.2), v(z.3)), (0.0, 0.0, 0.0, 0.0));
}

#[test]
fn scene_settings_have_defaults() {
    let rows = vec![vec![s(1.0), s(2.0)], vec![s(3.0), s(4.0), s(5.0), s(6.0), s(7.0)]];
    let none = LayerOptions {
        rotary_enabled: None,
        rotary_diameter: None,
        axis_position: None,
        reverse: None,
    };
    let some = LayerOptions {
        rotary_enabled: Some(true),
        rotary_diameter: Some(n(20.0)),
        axis_position: Some(n(1.5)),
        reverse: Some(true),
    };
    let layers =
        vec![("a".to_string(), some), ("b".to_string(), none), ("a".to_string(), none)];
    let spec = scene_spec(&rows, &layers);
    assert_eq!(spec.world_to_visual.len(), 4);
    let table: Vec<Vec<f32>> = spec
        .world_to_visual
        .iter()
        .map(|r| r.iter().map(|x| f32::from_bits(x.bits)).collect())
        .collect();
    assert_eq!(table[0], vec![1.0, 2.0, 0.0, 0.0]);
    assert_eq!(table[1], vec![3.0, 4.0, 5.0, 6.0]);
    assert_eq!(table[3], vec![0.0, 0.0, 0.0, 0.0]);
    let a = spec.layer_configs.get("a").unwrap();
    assert!(!a.rotary_enabled && !a.reverse);
    assert_eq!((v(a.rotary_diameter), v(a.axis_position)), (0.0, 0.0));
    assert!(spec.layer_configs.get("c").is_none());
    let kept = scene_spec(&rows, &vec![("a".to_string(), some)]);
    let a = kept.layer_configs.get("a").unwrap();
    assert!(a.rotary_enabled && a.reverse);
    assert_eq!((v(a.rotary_diameter), v(a.axis_position)), (20.0, 1.5));
}

#[test]
fn a_compiled_scene_is_handed_out_in_order() {
    let group = |x: f32| VertexGroup {
        is_rotary: x > 1.5,
        powered_verts: vec![s(x)],
        powered_attrib: vec![s(x + 0.1)],
        travel_verts: vec![s(x + 0.2)],
        zero_power_verts: vec![s(x + 0.3)],
        powered_cmd_offsets: vec![1, 2],
        travel_cmd_offsets: vec![3],
        overlay_positions: vec![s(x + 0.4)],
        overlay_attrib: vec![s(x + 0.5)],
        overlay_cmd_offsets: vec![4],
    };
    let data = CompiledSceneData {
        groups: vec![group(1.0), group(2.0)],
        layer_infos: vec![LayerInfo {
            cmd_start: 1,
            cmd_end: 9,
            is_rotary: true,
            diameter: n(5.0),
            has_scanlines: true,
            scanline_laser: "laser".to_string(),
            activation_cmd_idx: 2,
            axis_position: n(6.0),
            reverse: true,
        }],
        laser_uid_order: vec!["laser".to_string(), "other".to_string()],
    };
    let scene = py_scene_data_to_object(data);
    assert_eq!(scene.groups.len(), 2);
    assert!(!scene.groups[0].is_rotary && scene.groups[1].is_rotary);
    assert_eq!(scene.groups[1].powered_verts[0].bits, 2.0f32.to_bits());
    assert_eq!(scene.groups[1].overlay_attrib[0].bits, 2.5f32.to_bits());
    assert_eq!(scene.groups[0].powered_cmd_offsets, vec![1, 2]);
    assert_eq!(scene.groups[0].travel_cmd_offsets, vec![3]);
    assert_eq!(scene.groups[0].overlay_cmd_offsets, vec![4]);
    let layer = &scene.layer_infos[0];
    assert_eq!((layer.cmd_start, layer.cmd_end, layer.activation_cmd_idx), (1, 9, 2));
    assert_eq!((v(layer.diameter), v(layer.axis_position)), (5.0, 6.0));
    assert!(layer.is_rotary && layer.has_scanlines && layer.reverse);
    assert_eq!(layer.scanline_laser, "laser");
    assert_eq!(scene.laser_uid_order, vec!["laser", "other"]);
}
