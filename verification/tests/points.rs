use raygeo::binary64::Binary64;
use raygeo::ops::command::Axis;
use raygeo::python::ops::container::PyOps;
use raygeo::python::ops::moving::MovingStep;

fn n(v: f64) -> Binary64 {
    Binary64 { bits: v.to_bits() }
}

fn v(b: Binary64) -> f64 {
    f64::from_bits(b.bits)
}

fn curves() -> PyOps {
    let mut ops = PyOps::new();
    ops.job_start();
    ops.move_to(n(0.0), n(0.0), n(0.0), Some(vec![(Axis { code: 1 }, n(5.0))]));
    ops.set_power(n(1.0));
    ops.arc_to(n(1.0), n(1.0), n(0.5), n(0.25), true, n(1.0), None);
    ops.bezier_to(
        (n(1.0), n(1.0), n(1.0)),
        (n(2.0), n(2.0), n(2.0)),
        (n(3.0), n(3.0), n(3.0)),
        None,
    );
    ops.quadratic_bezier_to((n(4.0), n(4.0), n(4.0)), (n(5.0), n(5.0), n(5.0)), None);
    ops.scan_to(n(6.0), n(6.0), n(6.0), None, None);
    ops
}

fn walk(ops: &PyOps, with_aux: bool) -> Vec<MovingStep> {
    let mut steps: Vec<MovingStep> = Vec::new();
    let mut step = ops.first_point();
    while step != MovingStep::Done {
        steps.push(step);
        step = ops.point_after(step, with_aux);
    }
    steps
}

#[test]
fn every_point_comes_up_once() {
    let ops = curves();
    assert_eq!(
        walk(&ops, true),
        vec![
            MovingStep::Endpoint { index: 1 },
            MovingStep::Endpoint { index: 3 },
            MovingStep::Aux { index: 3, slot: 0 },
            MovingStep::Endpoint { index: 4 },
            MovingStep::Aux { index: 4, slot: 0 },
            MovingStep::Aux { index: 4, slot: 1 },
            MovingStep::Endpoint { index: 5 },
            MovingStep::Aux { index: 5, slot: 0 },
            MovingStep::Endpoint { index: 6 },
        ]
    );
    assert_eq!(walk(&ops, false).len(), 5);
    let mut marks = PyOps::new();
    marks.job_start();
    assert_eq!(marks.first_point(), MovingStep::Done);
    assert_eq!(PyOps::new().first_point(), MovingStep::Done);
    assert_eq!(ops.point_after(MovingStep::Done, true), MovingStep::Done);
}

#[test]
fn points_are_rewritten_in_place() {
    let mut ops = curves();
    let order = walk(&ops, true);
    let mut seen: Vec<MovingStep> = Vec::new();
    let mut step = ops.first_point();
    while step != MovingStep::Done {
        seen.push(step);
        match step {
            MovingStep::Endpoint { index } => {
                let (p, axes) = ops.endpoint_arguments(index);
                let moved: Vec<Binary64> = p.iter().map(|c| n(v(*c) + 10.0)).collect();
                ops.set_endpoint(index, &moved, axes);
            }
            MovingStep::Aux { index, slot } => {
                let p = ops.aux_arguments(index, slot);
                let moved: Vec<Binary64> = p.iter().map(|c| n(v(*c) * 2.0)).collect();
                ops.set_aux(index, slot, &moved);
            }
            MovingStep::Done => unreachable!(),
        }
        step = ops.point_after(step, true);
    }
    assert_eq!(seen, order);
    assert_eq!(v(ops.endpoint(1).unwrap().0), 10.0);
    assert_eq!(v(ops.extra_axes(1).unwrap().unwrap()[0].1), 5.0);
    assert_eq!(v(ops.endpoint(6).unwrap().2), 16.0);
    let (i, j, cw) = ops.arc_params(3).unwrap();
    assert_eq!((v(i), v(j), cw), (1.0, 0.5, true));
    let (c1, c2) = ops.bezier_params(4).unwrap();
    assert_eq!((v(c1.0), v(c2.0)), (2.0, 4.0));
    assert_eq!(v(ops.quadratic_bezier_params(5).unwrap().1), 8.0);
    assert_eq!(ops.scanline_data(6).unwrap(), vec![255]);
    assert!(ops.get__time_dirty());
}

#[test]
fn emptied_axes_are_dropped_and_extra_coordinates_do_not_count() {
    let mut ops = curves();
    ops.set_endpoint(1, &vec![n(1.0), n(2.0), n(3.0), n(4.0)], Vec::new());
    assert!(ops.extra_axes(1).unwrap().is_none());
    assert_eq!(v(ops.endpoint(1).unwrap().2), 3.0);
    ops.set_endpoint(6, &vec![n(0.0), n(0.0), n(0.0)], vec![(Axis { code: 2 }, n(9.0))]);
    assert_eq!(ops.extra_axes(6).unwrap().unwrap().len(), 1);
    let (p, axes) = ops.endpoint_arguments(3);
    assert_eq!(p.len(), 3);
    assert!(axes.is_empty());
    assert_eq!(ops.aux_arguments(3, 0).len(), 2);
    assert_eq!(ops.aux_arguments(4, 1).len(), 3);
}

#[test]
fn an_end_can_change_alone() {
    let mut ops = curves();
    ops.set_end(1, &vec![n(7.0), n(8.0), n(9.0)]);
    assert_eq!(v(ops.endpoint(1).unwrap().1), 8.0);
    assert_eq!(v(ops.extra_axes(1).unwrap().unwrap()[0].1), 5.0);
    ops.move_to(n(0.0), n(0.0), n(0.0), Some(Vec::new()));
    ops.set_end(7, &vec![n(1.0), n(2.0), n(3.0)]);
    assert!(ops.extra_axes(7).unwrap().unwrap().is_empty());
    assert_eq!(v(ops.endpoint(7).unwrap().2), 3.0);
}
