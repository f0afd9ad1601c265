use raygeo::binary64::Binary64;
use raygeo::error::{ErrorKind, PyError};
use raygeo::ops::command::CommandType;
use raygeo::python::ops::container::PyOps;

fn n(v: f64) -> Binary64 {
    Binary64 { bits: v.to_bits() }
}

fn v(b: Binary64) -> f64 {
    f64::from_bits(b.bits)
}

fn message<T>(r: Result<T, PyError>, kind: ErrorKind) -> String {
    match r {
        Ok(_) => panic!("no error"),
        Err(e) => {
            assert_eq!(e.kind, kind);
            e.message
        }
    }
}

fn kinds(ops: &PyOps) -> Vec<CommandType> {
    (0..ops.len()).map(|i| ops.command_type(i as isize).unwrap()).collect()
}

fn line(xs: &[f64]) -> PyOps {
    let mut ops = PyOps::new();
    for x in xs {
        ops.line_to(n(*x), n(0.0), n(0.0), None);
    }
    ops
}

fn xs(ops: &PyOps) -> Vec<f64> {
    (0..ops.len()).map(|i| v(ops.endpoint(i as isize).unwrap().0)).collect()
}

#[test]
fn sequences_are_added_and_repeated() {
    let a = line(&[1.0, 2.0]);
    let b = line(&[3.0]);
    assert_eq!(xs(&a.__add__(&b)), vec![1.0, 2.0, 3.0]);
    assert_eq!(xs(&a.__mul__(3)), vec![1.0, 2.0, 1.0, 2.0, 1.0, 2.0]);
    assert!(a.__mul__(0).is_empty());
    assert_eq!(a.__mul__(1).len(), 2);
    assert_eq!(xs(&a), vec![1.0, 2.0]);
}

#[test]
fn a_copy_is_independent() {
    let mut a = line(&[1.0]);
    let b = a.copy();
    let c = a.clone();
    a.line_to(n(2.0), n(0.0), n(0.0), None);
    assert_eq!(xs(&a), vec![1.0, 2.0]);
    assert_eq!(xs(&b), vec![1.0]);
    assert_eq!(xs(&c), vec![1.0]);
}

#[test]
fn commands_are_taken_from_another_sequence() {
    let source = line(&[1.0, 2.0, 3.0]);
    let mut ops = PyOps::new();
    ops.copy_command_from(&source, 2);
    ops.transfer_command_from(&source, 0);
    ops.extend(Some(&source));
    ops.extend(None);
    assert_eq!(xs(&ops), vec![3.0, 1.0, 1.0, 2.0, 3.0]);
    assert_eq!(source.len(), 3);
    let mut moved = PyOps::new();
    moved.move_to(n(4.0), n(5.0), n(6.0), None);
    ops.copy_command_from(&moved, 0);
    assert_eq!(v(ops.get_last_move_to().0), 4.0);
    ops.replace_all(&source);
    assert_eq!(xs(&ops), vec![1.0, 2.0, 3.0]);
    ops.replace_with(&moved);
    assert_eq!(xs(&ops), vec![4.0]);
    ops.clear();
    assert!(ops.is_empty());
}

#[test]
fn replacing_all_commands_moves_the_last_travel_point() {
    let mut moved = PyOps::new();
    moved.move_to(n(4.0), n(5.0), n(6.0), None);
    let mut a = PyOps::new();
    a.replace_all(&moved);
    assert_eq!(v(a.get_last_move_to().0), 4.0);
    let mut b = PyOps::new();
    b.replace_with(&moved);
    assert_eq!(v(b.get_last_move_to().0), 0.0);
    assert!(b.get__time_dirty());
}

#[test]
fn ranges_and_selections_agree() {
    let ops = line(&[0.0, 1.0, 2.0, 3.0, 4.0]);
    assert_eq!(xs(&ops.extract_range(1, 4)), vec![1.0, 2.0, 3.0]);
    assert_eq!(xs(&ops.sub_ops(&vec![1, 2, 3])), vec![1.0, 2.0, 3.0]);
    assert_eq!(xs(&ops.sub_ops(&vec![4, 0, 0])), vec![4.0, 0.0, 0.0]);
    assert!(ops.extract_range(2, 2).is_empty());
    let joined = ops.extract_range(0, 2).__add__(&ops.extract_range(2, 5));
    assert_eq!(xs(&joined), xs(&ops));
}

/// A cut, a layer of two commands, a cut, an empty layer, and a layer that does not end.
fn layered() -> PyOps {
    let mut ops = PyOps::new();
    ops.line_to(n(1.0), n(0.0), n(0.0), None);
    ops.layer_start("a");
    ops.line_to(n(2.0), n(0.0), n(0.0), None);
    ops.set_power(n(1.0));
    ops.layer_end("a");
    ops.line_to(n(3.0), n(0.0), n(0.0), None);
    ops.layer_start("b");
    ops.layer_end("b");
    ops.layer_start("c");
    ops.line_to(n(4.0), n(0.0), n(0.0), None);
    ops
}

#[test]
fn pieces_put_together_give_the_sequence() {
    let ops = layered();
    let pieces = ops.split_at(0, Some(CommandType::LayerStart), "").unwrap();
    let lengths: Vec<usize> = pieces.iter().map(|p| p.len()).collect();
    assert_eq!(lengths, vec![1, 4, 1, 2, 2]);
    let mut all = PyOps::new();
    for piece in &pieces {
        all.extend(Some(piece));
    }
    assert_eq!(kinds(&all), kinds(&ops));
    assert_eq!(pieces[1].command_type(0).unwrap(), CommandType::LayerStart);
    assert_eq!(pieces[1].command_type(-1).unwrap(), CommandType::LayerEnd);
    assert_eq!(pieces[1].layer_uid(0).unwrap(), "a");
    assert_eq!(pieces[3].layer_uid(0).unwrap(), "b");
}

#[test]
fn a_sequence_without_pairs_is_one_piece() {
    let ops = layered();
    for kind in [CommandType::JobStart, CommandType::WorkpieceStart, CommandType::OpsSectionStart] {
        let pieces = ops.split_at(0, Some(kind), "").unwrap();
        assert_eq!(pieces.len(), 1);
        assert_eq!(pieces[0].len(), ops.len());
    }
    assert!(PyOps::new().split_at(0, Some(CommandType::JobStart), "").unwrap().is_empty());
}

#[test]
fn other_markers_do_not_split() {
    let ops = layered();
    assert_eq!(
        message(ops.split_at(200, None, ""), ErrorKind::Value),
        "invalid CommandType value: 200"
    );
    assert_eq!(
        message(ops.split_at(3, Some(CommandType::LayerEnd), "LAYER_END"), ErrorKind::Value),
        "unsupported marker type: LAYER_END. Use LAYER_START, WORKPIECE_START, OPS_SECTION_START, \
         or JOB_START"
    );
    assert!(ops.split_at(0, Some(CommandType::StateBlockStart), "x").is_err());
}

/// Runs a rewriting of all layers.
fn rewrite(ops: &mut PyOps, f: fn(&str, &mut PyOps)) -> Vec<String> {
    let mut seen: Vec<String> = Vec::new();
    let mut from = 0;
    while let Some(span) = ops.next_layer(from) {
        let mut layer = ops.extract_range(span.start, span.end);
        f(&span.uid, &mut layer);
        seen.push(span.uid);
        from = ops.replace_layer(span.start, span.end, &layer);
    }
    ops.finish_rewrite();
    seen
}

#[test]
fn layers_are_rewritten_one_by_one() {
    let mut ops = layered();
    let seen = rewrite(&mut ops, |uid, layer| {
        if uid == "a" {
            layer.layer_start("nested");
        } else if uid == "b" {
            layer.clear();
        }
    });
    assert_eq!(seen, vec!["a", "b", "c"]);
    assert_eq!(ops.len(), 9);
    assert_eq!(ops.layer_uid(5).unwrap(), "nested");
    assert_eq!(ops.indices_of(CommandType::LayerStart), vec![1, 5, 7]);
    assert!(ops.get__time_dirty());
}

#[test]
fn layers_given_back_unchanged_change_nothing() {
    let before = layered();
    let mut ops = layered();
    rewrite(&mut ops, |_, _| {});
    assert_eq!(kinds(&ops), kinds(&before));
    let mut plain = line(&[1.0, 2.0]);
    assert!(rewrite(&mut plain, |_, layer| layer.clear()).is_empty());
    assert_eq!(xs(&plain), vec![1.0, 2.0]);
}

#[test]
fn equal_layers_get_replies_of_their_own() {
    let mut ops = PyOps::new();
    for _ in 0..2 {
        ops.layer_start("same");
        ops.layer_end("same");
    }
    let replies = [line(&[1.0, 2.0]), line(&[3.0])];
    let mut from = 0;
    let mut used = 0;
    while let Some(span) = ops.next_layer(from) {
        from = ops.replace_layer(span.start, span.end, &replies[used]);
        used += 1;
    }
    assert_eq!(used, 2);
    assert_eq!(xs(&ops), vec![1.0, 2.0, 3.0]);
}
