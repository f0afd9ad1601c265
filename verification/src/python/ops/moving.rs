//! Rewriting the points of moving commands one by one.
//!
//! The caller asks which point comes first, hands its coordinates out, and gives back what they
//! became; the answer names the point that comes next.
use crate::binary64::Binary64;
use crate::ops::command::{
    copy_optional_axes, copy_optional_state, Axis, CommandModel, MoveCmd, MoveModel, OpCategory,
    OpNode, Point, Point3D, StateModel,
};
use crate::ops::container::axes_of;
use crate::python::ops::container::PyOps;
use vstd::prelude::*;

verus! {

/// The point that comes next.
#[derive(Clone, Copy, Debug, PartialEq, Eq, Structural)]
pub enum MovingStep {
    /// The end of a moving command, together with its extra axes.
    Endpoint { index: usize },
    /// A center offset or control point of a curve.
    Aux { index: usize, slot: usize },
    /// None.
    Done,
}

/// The first index from `from` on that holds a moving command; the length if there is none.
pub open spec fn find_moving(cs: Seq<CommandModel>, from: int) -> int
    decreases cs.len() - from,
{
    if from >= cs.len() {
        cs.len() as int
    } else if cs[from] is Moving {
        from
    } else {
        find_moving(cs, from + 1)
    }
}

/// The step at the first moving command from `from` on.
pub open spec fn step_from(cs: Seq<CommandModel>, from: int) -> MovingStep {
    let i = find_moving(cs, from);
    if i < cs.len() {
        MovingStep::Endpoint { index: i as usize }
    } else {
        MovingStep::Done
    }
}

/// How many points besides its end a move has.
pub open spec fn aux_count(c: CommandModel) -> int {
    match c {
        CommandModel::Moving { cmd: MoveModel::ArcTo { .. }, .. } => 1,
        CommandModel::Moving { cmd: MoveModel::BezierTo { .. }, .. } => 2,
        CommandModel::Moving { cmd: MoveModel::QuadraticBezierTo { .. }, .. } => 1,
        _ => 0,
    }
}

/// The coordinates of such a point: two of a center offset, three of a control point.
pub open spec fn aux_coordinates(c: CommandModel, slot: int) -> Seq<Binary64> {
    match c->cmd {
        MoveModel::ArcTo { center, .. } => seq![center.x, center.y],
        MoveModel::BezierTo { control1, control2 } => if slot == 0 {
            seq![control1.x, control1.y, control1.z]
        } else {
            seq![control2.x, control2.y, control2.z]
        },
        MoveModel::QuadraticBezierTo { control } => seq![control.x, control.y, control.z],
        _ => Seq::empty(),
    }
}

/// The point that three coordinates name; further ones do not count.
pub open spec fn point_at(p: Seq<Binary64>) -> Point3D {
    Point3D { x: p[0], y: p[1], z: p[2] }
}

/// A move with another such point.
pub open spec fn with_aux(c: CommandModel, slot: int, p: Seq<Binary64>) -> CommandModel {
    match c {
        CommandModel::Moving { cmd, end, extra_axes, state } => {
            let changed = match cmd {
                MoveModel::ArcTo { cw, .. } => MoveModel::ArcTo {
                    center: Point { x: p[0], y: p[1] },
                    cw,
                },
                MoveModel::BezierTo { control1, control2 } => if slot == 0 {
                    MoveModel::BezierTo { control1: point_at(p), control2 }
                } else {
                    MoveModel::BezierTo { control1, control2: point_at(p) }
                },
                MoveModel::QuadraticBezierTo { .. } => MoveModel::QuadraticBezierTo {
                    control: point_at(p),
                },
                _ => cmd,
            };
            CommandModel::Moving { cmd: changed, end, extra_axes, state }
        },
        _ => c,
    }
}

/// A move with another end and other extra axes; an empty list of axes means none.
pub open spec fn with_endpoint(
    c: CommandModel,
    p: Seq<Binary64>,
    axes: Seq<(Axis, Binary64)>,
) -> CommandModel {
    match c {
        CommandModel::Moving { cmd, state, .. } => CommandModel::Moving {
            cmd,
            end: point_at(p),
            extra_axes: if axes.len() == 0 {
                None
            } else {
                Some(axes)
            },
            state,
        },
        _ => c,
    }
}

/// A move with another end alone.
pub open spec fn with_end(c: CommandModel, p: Seq<Binary64>) -> CommandModel {
    match c {
        CommandModel::Moving { cmd, extra_axes, state, .. } => CommandModel::Moving {
            cmd,
            end: point_at(p),
            extra_axes,
            state,
        },
        _ => c,
    }
}

/// The step after another. The points besides the ends come up only if they are wanted.
pub open spec fn step_after(
    cs: Seq<CommandModel>,
    step: MovingStep,
    with_aux_points: bool,
) -> MovingStep {
    match step {
        MovingStep::Endpoint { index } => if with_aux_points && aux_count(cs[index as int]) > 0 {
            MovingStep::Aux { index, slot: 0 }
        } else {
            step_from(cs, index + 1)
        },
        MovingStep::Aux { index, slot } => if slot + 1 < aux_count(cs[index as int]) {
            MovingStep::Aux { index, slot: (slot + 1) as usize }
        } else {
            step_from(cs, index + 1)
        },
        MovingStep::Done => MovingStep::Done,
    }
}

/// Whether a step names a point that is there.
pub open spec fn step_valid(cs: Seq<CommandModel>, step: MovingStep) -> bool {
    match step {
        MovingStep::Endpoint { index } => index < cs.len() && cs[index as int] is Moving,
        MovingStep::Aux { index, slot } => index < cs.len() && slot < aux_count(cs[index as int]),
        MovingStep::Done => true,
    }
}

impl PyOps {
    fn step_at_or_after(&self, from: usize) -> (r: MovingStep)
        requires
            from <= self@.commands.len(),
        ensures
            r == step_from(self@.commands, from as int),
            step_valid(self@.commands, r),
    {
        let mut i: usize = from;
        while i < self.inner.len() && !self.inner.commands[i].is_moving()
            invariant
                from <= i <= self@.commands.len(),
                find_moving(self@.commands, from as int) == find_moving(
                    self@.commands,
                    i as int,
                ),
            decreases self@.commands.len() - i,
        {
            i += 1;
        }
        if i < self.inner.len() {
            MovingStep::Endpoint { index: i }
        } else {
            MovingStep::Done
        }
    }

    fn aux_points(&self, index: usize) -> (r: usize)
        requires
            index < self@.commands.len(),
        ensures
            r == aux_count(self@.commands[index as int]),
    {
        match &self.inner.commands[index].category {
            OpCategory::Moving { cmd, .. } => match cmd {
                MoveCmd::ArcTo { .. } => 1,
                MoveCmd::BezierTo { .. } => 2,
                MoveCmd::QuadraticBezierTo { .. } => 1,
                _ => 0,
            },
            _ => 0,
        }
    }

    /// The point that comes first.
    pub fn first_point(&self) -> (r: MovingStep)
        ensures
            r == step_from(self@.commands, 0),
            step_valid(self@.commands, r),
    {
        self.step_at_or_after(0)
    }

    /// The point that comes after another.
    pub fn point_after(&self, step: MovingStep, with_aux_points: bool) -> (r: MovingStep)
        requires
            step_valid(self@.commands, step),
        ensures
            r == step_after(self@.commands, step, with_aux_points),
            step_valid(self@.commands, r),
    {
        assert(self@.commands.len() == self.inner.commands.len());
        match step {
            MovingStep::Endpoint { index } => if with_aux_points && self.aux_points(index) > 0 {
                MovingStep::Aux { index, slot: 0 }
            } else {
                self.step_at_or_after(index + 1)
            },
            MovingStep::Aux { index, slot } => if slot + 1 < self.aux_points(index) {
                MovingStep::Aux { index, slot: slot + 1 }
            } else {
                self.step_at_or_after(index + 1)
            },
            MovingStep::Done => MovingStep::Done,
        }
    }

    /// The coordinates of the end of a moving command, and its extra axes; none are an empty
    /// list.
    pub fn endpoint_arguments(&self, index: usize) -> (r: (Vec<Binary64>, Vec<(Axis, Binary64)>))
        requires
            step_valid(self@.commands, MovingStep::Endpoint { index }),
        ensures
            ({
                let c = self@.commands[index as int];
                &&& r.0@ == seq![c.end_point().x, c.end_point().y, c.end_point().z]
                &&& r.1@ == match axes_of(c) {
                    Some(axes) => axes,
                    None => Seq::empty(),
                }
            }),
    {
        let end = self.inner.endpoint(index);
        let mut p: Vec<Binary64> = Vec::new();
        p.push(end.x);
        p.push(end.y);
        p.push(end.z);
        let axes = match self.inner.extra_axes(index) {
            Some(axes) => axes,
            None => Vec::new(),
        };
        proof {
            assert(p@ =~= seq![end.x, end.y, end.z]);
        }
        (p, axes)
    }

    /// Gives a moving command another end and other extra axes.
    pub fn set_endpoint(&mut self, index: usize, end: &Vec<Binary64>, axes: Vec<(Axis, Binary64)>)
        requires
            step_valid(old(self)@.commands, MovingStep::Endpoint { index }),
            end@.len() >= 3,
        ensures
            final(self)@ == old(self)@.with_commands(
                old(self)@.commands.update(
                    index as int,
                    with_endpoint(old(self)@.commands[index as int], end@, axes@),
                ),
            ),
    {
        if let OpCategory::Moving { cmd, state, .. } = &self.inner.commands[index].category {
            let extra_axes = if axes.len() == 0 {
                None
            } else {
                Some(axes)
            };
            let node = OpNode {
                category: OpCategory::Moving {
                    cmd: cmd.clone(),
                    end: Point3D { x: end[0], y: end[1], z: end[2] },
                    extra_axes,
                    state: copy_optional_state(state),
                },
            };
            self.inner.set_node(index, node);
        }
    }

    /// Gives a moving command another end, and leaves its extra axes as they are.
    pub fn set_end(&mut self, index: usize, end: &Vec<Binary64>)
        requires
            step_valid(old(self)@.commands, MovingStep::Endpoint { index }),
            end@.len() >= 3,
        ensures
            final(self)@ == old(self)@.with_commands(
                old(self)@.commands.update(
                    index as int,
                    with_end(old(self)@.commands[index as int], end@),
                ),
            ),
    {
        if let OpCategory::Moving { cmd, extra_axes, state, .. } =
            &self.inner.commands[index].category {
            let node = OpNode {
                category: OpCategory::Moving {
                    cmd: cmd.clone(),
                    end: Point3D { x: end[0], y: end[1], z: end[2] },
                    extra_axes: copy_optional_axes(extra_axes),
                    state: copy_optional_state(state),
                },
            };
            self.inner.set_node(index, node);
        }
    }

    /// The coordinates of a center offset or control point.
    pub fn aux_arguments(&self, index: usize, slot: usize) -> (r: Vec<Binary64>)
        requires
            step_valid(self@.commands, MovingStep::Aux { index, slot }),
        ensures
            r@ == aux_coordinates(self@.commands[index as int], slot as int),
    {
        let mut p: Vec<Binary64> = Vec::new();
        if let OpCategory::Moving { cmd, .. } = &self.inner.commands[index].category {
            match cmd {
                MoveCmd::ArcTo { center, .. } => {
                    p.push(center.x);
                    p.push(center.y);
                },
                MoveCmd::BezierTo { control1, control2 } => {
                    let control = if slot == 0 {
                        *control1
                    } else {
                        *control2
                    };
                    p.push(control.x);
                    p.push(control.y);
                    p.push(control.z);
                },
                MoveCmd::QuadraticBezierTo { control } => {
                    p.push(control.x);
                    p.push(control.y);
                    p.push(control.z);
                },
                _ => {},
            }
        }
        proof {
            assert(p@ =~= aux_coordinates(self@.commands[index as int], slot as int));
        }
        p
    }

    /// Gives a curve another center offset or control point.
    pub fn set_aux(&mut self, index: usize, slot: usize, p: &Vec<Binary64>)
        requires
            step_valid(old(self)@.commands, MovingStep::Aux { index, slot }),
            p@.len() >= aux_coordinates(old(self)@.commands[index as int], slot as int).len(),
        ensures
            final(self)@ == old(self)@.with_commands(
                old(self)@.commands.update(
                    index as int,
                    with_aux(old(self)@.commands[index as int], slot as int, p@),
                ),
            ),
            old(self)@.commands[index as int] matches CommandModel::Moving {
                cmd: MoveModel::ArcTo { cw, .. },
                end,
                extra_axes,
                state,
            } ==> final(self)@.commands[index as int] == (CommandModel::Moving {
                cmd: MoveModel::ArcTo { center: Point { x: p@[0], y: p@[1] }, cw },
                end,
                extra_axes,
                state,
            }),
    {
        let mut node = self.inner.commands[index].clone();
        if let OpCategory::Moving { cmd, .. } = &mut node.category {
            let changed = match cmd {
                MoveCmd::ArcTo { cw, .. } => MoveCmd::ArcTo {
                    center: Point { x: p[0], y: p[1] },
                    cw: *cw,
                },
                MoveCmd::BezierTo { control1, control2 } => if slot == 0 {
                    MoveCmd::BezierTo {
                        control1: Point3D { x: p[0], y: p[1], z: p[2] },
                        control2: *control2,
                    }
                } else {
                    MoveCmd::BezierTo {
                        control1: *control1,
                        control2: Point3D { x: p[0], y: p[1], z: p[2] },
                    }
                },
                _ => MoveCmd::QuadraticBezierTo {
                    control: Point3D { x: p[0], y: p[1], z: p[2] },
                },
            };
            *cmd = changed;
        }
        self.inner.set_node(index, node);
    }
}

/// The steps from one on, up to where none is left.
pub open spec fn trace(cs: Seq<CommandModel>, step: MovingStep, with_aux_points: bool) -> Seq<
    MovingStep,
>
    decreases
            match step {
                MovingStep::Endpoint { index } => cs.len() - index,
                MovingStep::Aux { index, .. } => cs.len() - index,
                MovingStep::Done => 0,
            },
            match step {
                MovingStep::Endpoint { .. } => 3int,
                MovingStep::Aux { slot, .. } => 2 - slot,
                MovingStep::Done => 0,
            },
    when step_valid(cs, step) && cs.len() <= usize::MAX
    via trace_decreases
{
    if step == MovingStep::Done {
        Seq::empty()
    } else {
        seq![step] + trace(cs, step_after(cs, step, with_aux_points), with_aux_points)
    }
}

#[via_fn]
proof fn trace_decreases(cs: Seq<CommandModel>, step: MovingStep, with_aux_points: bool) {
    match step {
        MovingStep::Endpoint { index } => lemma_find_moving(cs, index + 1),
        MovingStep::Aux { index, .. } => lemma_find_moving(cs, index + 1),
        MovingStep::Done => {},
    }
}

proof fn lemma_find_moving(cs: Seq<CommandModel>, from: int)
    requires
        0 <= from <= cs.len(),
    ensures
        from <= find_moving(cs, from) <= cs.len(),
        find_moving(cs, from) < cs.len() ==> cs[find_moving(cs, from)] is Moving,
        forall|m: int| from <= m < find_moving(cs, from) ==> !(#[trigger] cs[m] is Moving),
    decreases cs.len() - from,
{
    if from < cs.len() && !(cs[from] is Moving) {
        lemma_find_moving(cs, from + 1);
    }
}

/// The points of the moving commands from index `from` on, command by command: the end, then
/// the others if they are wanted.
pub open spec fn points_in_order(cs: Seq<CommandModel>, from: int, with_aux_points: bool) -> Seq<
    MovingStep,
>
    decreases cs.len() - from,
{
    if from >= cs.len() {
        Seq::empty()
    } else if cs[from] is Moving {
        seq![MovingStep::Endpoint { index: from as usize }] + aux_steps(
            cs,
            from,
            0,
            with_aux_points,
        ) + points_in_order(cs, from + 1, with_aux_points)
    } else {
        points_in_order(cs, from + 1, with_aux_points)
    }
}

/// The points besides the end of one command, from a slot on.
pub open spec fn aux_steps(
    cs: Seq<CommandModel>,
    index: int,
    slot: int,
    with_aux_points: bool,
) -> Seq<MovingStep> {
    if with_aux_points && slot < aux_count(cs[index]) {
        Seq::new(
            (aux_count(cs[index]) - slot) as nat,
            |s: int| MovingStep::Aux { index: index as usize, slot: (slot + s) as usize },
        )
    } else {
        Seq::empty()
    }
}

/// A rewriting comes by every point of every moving command exactly once, in order, and no
/// other.
pub proof fn law_every_point_once(cs: Seq<CommandModel>, from: int, with_aux_points: bool)
    requires
        0 <= from <= cs.len() <= usize::MAX,
    ensures
        trace(cs, step_from(cs, from), with_aux_points) == points_in_order(
            cs,
            from,
            with_aux_points,
        ),
    decreases cs.len() - from,
{
    lemma_find_moving(cs, from);
    if from < cs.len() {
        law_every_point_once(cs, from + 1, with_aux_points);
        lemma_find_moving(cs, from + 1);
        if cs[from] is Moving {
            let step = MovingStep::Endpoint { index: from as usize };
            assert(step_from(cs, from) == step);
            let next = step_after(cs, step, with_aux_points);
            assert(trace(cs, step, with_aux_points) == seq![step] + trace(
                cs,
                next,
                with_aux_points,
            ));
            if with_aux_points && aux_count(cs[from]) > 0 {
                lemma_aux_trace(cs, from, 0);
            }
            assert(trace(cs, step, with_aux_points) =~= points_in_order(
                cs,
                from,
                with_aux_points,
            ));
        } else {
            assert(step_from(cs, from) == step_from(cs, from + 1));
        }
    }
}

proof fn lemma_aux_trace(cs: Seq<CommandModel>, index: int, slot: int)
    requires
        0 <= index < cs.len() <= usize::MAX,
        0 <= slot < aux_count(cs[index]),
    ensures
        trace(
            cs,
            MovingStep::Aux { index: index as usize, slot: slot as usize },
            true,
        ) == aux_steps(cs, index, slot, true) + trace(cs, step_from(cs, index + 1), true),
    decreases aux_count(cs[index]) - slot,
{
    let step = MovingStep::Aux { index: index as usize, slot: slot as usize };
    lemma_find_moving(cs, index + 1);
    assert(trace(cs, step, true) == seq![step] + trace(cs, step_after(cs, step, true), true));
    if slot + 1 < aux_count(cs[index]) {
        lemma_aux_trace(cs, index, slot + 1);
        assert(aux_steps(cs, index, slot, true) =~= seq![step] + aux_steps(
            cs,
            index,
            slot + 1,
            true,
        ));
    } else {
        assert(aux_steps(cs, index, slot, true) =~= seq![step]);
    }
    assert(trace(cs, step, true) =~= aux_steps(cs, index, slot, true) + trace(
        cs,
        step_from(cs, index + 1),
        true,
    ));
}

/// Changing a point changes no kind of command, so that the points left to come by stay the
/// same, and leaves every other command as it is.
pub proof fn law_order_kept(
    cs: Seq<CommandModel>,
    index: int,
    p: Seq<Binary64>,
    axes: Seq<(Axis, Binary64)>,
    slot: int,
    step: MovingStep,
    with_aux_points: bool,
)
    requires
        0 <= index < cs.len() <= usize::MAX,
        step_valid(cs, step),
    ensures
        ({
            let moved = cs.update(index, with_endpoint(cs[index], p, axes));
            let bent = cs.update(index, with_aux(cs[index], slot, p));
            &&& moved[index].kind() == cs[index].kind()
            &&& bent[index].kind() == cs[index].kind()
            &&& step_valid(moved, step)
            &&& step_valid(bent, step)
            &&& step_after(moved, step, with_aux_points) == step_after(cs, step, with_aux_points)
            &&& step_after(bent, step, with_aux_points) == step_after(cs, step, with_aux_points)
        }),
{
    let moved = cs.update(index, with_endpoint(cs[index], p, axes));
    let bent = cs.update(index, with_aux(cs[index], slot, p));
    match step {
        MovingStep::Endpoint { index: i } => {
            lemma_same_moving(cs, moved, i + 1);
            lemma_same_moving(cs, bent, i + 1);
        },
        MovingStep::Aux { index: i, .. } => {
            lemma_same_moving(cs, moved, i + 1);
            lemma_same_moving(cs, bent, i + 1);
        },
        MovingStep::Done => {},
    }
}

proof fn lemma_same_moving(a: Seq<CommandModel>, b: Seq<CommandModel>, from: int)
    requires
        a.len() == b.len(),
        0 <= from <= a.len(),
        forall|k: int| 0 <= k < a.len() ==> (#[trigger] b[k] is Moving) == (a[k] is Moving),
    ensures
        find_moving(a, from) == find_moving(b, from),
    decreases a.len() - from,
{
    if from < a.len() {
        assert(b[from] is Moving == a[from] is Moving);
        lemma_same_moving(a, b, from + 1);
    }
}

/// A curve whose first `n` points besides the end were replaced, each by the reply for it.
pub open spec fn bent(
    c: CommandModel,
    index: int,
    aux: spec_fn(int, int) -> Seq<Binary64>,
    n: int,
) -> CommandModel
    decreases n,
{
    if n <= 0 {
        c
    } else {
        with_aux(bent(c, index, aux, n - 1), n - 1, aux(index, n - 1))
    }
}

/// A command once all its points were replaced by the replies for them: its end and its extra
/// axes, then the others if they are wanted. A command that does not move stays.
pub open spec fn rewritten_command(
    c: CommandModel,
    index: int,
    ends: spec_fn(int) -> (Seq<Binary64>, Seq<(Axis, Binary64)>),
    aux: spec_fn(int, int) -> Seq<Binary64>,
    with_aux_points: bool,
) -> CommandModel {
    let moved = with_endpoint(c, ends(index).0, ends(index).1);
    if with_aux_points {
        bent(moved, index, aux, aux_count(c))
    } else {
        moved
    }
}

/// The commands with every point replaced by the reply for it. `ends` gives the reply for the
/// end of the command at an index, `aux` that for one of its other points.
pub open spec fn rewritten(
    cs: Seq<CommandModel>,
    ends: spec_fn(int) -> (Seq<Binary64>, Seq<(Axis, Binary64)>),
    aux: spec_fn(int, int) -> Seq<Binary64>,
    with_aux_points: bool,
) -> Seq<CommandModel> {
    Seq::new(
        cs.len(),
        |k: int| rewritten_command(cs[k], k, ends, aux, with_aux_points),
    )
}

/// The commands when a step comes up: those passed are rewritten, that of the step as far as its
/// points were passed, and the others are as before.
pub open spec fn rewritten_before(
    cs: Seq<CommandModel>,
    step: MovingStep,
    ends: spec_fn(int) -> (Seq<Binary64>, Seq<(Axis, Binary64)>),
    aux: spec_fn(int, int) -> Seq<Binary64>,
    with_aux_points: bool,
) -> Seq<CommandModel> {
    let whole = rewritten(cs, ends, aux, with_aux_points);
    match step {
        MovingStep::Endpoint { index } => Seq::new(
            cs.len(),
            |k: int|
                if k < index {
                    whole[k]
                } else {
                    cs[k]
                },
        ),
        MovingStep::Aux { index, slot } => Seq::new(
            cs.len(),
            |k: int|
                if k < index {
                    whole[k]
                } else if k == index {
                    bent(with_endpoint(cs[k], ends(k).0, ends(k).1), k, aux, slot as int)
                } else {
                    cs[k]
                },
        ),
        MovingStep::Done => whole,
    }
}

/// The commands after the point of a step was replaced by the reply for it.
pub open spec fn replied(
    cs: Seq<CommandModel>,
    step: MovingStep,
    ends: spec_fn(int) -> (Seq<Binary64>, Seq<(Axis, Binary64)>),
    aux: spec_fn(int, int) -> Seq<Binary64>,
) -> Seq<CommandModel> {
    match step {
        MovingStep::Endpoint { index } => {
            let i = index as int;
            cs.update(i, with_endpoint(cs[i], ends(i).0, ends(i).1))
        },
        MovingStep::Aux { index, slot } => {
            let i = index as int;
            cs.update(i, with_aux(cs[i], slot as int, aux(i, slot as int)))
        },
        MovingStep::Done => cs,
    }
}

proof fn lemma_bent(
    c: CommandModel,
    index: int,
    aux: spec_fn(int, int) -> Seq<Binary64>,
    n: int,
)
    ensures
        bent(c, index, aux, n) is Moving == c is Moving,
        aux_count(bent(c, index, aux, n)) == aux_count(c),
    decreases n,
{
    if n > 0 {
        lemma_bent(c, index, aux, n - 1);
    }
}

/// The commands as they stand at a step have the points that they had at first.
proof fn lemma_same_points(
    cs: Seq<CommandModel>,
    step: MovingStep,
    ends: spec_fn(int) -> (Seq<Binary64>, Seq<(Axis, Binary64)>),
    aux: spec_fn(int, int) -> Seq<Binary64>,
    with_aux_points: bool,
)
    ensures
        ({
            let now = rewritten_before(cs, step, ends, aux, with_aux_points);
            &&& now.len() == cs.len()
            &&& forall|k: int|
                0 <= k < cs.len() ==> (#[trigger] now[k] is Moving) == (cs[k] is Moving)
                    && aux_count(now[k]) == aux_count(cs[k])
        }),
{
    let now = rewritten_before(cs, step, ends, aux, with_aux_points);
    assert forall|k: int| 0 <= k < cs.len() implies (#[trigger] now[k] is Moving) == (
    cs[k] is Moving) && aux_count(now[k]) == aux_count(cs[k]) by {
        let moved = with_endpoint(cs[k], ends(k).0, ends(k).1);
        lemma_bent(moved, k, aux, aux_count(cs[k]));
        if let MovingStep::Aux { slot, .. } = step {
            lemma_bent(moved, k, aux, slot as int);
        }
    }
}

/// Before the first step the commands are as they were given.
pub proof fn law_rewriting_starts(
    cs: Seq<CommandModel>,
    ends: spec_fn(int) -> (Seq<Binary64>, Seq<(Axis, Binary64)>),
    aux: spec_fn(int, int) -> Seq<Binary64>,
    with_aux_points: bool,
)
    requires
        cs.len() <= usize::MAX,
    ensures
        rewritten_before(cs, step_from(cs, 0), ends, aux, with_aux_points) == cs,
{
    lemma_find_moving(cs, 0);
    lemma_unmoved(cs, 0, ends, aux, with_aux_points);
    assert(rewritten_before(cs, step_from(cs, 0), ends, aux, with_aux_points) =~= cs);
}

/// Commands that do not move are rewritten to themselves.
proof fn lemma_unmoved(
    cs: Seq<CommandModel>,
    from: int,
    ends: spec_fn(int) -> (Seq<Binary64>, Seq<(Axis, Binary64)>),
    aux: spec_fn(int, int) -> Seq<Binary64>,
    with_aux_points: bool,
)
    requires
        0 <= from <= cs.len(),
    ensures
        forall|k: int|
            from <= k < find_moving(cs, from) ==> #[trigger] rewritten(
                cs,
                ends,
                aux,
                with_aux_points,
            )[k] == cs[k],
{
    lemma_find_moving(cs, from);
    assert forall|k: int| from <= k < find_moving(cs, from) implies #[trigger] rewritten(
        cs,
        ends,
        aux,
        with_aux_points,
    )[k] == cs[k] by {
        assert(!(cs[k] is Moving));
    }
}

/// One step of a rewriting, in which the point that comes up is replaced by the reply for it,
/// keeps what holds when a step comes up: the commands passed are rewritten, and the others are
/// as before. The step that follows is the one that the commands as given have.
pub proof fn law_point_round(
    cs: Seq<CommandModel>,
    step: MovingStep,
    ends: spec_fn(int) -> (Seq<Binary64>, Seq<(Axis, Binary64)>),
    aux: spec_fn(int, int) -> Seq<Binary64>,
    with_aux_points: bool,
)
    requires
        cs.len() <= usize::MAX,
        step_valid(cs, step),
        step is Aux ==> with_aux_points,
    ensures
        ({
            let now = rewritten_before(cs, step, ends, aux, with_aux_points);
            let after = replied(now, step, ends, aux);
            let next = step_after(after, step, with_aux_points);
            &&& step_valid(now, step)
            &&& next == step_after(cs, step, with_aux_points)
            &&& step_valid(cs, next)
            &&& next is Aux ==> with_aux_points
            &&& after == rewritten_before(cs, next, ends, aux, with_aux_points)
        }),
{
    let now = rewritten_before(cs, step, ends, aux, with_aux_points);
    let after = replied(now, step, ends, aux);
    let next = step_after(cs, step, with_aux_points);
    lemma_same_points(cs, step, ends, aux, with_aux_points);
    match step {
        MovingStep::Done => {},
        MovingStep::Endpoint { index } => {
            let i = index as int;
            assert(now[i] == cs[i]);
            lemma_find_moving(cs, i + 1);
            lemma_unmoved(cs, i + 1, ends, aux, with_aux_points);
            assert forall|k: int| 0 <= k < cs.len() implies (#[trigger] after[k] is Moving) == (
            cs[k] is Moving) by {
                assert(now[k] is Moving == cs[k] is Moving);
            }
            lemma_same_moving(cs, after, i + 1);
            assert(step_after(after, step, with_aux_points) == next);
            if aux_count(cs[i]) == 0 || !with_aux_points {
                assert(after[i] == rewritten(cs, ends, aux, with_aux_points)[i]);
            }
            assert(after =~= rewritten_before(cs, next, ends, aux, with_aux_points));
        },
        MovingStep::Aux { index, slot } => {
            let i = index as int;
            let moved = with_endpoint(cs[i], ends(i).0, ends(i).1);
            lemma_find_moving(cs, i + 1);
            lemma_unmoved(cs, i + 1, ends, aux, with_aux_points);
            assert(after[i] == bent(moved, i, aux, slot + 1));
            lemma_bent(moved, i, aux, slot + 1);
            assert forall|k: int| 0 <= k < cs.len() implies (#[trigger] after[k] is Moving) == (
            cs[k] is Moving) by {
                assert(now[k] is Moving == cs[k] is Moving);
            }
            lemma_same_moving(cs, after, i + 1);
            assert(aux_count(after[i]) == aux_count(cs[i]));
            assert(step_after(after, step, with_aux_points) == next);
            assert(after =~= rewritten_before(cs, next, ends, aux, with_aux_points));
        },
    }
}

/// The commands after the points of several steps were replaced, one after the other, by the
/// replies for them.
pub open spec fn replied_all(
    cs: Seq<CommandModel>,
    steps: Seq<MovingStep>,
    ends: spec_fn(int) -> (Seq<Binary64>, Seq<(Axis, Binary64)>),
    aux: spec_fn(int, int) -> Seq<Binary64>,
) -> Seq<CommandModel>
    decreases steps.len(),
{
    if steps.len() == 0 {
        cs
    } else {
        replied_all(replied(cs, steps.first(), ends, aux), steps.drop_first(), ends, aux)
    }
}

proof fn lemma_rest_rewritten(
    cs: Seq<CommandModel>,
    step: MovingStep,
    ends: spec_fn(int) -> (Seq<Binary64>, Seq<(Axis, Binary64)>),
    aux: spec_fn(int, int) -> Seq<Binary64>,
    with_aux_points: bool,
)
    requires
        cs.len() <= usize::MAX,
        step_valid(cs, step),
        step is Aux ==> with_aux_points,
    ensures
        replied_all(
            rewritten_before(cs, step, ends, aux, with_aux_points),
            trace(cs, step, with_aux_points),
            ends,
            aux,
        ) == rewritten(cs, ends, aux, with_aux_points),
    decreases trace(cs, step, with_aux_points).len(),
{
    if step != MovingStep::Done {
        let next = step_after(cs, step, with_aux_points);
        let rest = trace(cs, next, with_aux_points);
        law_point_round(cs, step, ends, aux, with_aux_points);
        assert(trace(cs, step, with_aux_points) == seq![step] + rest);
        assert((seq![step] + rest).drop_first() =~= rest);
        lemma_rest_rewritten(cs, next, ends, aux, with_aux_points);
    }
}

/// A whole rewriting, in which every point is replaced as it comes up by the reply for it, gives
/// the commands with every point replaced.
pub proof fn law_rewriting_completes(
    cs: Seq<CommandModel>,
    ends: spec_fn(int) -> (Seq<Binary64>, Seq<(Axis, Binary64)>),
    aux: spec_fn(int, int) -> Seq<Binary64>,
    with_aux_points: bool,
)
    requires
        cs.len() <= usize::MAX,
    ensures
        replied_all(cs, points_in_order(cs, 0, with_aux_points), ends, aux) == rewritten(
            cs,
            ends,
            aux,
            with_aux_points,
        ),
{
    lemma_find_moving(cs, 0);
    law_rewriting_starts(cs, ends, aux, with_aux_points);
    law_every_point_once(cs, 0, with_aux_points);
    lemma_rest_rewritten(cs, step_from(cs, 0), ends, aux, with_aux_points);
}

/// Changing the end first and then the end with the extra axes comes to the second change alone.
pub proof fn law_end_then_axes(c: CommandModel, p: Seq<Binary64>, axes: Seq<(Axis, Binary64)>)
    ensures
        with_endpoint(with_end(c, p), p, axes) == with_endpoint(c, p, axes),
        axes_of(with_end(c, p)) == axes_of(c),
        with_end(c, p).kind() == c.kind(),
        c is Moving ==> with_end(c, p).end_point() == point_at(p),
{
}

/// Replacing the center offset of an arc changes that and nothing else: the arc keeps its
/// direction, its end, its extra axes and its state. Of a curve only the control point named
/// changes.
pub proof fn law_aux_changes_one_point(
    center: Point,
    cw: bool,
    control1: Point3D,
    control2: Point3D,
    end: Point3D,
    extra_axes: Option<Seq<(Axis, Binary64)>>,
    state: Option<StateModel>,
    p: Seq<Binary64>,
)
    ensures
        with_aux(
            CommandModel::Moving { cmd: MoveModel::ArcTo { center, cw }, end, extra_axes, state },
            0,
            p,
        ) == (CommandModel::Moving {
            cmd: MoveModel::ArcTo { center: Point { x: p[0], y: p[1] }, cw },
            end,
            extra_axes,
            state,
        }),
        with_aux(
            CommandModel::Moving {
                cmd: MoveModel::BezierTo { control1, control2 },
                end,
                extra_axes,
                state,
            },
            0,
            p,
        ) == (CommandModel::Moving {
            cmd: MoveModel::BezierTo {
                control1: Point3D { x: p[0], y: p[1], z: p[2] },
                control2,
            },
            end,
            extra_axes,
            state,
        }),
        with_aux(
            CommandModel::Moving {
                cmd: MoveModel::BezierTo { control1, control2 },
                end,
                extra_axes,
                state,
            },
            1,
            p,
        ) == (CommandModel::Moving {
            cmd: MoveModel::BezierTo {
                control1,
                control2: Point3D { x: p[0], y: p[1], z: p[2] },
            },
            end,
            extra_axes,
            state,
        }),
        with_aux(
            CommandModel::Moving {
                cmd: MoveModel::QuadraticBezierTo { control: control1 },
                end,
                extra_axes,
                state,
            },
            0,
            p,
        ) == (CommandModel::Moving {
            cmd: MoveModel::QuadraticBezierTo {
                control: Point3D { x: p[0], y: p[1], z: p[2] },
            },
            end,
            extra_axes,
            state,
        }),
{
}

/// Giving back the coordinates that were handed out changes nothing: of the points besides the
/// end, and of the end with its extra axes, unless those are an empty list.
pub proof fn law_same_reply_changes_nothing(c: CommandModel, slot: int)
    requires
        c is Moving,
    ensures
        0 <= slot < aux_count(c) ==> with_aux(c, slot, aux_coordinates(c, slot)) == c,
        c->extra_axes is None ==> with_endpoint(c, seq![c->end.x, c->end.y, c->end.z], Seq::empty())
            == c,
        c->extra_axes is Some && c->extra_axes->Some_0.len() > 0 ==> with_endpoint(
            c,
            seq![c->end.x, c->end.y, c->end.z],
            c->extra_axes->Some_0,
        ) == c,
        with_end(c, seq![c->end.x, c->end.y, c->end.z]) == c,
{
}

/// A reply can be read back: the coordinates handed out after a point was replaced are those of
/// the reply, and those of another point are as before.
pub proof fn law_reply_reads_back(c: CommandModel, slot: int, other: int, p: Seq<Binary64>)
    requires
        0 <= slot < aux_count(c),
        0 <= other < aux_count(c),
        p.len() >= aux_coordinates(c, slot).len(),
    ensures
        aux_coordinates(with_aux(c, slot, p), slot) == p.take(
            aux_coordinates(c, slot).len() as int,
        ),
        other != slot ==> aux_coordinates(with_aux(c, slot, p), other) == aux_coordinates(c, other),
        c->cmd is ArcTo ==> aux_coordinates(c, slot).len() == 2,
        !(c->cmd is ArcTo) ==> aux_coordinates(c, slot).len() == 3,
{
    assert(aux_coordinates(with_aux(c, slot, p), slot) =~= p.take(
        aux_coordinates(c, slot).len() as int,
    ));
}

/// Replacing an end changes the end and the extra axes and nothing else; an empty list of axes
/// means none.
pub proof fn law_endpoint_changes_end(
    cmd: MoveModel,
    end: Point3D,
    extra_axes: Option<Seq<(Axis, Binary64)>>,
    state: Option<StateModel>,
    p: Seq<Binary64>,
    axes: Seq<(Axis, Binary64)>,
)
    ensures
        axes.len() > 0 ==> with_endpoint(
            CommandModel::Moving { cmd, end, extra_axes, state },
            p,
            axes,
        ) == (CommandModel::Moving {
            cmd,
            end: Point3D { x: p[0], y: p[1], z: p[2] },
            extra_axes: Some(axes),
            state,
        }),
        axes.len() == 0 ==> with_endpoint(
            CommandModel::Moving { cmd, end, extra_axes, state },
            p,
            axes,
        ) == (CommandModel::Moving {
            cmd,
            end: Point3D { x: p[0], y: p[1], z: p[2] },
            extra_axes: None,
            state,
        }),
        with_end(CommandModel::Moving { cmd, end, extra_axes, state }, p) == (
        CommandModel::Moving {
            cmd,
            end: Point3D { x: p[0], y: p[1], z: p[2] },
            extra_axes,
            state,
        }),
{
}

/// The place of a point in the order of the points of its command: the end first.
pub open spec fn place(step: MovingStep) -> int {
    match step {
        MovingStep::Endpoint { .. } => 0,
        MovingStep::Aux { slot, .. } => slot + 1,
        MovingStep::Done => 0,
    }
}

/// The index of the command that a point belongs to.
pub open spec fn index_of(step: MovingStep) -> int {
    match step {
        MovingStep::Endpoint { index } => index as int,
        MovingStep::Aux { index, .. } => index as int,
        MovingStep::Done => -1,
    }
}

/// The points that come up are the ends of all moving commands and, if they are wanted, the
/// center offsets of all arcs, both control points of all cubic curves and the control points of
/// all quadratic curves; they come up in the order of the commands, the end of a command first.
pub proof fn law_points_exact(cs: Seq<CommandModel>, from: int, with_aux_points: bool)
    requires
        0 <= from <= cs.len() <= usize::MAX,
    ensures
        ({
            let points = points_in_order(cs, from, with_aux_points);
            &&& forall|index: usize|
                #[trigger] points.contains(MovingStep::Endpoint { index }) <==> from <= index
                    < cs.len() && cs[index as int] is Moving
            &&& forall|index: usize, slot: usize|
                #[trigger] points.contains(MovingStep::Aux { index, slot }) <==> {
                    &&& with_aux_points
                    &&& from <= index < cs.len()
                    &&& cs[index as int] is Moving
                    &&& match cs[index as int]->cmd {
                        MoveModel::ArcTo { .. } => slot == 0,
                        MoveModel::BezierTo { .. } => slot == 0 || slot == 1,
                        MoveModel::QuadraticBezierTo { .. } => slot == 0,
                        _ => false,
                    }
                }
            &&& !points.contains(MovingStep::Done)
            &&& forall|a: int, b: int|
                0 <= a < b < points.len() ==> {
                    let x = #[trigger] points[a];
                    let y = #[trigger] points[b];
                    index_of(x) < index_of(y) || index_of(x) == index_of(y) && place(x) < place(y)
                }
        }),
    decreases cs.len() - from,
{
    let points = points_in_order(cs, from, with_aux_points);
    if from < cs.len() {
        law_points_exact(cs, from + 1, with_aux_points);
        let rest = points_in_order(cs, from + 1, with_aux_points);
        if cs[from] is Moving {
            let first = MovingStep::Endpoint { index: from as usize };
            let others = aux_steps(cs, from, 0, with_aux_points);
            let own = seq![first] + others;
            assert(points == own + rest);
            assert forall|s: MovingStep| #[trigger] points.contains(s) <==> own.contains(s)
                || rest.contains(s) by {
                lemma_contains_concat(own, rest, s);
            }
            assert forall|s: MovingStep| #[trigger] own.contains(s) <==> s == first
                || others.contains(s) by {
                lemma_contains_concat(seq![first], others, s);
                assert(seq![first].contains(s) <==> s == first) by {
                    if s == first {
                        assert(seq![first][0] == s);
                    }
                }
            }
            assert forall|index: usize, slot: usize|
                #[trigger] others.contains(MovingStep::Aux { index, slot }) <==> with_aux_points
                    && index == from && slot < aux_count(cs[from]) by {
                if with_aux_points && index == from && slot < aux_count(cs[from]) {
                    assert(others[slot as int] == MovingStep::Aux { index, slot });
                }
            }
            assert(forall|k: int| 0 <= k < others.len() ==> #[trigger] others[k] is Aux);
            assert forall|k: int| 0 <= k < rest.len() implies index_of(#[trigger] rest[k])
                > from by {
                assert(rest.contains(rest[k]));
                match rest[k] {
                    MovingStep::Endpoint { index } => {
                        assert(rest.contains(MovingStep::Endpoint { index }));
                    },
                    MovingStep::Aux { index, slot } => {
                        assert(rest.contains(MovingStep::Aux { index, slot }));
                    },
                    MovingStep::Done => {},
                }
            }
            assert forall|a: int, b: int| 0 <= a < b < points.len() implies {
                let x = #[trigger] points[a];
                let y = #[trigger] points[b];
                index_of(x) < index_of(y) || index_of(x) == index_of(y) && place(x) < place(y)
            } by {
                if a >= own.len() {
                    assert(points[a] == rest[a - own.len()]);
                    assert(points[b] == rest[b - own.len()]);
                } else {
                    assert(points[a] == own[a]);
                    assert(own[a] == if a == 0 {
                        first
                    } else {
                        others[a - 1]
                    });
                    assert(index_of(own[a]) == from);
                    if b >= own.len() {
                        assert(points[b] == rest[b - own.len()]);
                    } else {
                        assert(points[b] == own[b]);
                        assert(own[b] == others[b - 1]);
                    }
                }
            }
        } else {
            assert(points == rest);
        }
    }
}

proof fn lemma_contains_concat(a: Seq<MovingStep>, b: Seq<MovingStep>, s: MovingStep)
    ensures
        (a + b).contains(s) <==> a.contains(s) || b.contains(s),
{
    let all = a + b;
    if all.contains(s) {
        let k = choose|k: int| 0 <= k < all.len() && all[k] == s;
        if k < a.len() {
            assert(a[k] == s);
        } else {
            assert(b[k - a.len()] == s);
        }
    }
    if a.contains(s) {
        let k = choose|k: int| 0 <= k < a.len() && a[k] == s;
        assert(all[k] == s);
    }
    if b.contains(s) {
        let k = choose|k: int| 0 <= k < b.len() && b[k] == s;
        assert(all[a.len() + k] == s);
    }
}

/// What a whole rewriting makes of each command: a command that does not move stays; of a move
/// the end and the extra axes become the reply for them, and its other points, if they are
/// wanted, the replies for those. Direction, power values and state stay.
pub proof fn law_rewritten_by_command(
    cs: Seq<CommandModel>,
    ends: spec_fn(int) -> (Seq<Binary64>, Seq<(Axis, Binary64)>),
    aux: spec_fn(int, int) -> Seq<Binary64>,
    with_aux_points: bool,
    k: int,
)
    requires
        0 <= k < cs.len(),
    ensures
        ({
            let r = rewritten(cs, ends, aux, with_aux_points)[k];
            let at = |p: Seq<Binary64>| Point3D { x: p[0], y: p[1], z: p[2] };
            &&& rewritten(cs, ends, aux, with_aux_points).len() == cs.len()
            &&& !(cs[k] is Moving) ==> r == cs[k]
            &&& cs[k] is Moving ==> {
                &&& r is Moving
                &&& r->end == at(ends(k).0)
                &&& r->extra_axes == if ends(k).1.len() == 0 {
                    None
                } else {
                    Some(ends(k).1)
                }
                &&& r->state == cs[k]->state
                &&& !with_aux_points ==> r->cmd == cs[k]->cmd
                &&& with_aux_points ==> r->cmd == match cs[k]->cmd {
                    MoveModel::ArcTo { center, cw } => MoveModel::ArcTo {
                        center: Point { x: aux(k, 0)[0], y: aux(k, 0)[1] },
                        cw,
                    },
                    MoveModel::BezierTo { .. } => MoveModel::BezierTo {
                        control1: at(aux(k, 0)),
                        control2: at(aux(k, 1)),
                    },
                    MoveModel::QuadraticBezierTo { .. } => MoveModel::QuadraticBezierTo {
                        control: at(aux(k, 0)),
                    },
                    _ => cs[k]->cmd,
                }
            }
        }),
{
    reveal_with_fuel(bent, 3);
}

} // verus!
