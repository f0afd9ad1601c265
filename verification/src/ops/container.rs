//! The command sequence: building it, copying from it, cutting pieces out of it.
use crate::binary64::Binary64;
use crate::ops::command::{
    copy_axes, copy_bytes, moving, option_view, Axis, CommandCategory, CommandModel, CommandType,
    MarkerCmd, MoveCmd, MoveModel, OpCategory, OpNode, Point3D, State, StateCmd, StateCmdModel,
    StateModel,
};
use vstd::prelude::*;

verus! {

/// An ordered sequence of commands, with the end of the last travel move and the cached
/// execution time.
#[derive(Debug)]
pub struct Ops {
    pub commands: Vec<OpNode>,
    pub last_move_to: Point3D,
    pub time_dirty: bool,
    pub cached_time: Binary64,
    pub time_params: Option<(Binary64, Binary64, Binary64)>,
}

/// What an [`Ops`] is.
pub struct OpsModel {
    pub commands: Seq<CommandModel>,
    pub last_move_to: Point3D,
    pub time_dirty: bool,
    pub cached_time: Binary64,
    pub time_params: Option<(Binary64, Binary64, Binary64)>,
}

/// The commands by their views.
pub open spec fn command_views(nodes: Seq<OpNode>) -> Seq<CommandModel> {
    Seq::new(nodes.len(), |i: int| nodes[i]@)
}

impl View for Ops {
    type V = OpsModel;

    open spec fn view(&self) -> OpsModel {
        OpsModel {
            commands: command_views(self.commands@),
            last_move_to: self.last_move_to,
            time_dirty: self.time_dirty,
            cached_time: self.cached_time,
            time_params: self.time_params,
        }
    }
}

/// The origin of space.
pub open spec fn origin() -> Point3D {
    Point3D { x: Binary64 { bits: 0 }, y: Binary64 { bits: 0 }, z: Binary64 { bits: 0 } }
}

/// Where the last travel move among the commands ends; `before` if there is none.
pub open spec fn last_travel(commands: Seq<CommandModel>, before: Point3D) -> Point3D
    decreases commands.len(),
{
    if commands.len() == 0 {
        before
    } else if commands.last().is_travel() {
        commands.last().end_point()
    } else {
        last_travel(commands.drop_last(), before)
    }
}

/// The commands at the given indices, in that order.
pub open spec fn selected(commands: Seq<CommandModel>, indices: Seq<usize>) -> Seq<CommandModel> {
    Seq::new(indices.len(), |k: int| commands[indices[k] as int])
}

/// The commands, one copy after the other.
pub open spec fn repeated(commands: Seq<CommandModel>, count: nat) -> Seq<CommandModel>
    decreases count,
{
    if count == 0 {
        Seq::empty()
    } else {
        repeated(commands, (count - 1) as nat) + commands
    }
}

/// No command, or one state command.
pub open spec fn optional_command(cmd: Option<StateCmdModel>) -> Seq<CommandModel> {
    match cmd {
        Some(c) => seq![CommandModel::State(c)],
        None => Seq::empty(),
    }
}

/// The state commands that are there, in order.
pub open spec fn gathered(cmds: Seq<Option<StateCmdModel>>) -> Seq<CommandModel>
    decreases cmds.len(),
{
    if cmds.len() == 0 {
        Seq::empty()
    } else {
        gathered(cmds.drop_last()) + optional_command(cmds.last())
    }
}

/// The command for a setting that is set.
pub open spec fn when_set<T>(setting: Option<T>, cmd: spec_fn(T) -> StateCmdModel) -> Option<
    StateCmdModel,
> {
    match setting {
        Some(v) => Some(cmd(v)),
        None => None,
    }
}

/// The settings of a state as commands: the power always, zero where it is not set, and every
/// other setting where it is set.
pub open spec fn settings(s: StateModel) -> Seq<Option<StateCmdModel>> {
    seq![
        Some(
            StateCmdModel::SetPower(
                match s.power {
                    Some(p) => p,
                    None => Binary64 { bits: 0 },
                },
            ),
        ),
        when_set(s.feed_rate, |v| StateCmdModel::SetFeedRate(v)),
        when_set(s.rapid_rate, |v| StateCmdModel::SetRapidRate(v)),
        when_set(s.frequency, |v| StateCmdModel::SetFrequency(v)),
        when_set(s.pulse_width, |v| StateCmdModel::SetPulseWidth(v)),
        when_set(s.spindle_rpm, |v| StateCmdModel::SetSpindleRpm(v)),
        when_set(s.coolant, |v| StateCmdModel::SetCoolant(v)),
        when_set(s.air_assist, |v| StateCmdModel::SetAirAssist(v)),
        when_set(s.head_coolant, |v| StateCmdModel::SetHeadCoolant(v)),
        when_set(s.head_uid, |v| StateCmdModel::SetHead(v)),
    ]
}

/// The state commands that a state amounts to.
pub open spec fn state_commands(s: StateModel) -> Seq<CommandModel> {
    gathered(settings(s))
}

/// Optional commands by their views.
pub open spec fn option_views(cmds: Seq<Option<StateCmd>>) -> Seq<Option<StateCmdModel>> {
    Seq::new(cmds.len(), |i: int| option_view(cmds[i]))
}

fn settings_of(state: &State) -> (r: Vec<Option<StateCmd>>)
    ensures
        option_views(r@) == settings(state@),
{
    let mut r: Vec<Option<StateCmd>> = Vec::new();
    r.push(
        Some(
            StateCmd::SetPower(
                match state.power {
                    Some(p) => p,
                    None => Binary64::zero(),
                },
            ),
        ),
    );
    r.push(
        match state.feed_rate {
            Some(v) => Some(StateCmd::SetFeedRate(v)),
            None => None,
        },
    );
    r.push(
        match state.rapid_rate {
            Some(v) => Some(StateCmd::SetRapidRate(v)),
            None => None,
        },
    );
    r.push(
        match state.frequency {
            Some(v) => Some(StateCmd::SetFrequency(v)),
            None => None,
        },
    );
    r.push(
        match state.pulse_width {
            Some(v) => Some(StateCmd::SetPulseWidth(v)),
            None => None,
        },
    );
    r.push(
        match state.spindle_rpm {
            Some(v) => Some(StateCmd::SetSpindleRpm(v)),
            None => None,
        },
    );
    r.push(
        match state.coolant {
            Some(v) => Some(StateCmd::SetCoolant(v)),
            None => None,
        },
    );
    r.push(
        match state.air_assist {
            Some(v) => Some(StateCmd::SetAirAssist(v)),
            None => None,
        },
    );
    r.push(
        match state.head_coolant {
            Some(v) => Some(StateCmd::SetHeadCoolant(v)),
            None => None,
        },
    );
    r.push(
        match &state.head_uid {
            Some(uid) => Some(StateCmd::SetHead(uid.clone())),
            None => None,
        },
    );
    proof {
        assert(option_views(r@) =~= settings(state@));
    }
    r
}

impl OpsModel {
    /// The empty sequence, with nothing cached.
    pub open spec fn fresh() -> OpsModel {
        OpsModel {
            commands: Seq::empty(),
            last_move_to: origin(),
            time_dirty: true,
            cached_time: Binary64 { bits: 0 },
            time_params: None,
        }
    }

    /// The sequence with the commands at its end. The cached time no longer holds.
    pub open spec fn extended(self, commands: Seq<CommandModel>) -> OpsModel {
        OpsModel {
            commands: self.commands + commands,
            last_move_to: last_travel(commands, self.last_move_to),
            time_dirty: true,
            ..self
        }
    }

    /// The sequence with one command at its end.
    pub open spec fn pushed(self, command: CommandModel) -> OpsModel {
        self.extended(seq![command])
    }

    /// The sequence without its commands.
    pub open spec fn cleared(self) -> OpsModel {
        OpsModel { commands: Seq::empty(), time_dirty: true, ..self }
    }

    /// The sequence with other commands in the place of its own, nothing else changed but that
    /// the cached time no longer holds.
    pub open spec fn with_commands(self, commands: Seq<CommandModel>) -> OpsModel {
        OpsModel { commands, time_dirty: true, ..self }
    }
}

/// Appending commands and then more commands is appending them all.
pub proof fn lemma_extended_twice(m: OpsModel, a: Seq<CommandModel>, b: Seq<CommandModel>)
    ensures
        m.extended(a).extended(b) == m.extended(a + b),
{
    lemma_last_travel_concat(a, b, m.last_move_to);
    assert(m.commands + a + b =~= m.commands + (a + b));
}

/// The last travel move of two runs of commands is that of the second, if it has one.
pub proof fn lemma_last_travel_concat(
    a: Seq<CommandModel>,
    b: Seq<CommandModel>,
    before: Point3D,
)
    ensures
        last_travel(a + b, before) == last_travel(b, last_travel(a, before)),
    decreases b.len(),
{
    if b.len() == 0 {
        assert(a + b =~= a);
    } else {
        assert((a + b).drop_last() =~= a + b.drop_last());
        assert((a + b).last() == b.last());
        lemma_last_travel_concat(a, b.drop_last(), before);
    }
}

impl Ops {
    /// The empty sequence.
    pub fn new() -> (r: Ops)
        ensures
            r@ == OpsModel::fresh(),
    {
        let r = Ops {
            commands: Vec::new(),
            last_move_to: Point3D {
                x: Binary64::zero(),
                y: Binary64::zero(),
                z: Binary64::zero(),
            },
            time_dirty: true,
            cached_time: Binary64::zero(),
            time_params: None,
        };
        proof {
            assert(r@.commands =~= Seq::empty());
        }
        r
    }

    /// The number of commands.
    pub fn len(&self) -> (r: usize)
        ensures
            r == self@.commands.len(),
    {
        self.commands.len()
    }

    /// Whether there are no commands.
    pub fn is_empty(&self) -> (r: bool)
        ensures
            r == (self@.commands.len() == 0),
    {
        self.commands.len() == 0
    }

    /// Appends a command.
    pub fn push(&mut self, node: OpNode)
        ensures
            final(self)@ == old(self)@.pushed(node@),
    {
        if let OpCategory::Moving { cmd: MoveCmd::MoveTo, end, .. } = &node.category {
            self.last_move_to = *end;
        }
        self.commands.push(node);
        self.time_dirty = true;
        proof {
            reveal_with_fuel(last_travel, 2);
            assert(seq![node@].drop_last() =~= Seq::<CommandModel>::empty());
            assert(self@.commands =~= old(self)@.commands + seq![node@]);
        }
    }

    /// Puts a command in the place of the one at an index.
    pub fn set_node(&mut self, idx: usize, node: OpNode)
        requires
            idx < old(self)@.commands.len(),
        ensures
            final(self)@ == old(self)@.with_commands(
                old(self)@.commands.update(idx as int, node@),
            ),
    {
        self.commands[idx] = node;
        self.time_dirty = true;
        proof {
            assert(self@.commands =~= old(self)@.commands.update(idx as int, node@));
        }
    }

    /// Notes that the cached execution time no longer holds.
    pub fn invalidate_time_cache(&mut self)
        ensures
            final(self)@ == (OpsModel { time_dirty: true, ..old(self)@ }),
    {
        self.time_dirty = true;
    }

    /// Appends a travel move.
    pub fn move_to(
        &mut self,
        x: Binary64,
        y: Binary64,
        z: Binary64,
        extra: Option<Vec<(Axis, Binary64)>>,
    )
        ensures
            final(self)@ == old(self)@.pushed(
                moving(MoveModel::MoveTo, Point3D { x, y, z }, option_view(extra)),
            ),
    {
        self.push_moving(MoveCmd::MoveTo, Point3D { x, y, z }, extra);
    }

    /// Appends a straight cut.
    pub fn line_to(
        &mut self,
        x: Binary64,
        y: Binary64,
        z: Binary64,
        extra: Option<Vec<(Axis, Binary64)>>,
    )
        ensures
            final(self)@ == old(self)@.pushed(
                moving(MoveModel::LineTo, Point3D { x, y, z }, option_view(extra)),
            ),
    {
        self.push_moving(MoveCmd::LineTo, Point3D { x, y, z }, extra);
    }

    /// Appends a scan line with its power values.
    pub fn scan_to(
        &mut self,
        x: Binary64,
        y: Binary64,
        z: Binary64,
        power_values: Vec<u8>,
        extra: Option<Vec<(Axis, Binary64)>>,
    )
        ensures
            final(self)@ == old(self)@.pushed(
                moving(
                    MoveModel::ScanLine { power_values: power_values@ },
                    Point3D { x, y, z },
                    option_view(extra),
                ),
            ),
    {
        self.push_moving(MoveCmd::ScanLine { power_values }, Point3D { x, y, z }, extra);
    }

    /// Appends a move that carries no machine state.
    pub fn push_moving(
        &mut self,
        cmd: MoveCmd,
        end: Point3D,
        extra: Option<Vec<(Axis, Binary64)>>,
    )
        ensures
            final(self)@ == old(self)@.pushed(moving(cmd@, end, option_view(extra))),
    {
        self.push(
            OpNode { category: OpCategory::Moving { cmd, end, extra_axes: extra, state: None } },
        );
    }

    /// Appends a state command.
    pub fn push_state(&mut self, cmd: StateCmd)
        ensures
            final(self)@ == old(self)@.pushed(CommandModel::State(cmd@)),
    {
        self.push(OpNode { category: OpCategory::State(cmd) });
    }

    /// Appends a marker.
    pub fn push_marker(&mut self, cmd: MarkerCmd)
        ensures
            final(self)@ == old(self)@.pushed(CommandModel::Marker(cmd@)),
    {
        self.push(OpNode { category: OpCategory::Marker(cmd) });
    }

    /// Appends a state command where there is one.
    fn push_optional_state(&mut self, cmd: Option<StateCmd>)
        ensures
            final(self)@ == old(self)@.extended(optional_command(option_view(cmd))),
    {
        match cmd {
            Some(c) => {
                self.push_state(c);
            },
            None => {
                self.time_dirty = true;
                proof {
                    assert(self@.commands =~= old(self)@.commands + Seq::<CommandModel>::empty());
                }
            },
        }
    }

    /// Appends the state commands that bring the machine into a state: the power always, zero
    /// where it is not set, and every other setting that is set.
    pub fn apply_state(&mut self, state: &State)
        ensures
            final(self)@ == old(self)@.extended(state_commands(state@)),
    {
        let ghost m = self@;
        let settings = settings_of(state);
        let mut i: usize = 0;
        self.time_dirty = true;
        proof {
            assert(self@.commands =~= m.commands + gathered(option_views(settings@.take(0))));
        }
        while i < settings.len()
            invariant
                i <= settings.len(),
                self@ == m.extended(gathered(option_views(settings@.take(i as int)))),
            decreases settings.len() - i,
        {
            let cmd = match &settings[i] {
                Some(c) => Some(c.clone()),
                None => None,
            };
            self.push_optional_state(cmd);
            proof {
                let done = option_views(settings@.take(i as int));
                let more = option_views(settings@.take(i + 1));
                assert(more.drop_last() =~= done);
                lemma_extended_twice(m, gathered(done), optional_command(more.last()));
            }
            i += 1;
        }
        proof {
            assert(settings@.take(i as int) =~= settings@);
        }
    }

    /// A copy.
    pub fn copy(&self) -> (r: Ops)
        ensures
            r@ == self@,
    {
        let mut commands: Vec<OpNode> = Vec::new();
        let mut i: usize = 0;
        while i < self.commands.len()
            invariant
                i <= self.commands.len(),
                command_views(commands@) == self@.commands.take(i as int),
            decreases self.commands.len() - i,
        {
            let node = self.commands[i].clone();
            let ghost before = commands@;
            commands.push(node);
            proof {
                assert(command_views(commands@) =~= command_views(before).push(node@));
                assert(command_views(commands@) =~= self@.commands.take(i + 1));
            }
            i += 1;
        }
        proof {
            assert(self@.commands.take(i as int) =~= self@.commands);
        }
        Ops {
            commands,
            last_move_to: self.last_move_to,
            time_dirty: self.time_dirty,
            cached_time: self.cached_time,
            time_params: self.time_params,
        }
    }

    /// Removes all commands.
    pub fn clear(&mut self)
        ensures
            final(self)@ == old(self)@.cleared(),
    {
        self.commands.clear();
        self.time_dirty = true;
        proof {
            assert(self@.commands =~= Seq::empty());
        }
    }

    /// Appends a copy of one command of another sequence.
    pub fn transfer_command_from(&mut self, source: &Ops, idx: usize)
        requires
            idx < source@.commands.len(),
        ensures
            final(self)@ == old(self)@.pushed(source@.commands[idx as int]),
    {
        self.push(source.commands[idx].clone());
    }

    /// Appends copies of the commands of another sequence from `start` up to, not including,
    /// `end`.
    pub fn transfer_range_from(&mut self, source: &Ops, start: usize, end: usize)
        requires
            start <= end <= source@.commands.len(),
        ensures
            final(self)@ == old(self)@.extended(
                source@.commands.subrange(start as int, end as int),
            ),
    {
        self.time_dirty = true;
        let mut k: usize = start;
        proof {
            let none = source@.commands.subrange(start as int, start as int);
            assert(none =~= Seq::empty());
            assert(self@.commands =~= old(self)@.commands + none);
        }
        while k < end
            invariant
                start <= k <= end <= source@.commands.len(),
                self@ == old(self)@.extended(source@.commands.subrange(start as int, k as int)),
            decreases end - k,
        {
            self.transfer_command_from(source, k);
            proof {
                let done = source@.commands.subrange(start as int, k as int);
                let one = seq![source@.commands[k as int]];
                lemma_extended_twice(old(self)@, done, one);
                assert(done + one =~= source@.commands.subrange(start as int, k + 1));
            }
            k += 1;
        }
    }

    /// Appends copies of all commands of another sequence.
    pub fn extend(&mut self, other: &Ops)
        ensures
            final(self)@ == old(self)@.extended(other@.commands),
    {
        self.transfer_range_from(other, 0, other.len());
        proof {
            assert(other@.commands.subrange(0, other@.commands.len() as int) =~= other@.commands);
        }
    }

    /// A new sequence of copies of the commands at the given indices, in that order.
    pub fn sub_ops(&self, indices: &Vec<usize>) -> (r: Ops)
        requires
            forall|k: int| 0 <= k < indices@.len() ==> #[trigger] indices@[k]
                < self@.commands.len(),
        ensures
            r@ == OpsModel::fresh().extended(selected(self@.commands, indices@)),
    {
        let mut r = Ops::new();
        let mut k: usize = 0;
        proof {
            assert(r@.commands =~= r@.commands + selected(self@.commands, indices@.take(0)));
        }
        while k < indices.len()
            invariant
                k <= indices.len(),
                forall|k: int| 0 <= k < indices@.len() ==> #[trigger] indices@[k]
                    < self@.commands.len(),
                r@ == OpsModel::fresh().extended(
                    selected(self@.commands, indices@.take(k as int)),
                ),
            decreases indices.len() - k,
        {
            r.transfer_command_from(self, indices[k]);
            proof {
                let done = selected(self@.commands, indices@.take(k as int));
                let one = seq![self@.commands[indices@[k as int] as int]];
                lemma_extended_twice(OpsModel::fresh(), done, one);
                assert(done + one =~= selected(self@.commands, indices@.take(k + 1)));
            }
            k += 1;
        }
        proof {
            assert(indices@.take(k as int) =~= indices@);
        }
        r
    }

    /// The kind of a command.
    pub fn command_type(&self, idx: usize) -> (r: CommandType)
        requires
            idx < self@.commands.len(),
        ensures
            r == self@.commands[idx as int].kind(),
    {
        self.commands[idx].command_type()
    }

    /// The class of a command.
    pub fn category(&self, idx: usize) -> (r: CommandCategory)
        requires
            idx < self@.commands.len(),
        ensures
            r == self@.commands[idx as int].kind().class(),
    {
        self.commands[idx].command_type().category()
    }

    /// Whether a command is a scan line.
    pub fn is_scanline(&self, idx: usize) -> (r: bool)
        requires
            idx < self@.commands.len(),
        ensures
            r == self@.commands[idx as int].is_scan(),
    {
        self.commands[idx].command_type() == CommandType::ScanLine
    }

    /// Where a moving command ends.
    pub fn endpoint(&self, idx: usize) -> (r: Point3D)
        requires
            idx < self@.commands.len(),
            self@.commands[idx as int] is Moving,
        ensures
            r == self@.commands[idx as int].end_point(),
    {
        self.commands[idx].end_point()
    }

    /// The extra axis positions of a command; none of a command that does not move.
    pub fn extra_axes(&self, idx: usize) -> (r: Option<Vec<(Axis, Binary64)>>)
        requires
            idx < self@.commands.len(),
        ensures
            option_view(r) == axes_of(self@.commands[idx as int]),
    {
        match &self.commands[idx].category {
            OpCategory::Moving { extra_axes: Some(axes), .. } => Some(copy_axes(axes)),
            _ => None,
        }
    }

    /// The power values of a scan line.
    pub fn scanline_data(&self, idx: usize) -> (r: Vec<u8>)
        requires
            idx < self@.commands.len(),
            self@.commands[idx as int].is_scan(),
        ensures
            self@.commands[idx as int]->cmd == (MoveModel::ScanLine { power_values: r@ }),
    {
        match &self.commands[idx].category {
            OpCategory::Moving { cmd: MoveCmd::ScanLine { power_values }, .. } => copy_bytes(
                power_values,
            ),
            _ => Vec::new(),
        }
    }
}

/// The extra axis positions that a command names.
pub open spec fn axes_of(command: CommandModel) -> Option<Seq<(Axis, Binary64)>> {
    match command {
        CommandModel::Moving { extra_axes, .. } => extra_axes,
        _ => None,
    }
}

/// The machine state that a command carries.
pub open spec fn state_of(command: CommandModel) -> Option<StateModel> {
    match command {
        CommandModel::Moving { state, .. } => state,
        _ => None,
    }
}

/// Every way of changing the commands marks the cached execution time as one that no longer
/// holds, and keeps it and its parameters.
pub proof fn law_time_invalidated(m: OpsModel, cs: Seq<CommandModel>)
    ensures
        m.extended(cs).time_dirty && m.cleared().time_dirty && m.with_commands(cs).time_dirty,
        m.extended(cs).cached_time == m.cached_time && m.extended(cs).time_params
            == m.time_params,
        m.cleared().cached_time == m.cached_time && m.cleared().time_params == m.time_params,
        m.with_commands(cs).cached_time == m.cached_time && m.with_commands(cs).time_params
            == m.time_params,
{
}

/// An appended command comes last, and the commands before it stay where they are.
pub proof fn law_pushed_is_last(m: OpsModel, c: CommandModel)
    ensures
        m.pushed(c).commands.len() == m.commands.len() + 1,
        m.pushed(c).commands.last() == c,
        m.pushed(c).commands.drop_last() == m.commands,
{
    assert(m.pushed(c).commands.drop_last() =~= m.commands);
}

/// After a travel move and commands that hold no other, the end of the last travel move is that
/// of the first, so that closing the path leads back to it.
pub proof fn law_close_leads_back(m: OpsModel, start: CommandModel, cs: Seq<CommandModel>)
    requires
        start.is_travel(),
        forall|i: int| 0 <= i < cs.len() ==> !(#[trigger] cs[i]).is_travel(),
    ensures
        m.pushed(start).extended(cs).last_move_to == start.end_point(),
{
    reveal_with_fuel(last_travel, 2);
    assert(seq![start].drop_last() =~= Seq::<CommandModel>::empty());
    lemma_no_travel(cs, start.end_point());
}

proof fn lemma_no_travel(cs: Seq<CommandModel>, before: Point3D)
    requires
        forall|i: int| 0 <= i < cs.len() ==> !(#[trigger] cs[i]).is_travel(),
    ensures
        last_travel(cs, before) == before,
    decreases cs.len(),
{
    if cs.len() > 0 {
        assert(!cs[cs.len() - 1].is_travel());
        lemma_no_travel(cs.drop_last(), before);
    }
}

/// A new sequence has no commands, its last travel move ends at the origin, and nothing is
/// cached.
pub proof fn law_fresh()
    ensures
        OpsModel::fresh().commands.len() == 0,
        OpsModel::fresh().last_move_to.x.bits == 0,
        OpsModel::fresh().last_move_to.y.bits == 0,
        OpsModel::fresh().last_move_to.z.bits == 0,
        OpsModel::fresh().time_dirty,
        OpsModel::fresh().cached_time.bits == 0,
        OpsModel::fresh().time_params is None,
{
}

/// Appending commands keeps those that are there and puts the others behind them, in order.
/// Removing all commands leaves none and keeps the end of the last travel move, which putting
/// other commands in their place keeps as well.
pub proof fn law_commands_changed(m: OpsModel, cs: Seq<CommandModel>)
    ensures
        m.extended(cs).commands.len() == m.commands.len() + cs.len(),
        forall|k: int|
            0 <= k < m.commands.len() ==> #[trigger] m.extended(cs).commands[k] == m.commands[k],
        forall|k: int|
            0 <= k < cs.len() ==> m.extended(cs).commands[m.commands.len() + k]
                == #[trigger] cs[k],
        m.cleared().commands.len() == 0,
        m.cleared().last_move_to == m.last_move_to,
        m.with_commands(cs).commands == cs,
        m.with_commands(cs).last_move_to == m.last_move_to,
{
}

/// The end of the last travel move is that of the last travel move among the commands appended,
/// and stays as it was if there is none among them.
pub proof fn law_last_travel(m: OpsModel, cs: Seq<CommandModel>, i: int)
    ensures
        ({
            let travel = |c: CommandModel|
                c matches CommandModel::Moving { cmd: MoveModel::MoveTo, .. };
            &&& 0 <= i < cs.len() && travel(cs[i]) && (forall|k: int|
                i < k < cs.len() ==> !travel(#[trigger] cs[k])) ==> m.extended(cs).last_move_to
                == cs[i]->end
            &&& (forall|k: int| 0 <= k < cs.len() ==> !travel(#[trigger] cs[k])) ==> m.extended(
                cs,
            ).last_move_to == m.last_move_to
        }),
{
    let travel = |c: CommandModel| c matches CommandModel::Moving { cmd: MoveModel::MoveTo, .. };
    if forall|k: int| 0 <= k < cs.len() ==> !travel(#[trigger] cs[k]) {
        assert forall|k: int| 0 <= k < cs.len() implies !(#[trigger] cs[k]).is_travel() by {
            assert(!travel(cs[k]));
        }
        lemma_no_travel(cs, m.last_move_to);
    }
    if 0 <= i < cs.len() && travel(cs[i]) && (forall|k: int|
        i < k < cs.len() ==> !travel(#[trigger] cs[k])) {
        let front = cs.take(i + 1);
        let back = cs.skip(i + 1);
        assert(front + back =~= cs);
        assert forall|k: int| 0 <= k < back.len() implies !(#[trigger] back[k]).is_travel() by {
            assert(back[k] == cs[i + 1 + k]);
            assert(!travel(cs[i + 1 + k]));
        }
        lemma_last_travel_concat(front, back, m.last_move_to);
        lemma_no_travel(back, last_travel(front, m.last_move_to));
        assert(front.last() == cs[i]);
    }
}

/// The commands of a state are one for the power, which is zero where the state sets none, and
/// one for each other setting that the state sets, with its value; there are no others, and none
/// comes twice.
pub proof fn law_state_commands(s: StateModel, c: StateCmdModel)
    ensures
        state_commands(s).contains(CommandModel::State(c)) <==> match c {
            StateCmdModel::SetPower(v) => v == if s.power is Some {
                s.power->Some_0
            } else {
                Binary64 { bits: 0 }
            },
            StateCmdModel::SetFeedRate(v) => s.feed_rate == Some(v),
            StateCmdModel::SetRapidRate(v) => s.rapid_rate == Some(v),
            StateCmdModel::SetFrequency(v) => s.frequency == Some(v),
            StateCmdModel::SetPulseWidth(v) => s.pulse_width == Some(v),
            StateCmdModel::SetSpindleRpm(v) => s.spindle_rpm == Some(v),
            StateCmdModel::SetCoolant(v) => s.coolant == Some(v),
            StateCmdModel::SetAirAssist(v) => s.air_assist == Some(v),
            StateCmdModel::SetHeadCoolant(v) => s.head_coolant == Some(v),
            StateCmdModel::SetHead(v) => s.head_uid == Some(v),
            StateCmdModel::Dwell(_) => false,
        },
        state_commands(s).len() == 1 + set_count(s.feed_rate) + set_count(s.rapid_rate)
            + set_count(s.frequency) + set_count(s.pulse_width) + set_count(s.spindle_rpm)
            + set_count(s.coolant) + set_count(s.air_assist) + set_count(s.head_coolant)
            + set_count(s.head_uid),
        forall|k: int|
            0 <= k < state_commands(s).len() ==> #[trigger] state_commands(s)[k] is State,
{
    let all = settings(s);
    lemma_gathered(all, c);
    assert(gathered(all).contains(CommandModel::State(c)) <==> exists|k: int|
        0 <= k < all.len() && #[trigger] all[k] == Some(c));
    if c is SetPower {
        assert(all[0] == Some(c) <==> all.contains(Some(c)));
    }
    if c is SetFeedRate {
        assert(all[1] == Some(c) <==> all.contains(Some(c)));
    }
    if c is SetRapidRate {
        assert(all[2] == Some(c) <==> all.contains(Some(c)));
    }
    if c is SetFrequency {
        assert(all[3] == Some(c) <==> all.contains(Some(c)));
    }
    if c is SetPulseWidth {
        assert(all[4] == Some(c) <==> all.contains(Some(c)));
    }
    if c is SetSpindleRpm {
        assert(all[5] == Some(c) <==> all.contains(Some(c)));
    }
    if c is SetCoolant {
        assert(all[6] == Some(c) <==> all.contains(Some(c)));
    }
    if c is SetAirAssist {
        assert(all[7] == Some(c) <==> all.contains(Some(c)));
    }
    if c is SetHeadCoolant {
        assert(all[8] == Some(c) <==> all.contains(Some(c)));
    }
    if c is SetHead {
        assert(all[9] == Some(c) <==> all.contains(Some(c)));
    }
    lemma_settings_length(s);
}

/// One for a setting that is set, none for one that is not.
pub open spec fn set_count<T>(setting: Option<T>) -> nat {
    if setting is Some {
        1
    } else {
        0
    }
}

proof fn lemma_gathered(cmds: Seq<Option<StateCmdModel>>, c: StateCmdModel)
    ensures
        gathered(cmds).contains(CommandModel::State(c)) <==> exists|k: int|
            0 <= k < cmds.len() && #[trigger] cmds[k] == Some(c),
        forall|k: int| 0 <= k < gathered(cmds).len() ==> #[trigger] gathered(cmds)[k] is State,
    decreases cmds.len(),
{
    if cmds.len() > 0 {
        let front = cmds.drop_last();
        lemma_gathered(front, c);
        let n = front.len() as int;
        let target = CommandModel::State(c);
        let a = gathered(front);
        let b = optional_command(cmds.last());
        let all = gathered(cmds);
        assert(all == a + b);
        if all.contains(target) {
            let k = choose|k: int| 0 <= k < all.len() && all[k] == target;
            if k < a.len() {
                assert(a[k] == target);
                let q = choose|q: int| 0 <= q < front.len() && #[trigger] front[q] == Some(c);
                assert(cmds[q] == Some(c));
            } else {
                assert(b[k - a.len()] == target);
                assert(cmds[n] == Some(c));
            }
        }
        if exists|k: int| 0 <= k < cmds.len() && #[trigger] cmds[k] == Some(c) {
            let k = choose|k: int| 0 <= k < cmds.len() && #[trigger] cmds[k] == Some(c);
            if k < n {
                assert(front[k] == Some(c));
                let q = choose|q: int| 0 <= q < a.len() && a[q] == target;
                assert(all[q] == target);
            } else {
                assert(all[a.len() as int] == target);
            }
        }
    }
}

proof fn lemma_settings_length(s: StateModel)
    ensures
        state_commands(s).len() == 1 + set_count(s.feed_rate) + set_count(s.rapid_rate)
            + set_count(s.frequency) + set_count(s.pulse_width) + set_count(s.spindle_rpm)
            + set_count(s.coolant) + set_count(s.air_assist) + set_count(s.head_coolant)
            + set_count(s.head_uid),
{
    let all = settings(s);
    let t9 = all.drop_last();
    let t8 = t9.drop_last();
    let t7 = t8.drop_last();
    let t6 = t7.drop_last();
    let t5 = t6.drop_last();
    let t4 = t5.drop_last();
    let t3 = t4.drop_last();
    let t2 = t3.drop_last();
    let t1 = t2.drop_last();
    assert(t1.drop_last() =~= Seq::empty());
    assert(gathered(t1.drop_last()).len() == 0);
    assert(gathered(t1).len() == 1);
    assert(gathered(t2).len() == gathered(t1).len() + set_count(s.feed_rate));
    assert(gathered(t3).len() == gathered(t2).len() + set_count(s.rapid_rate));
    assert(gathered(t4).len() == gathered(t3).len() + set_count(s.frequency));
    assert(gathered(t5).len() == gathered(t4).len() + set_count(s.pulse_width));
    assert(gathered(t6).len() == gathered(t5).len() + set_count(s.spindle_rpm));
    assert(gathered(t7).len() == gathered(t6).len() + set_count(s.coolant));
    assert(gathered(t8).len() == gathered(t7).len() + set_count(s.air_assist));
    assert(gathered(t9).len() == gathered(t8).len() + set_count(s.head_coolant));
    assert(gathered(all).len() == gathered(t9).len() + set_count(s.head_uid));
}

/// The model of a sequence holds its commands one by one, in order, and everything besides them.
pub proof fn law_sequence_model(ops: Ops)
    ensures
        ops@.commands.len() == ops.commands@.len(),
        forall|k: int|
            0 <= k < ops.commands@.len() ==> #[trigger] ops@.commands[k]
                == ops.commands@[k].category@,
        ops@.last_move_to == ops.last_move_to,
        ops@.time_dirty == ops.time_dirty,
        ops@.cached_time == ops.cached_time,
        ops@.time_params == ops.time_params,
{
}

} // verus!
