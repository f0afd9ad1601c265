//! The machine state along a sequence.
use crate::binary64::Binary64;
use crate::error::{out_of_range, outcome_view, ErrorKind, PyError};
use crate::ops::command::{
    copy_optional_axes, Axis, CommandModel, MoveModel, OpCategory, OpNode, Point3D, State,
    StateCmd, StateCmdModel, StateModel,
};
use crate::ops::container::{
    axes_of, gathered, optional_command, settings, state_commands, state_of,
};
use crate::python::ops::container::PyOps;
use vstd::prelude::*;

verus! {

impl StateModel {
    /// The state of which nothing is known.
    pub open spec fn unknown() -> StateModel {
        StateModel {
            power: None,
            feed_rate: None,
            rapid_rate: None,
            frequency: None,
            pulse_width: None,
            spindle_rpm: None,
            coolant: None,
            air_assist: None,
            head_coolant: None,
            head_uid: None,
        }
    }

    /// The state after a state command; a pause leaves it as it is.
    pub open spec fn after(self, cmd: StateCmdModel) -> StateModel {
        match cmd {
            StateCmdModel::SetPower(v) => StateModel { power: Some(v), ..self },
            StateCmdModel::SetFeedRate(v) => StateModel { feed_rate: Some(v), ..self },
            StateCmdModel::SetRapidRate(v) => StateModel { rapid_rate: Some(v), ..self },
            StateCmdModel::SetFrequency(v) => StateModel { frequency: Some(v), ..self },
            StateCmdModel::SetPulseWidth(v) => StateModel { pulse_width: Some(v), ..self },
            StateCmdModel::SetSpindleRpm(v) => StateModel { spindle_rpm: Some(v), ..self },
            StateCmdModel::SetCoolant(v) => StateModel { coolant: Some(v), ..self },
            StateCmdModel::SetAirAssist(v) => StateModel { air_assist: Some(v), ..self },
            StateCmdModel::SetHeadCoolant(v) => StateModel { head_coolant: Some(v), ..self },
            StateCmdModel::SetHead(v) => StateModel { head_uid: Some(v), ..self },
            StateCmdModel::Dwell(_) => self,
        }
    }

    /// The state with the settings of another put over it: the power always, zero where the
    /// other does not set it, and every other setting that the other sets.
    pub open spec fn overlaid(self, s: StateModel) -> StateModel {
        StateModel {
            power: Some(
                match s.power {
                    Some(p) => p,
                    None => Binary64 { bits: 0 },
                },
            ),
            feed_rate: over(self.feed_rate, s.feed_rate),
            rapid_rate: over(self.rapid_rate, s.rapid_rate),
            frequency: over(self.frequency, s.frequency),
            pulse_width: over(self.pulse_width, s.pulse_width),
            spindle_rpm: over(self.spindle_rpm, s.spindle_rpm),
            coolant: over(self.coolant, s.coolant),
            air_assist: over(self.air_assist, s.air_assist),
            head_coolant: over(self.head_coolant, s.head_coolant),
            head_uid: over(self.head_uid, s.head_uid),
        }
    }
}

/// A setting, or the one below it if it is not set.
pub open spec fn over<T>(below: Option<T>, above: Option<T>) -> Option<T> {
    if above is Some {
        above
    } else {
        below
    }
}

/// The state after commands that run in a given state.
pub open spec fn folded(base: StateModel, cs: Seq<CommandModel>) -> StateModel
    decreases cs.len(),
{
    if cs.len() == 0 {
        base
    } else {
        let before = folded(base, cs.drop_last());
        match cs.last() {
            CommandModel::State(cmd) => before.after(cmd),
            _ => before,
        }
    }
}

/// The state that the first `n` commands lead to.
pub open spec fn accumulated(cs: Seq<CommandModel>, n: int) -> StateModel {
    folded(StateModel::unknown(), cs.take(n))
}

/// The commands with, on each moving one, the state that the commands before it lead to.
pub open spec fn preloaded(cs: Seq<CommandModel>) -> Seq<CommandModel> {
    Seq::new(cs.len(), |i: int| with_state(cs[i], accumulated(cs, i)))
}

/// A command with a state, if it moves and carries none.
pub open spec fn with_default_state(c: CommandModel, s: StateModel) -> CommandModel {
    match c {
        CommandModel::Moving { cmd, end, extra_axes, state: None } => CommandModel::Moving {
            cmd,
            end,
            extra_axes,
            state: Some(s),
        },
        _ => c,
    }
}

/// A command with a state, if it moves.
pub open spec fn with_state(c: CommandModel, s: StateModel) -> CommandModel {
    match c {
        CommandModel::Moving { cmd, end, extra_axes, .. } => CommandModel::Moving {
            cmd,
            end,
            extra_axes,
            state: Some(s),
        },
        _ => c,
    }
}

impl State {
    /// The state of which nothing is known.
    pub fn unknown() -> (r: State)
        ensures
            r@ == StateModel::unknown(),
    {
        State {
            power: None,
            feed_rate: None,
            rapid_rate: None,
            frequency: None,
            pulse_width: None,
            spindle_rpm: None,
            coolant: None,
            air_assist: None,
            head_coolant: None,
            head_uid: None,
        }
    }

    /// Applies a state command.
    pub fn apply(&mut self, cmd: &StateCmd)
        ensures
            final(self)@ == old(self)@.after(cmd@),
    {
        match cmd {
            StateCmd::SetPower(v) => {
                self.power = Some(*v);
            },
            StateCmd::SetFeedRate(v) => {
                self.feed_rate = Some(*v);
            },
            StateCmd::SetRapidRate(v) => {
                self.rapid_rate = Some(*v);
            },
            StateCmd::SetFrequency(v) => {
                self.frequency = Some(*v);
            },
            StateCmd::SetPulseWidth(v) => {
                self.pulse_width = Some(*v);
            },
            StateCmd::SetSpindleRpm(v) => {
                self.spindle_rpm = Some(*v);
            },
            StateCmd::SetCoolant(v) => {
                self.coolant = Some(*v);
            },
            StateCmd::SetAirAssist(v) => {
                self.air_assist = Some(*v);
            },
            StateCmd::SetHeadCoolant(v) => {
                self.head_coolant = Some(*v);
            },
            StateCmd::SetHead(v) => {
                self.head_uid = Some(v.clone());
            },
            StateCmd::Dwell(_) => {},
        }
    }
}

proof fn lemma_accumulated_step(cs: Seq<CommandModel>, i: int)
    requires
        0 <= i < cs.len(),
    ensures
        accumulated(cs, i + 1) == match cs[i] {
            CommandModel::State(cmd) => accumulated(cs, i).after(cmd),
            _ => accumulated(cs, i),
        },
{
    assert(cs.take(i + 1).drop_last() =~= cs.take(i));
}

impl PyOps {
    /// The state that the commands up to and including the one at an index lead to.
    pub fn state_at(&self, idx: usize) -> (r: Result<State, PyError>)
        ensures
            outcome_view(r) == if idx >= self@.commands.len() {
                Err(out_of_range())
            } else {
                Ok(accumulated(self@.commands, idx + 1))
            },
    {
        if idx >= self.inner.len() {
            return Err(PyError::new(ErrorKind::Index, "index out of range"));
        }
        let mut state = State::unknown();
        let mut i: usize = 0;
        proof {
            assert(self@.commands.take(0) =~= Seq::empty());
        }
        while i <= idx
            invariant
                i <= idx + 1,
                idx < self@.commands.len(),
                state@ == accumulated(self@.commands, i as int),
            decreases idx + 1 - i,
        {
            proof {
                lemma_accumulated_step(self@.commands, i as int);
                assert(self@.commands.len() == self.inner.commands.len());
            }
            if let OpCategory::State(cmd) = &self.inner.commands[i].category {
                state.apply(cmd);
            }
            i += 1;
        }
        Ok(state)
    }

    /// Puts on every moving command the state that the commands before it lead to.
    pub fn preload_state(&mut self)
        ensures
            final(self)@ == old(self)@.with_commands(preloaded(old(self)@.commands)),
    {
        let ghost cs = self@.commands;
        let mut state = State::unknown();
        let mut i: usize = 0;
        self.inner.invalidate_time_cache();
        proof {
            assert(cs.take(0) =~= Seq::empty());
        }
        while i < self.inner.len()
            invariant
                i <= cs.len(),
                cs == old(self)@.commands,
                self@.commands.len() == cs.len(),
                self@ == old(self)@.with_commands(self@.commands),
                state@ == accumulated(cs, i as int),
                forall|k: int| 0 <= k < i ==> #[trigger] self@.commands[k] == preloaded(cs)[k],
                forall|k: int| i <= k < cs.len() ==> #[trigger] self@.commands[k] == cs[k],
            decreases cs.len() - i,
        {
            proof {
                lemma_accumulated_step(cs, i as int);
                assert(self@.commands[i as int] == self.inner.commands@[i as int]@);
            }
            match &self.inner.commands[i].category {
                OpCategory::State(cmd) => {
                    state.apply(cmd);
                },
                OpCategory::Moving { .. } => {
                    self.set_state_at(i, &state);
                },
                OpCategory::Marker(_) => {},
            }
            i += 1;
        }
        proof {
            assert(self@.commands =~= preloaded(cs));
        }
    }

    /// Puts a state on every moving command that carries none.
    pub fn set_state_on_moving(&mut self, state: &State)
        ensures
            final(self)@.commands.len() == old(self)@.commands.len(),
            forall|i: int|
                0 <= i < old(self)@.commands.len() ==> #[trigger] final(self)@.commands[i]
                    == with_default_state(old(self)@.commands[i], state@),
            final(self)@ == old(self)@.with_commands(final(self)@.commands),
    {
        let mut i: usize = 0;
        self.inner.time_dirty = true;
        while i < self.inner.commands.len()
            invariant
                i <= self@.commands.len(),
                self@ == old(self)@.with_commands(self@.commands),
                self@.commands.len() == old(self)@.commands.len(),
                forall|k: int|
                    0 <= k < i ==> #[trigger] self@.commands[k] == with_default_state(
                        old(self)@.commands[k],
                        state@,
                    ),
                forall|k: int|
                    i <= k < self@.commands.len() ==> #[trigger] self@.commands[k] == old(
                        self,
                    )@.commands[k],
            decreases self@.commands.len() - i,
        {
            proof {
                assert(self@.commands[i as int] == self.inner.commands@[i as int]@);
            }
            if let OpCategory::Moving { cmd, end, extra_axes, state: None } =
                &self.inner.commands[i].category {
                let node = OpNode {
                    category: OpCategory::Moving {
                        cmd: cmd.clone(),
                        end: *end,
                        extra_axes: copy_optional_axes(extra_axes),
                        state: Some(state.clone()),
                    },
                };
                self.inner.set_node(i, node);
            }
            i += 1;
        }
    }

    /// Puts a state on one command, in the place of any that it carries. A command that does not
    /// move carries none and stays as it is.
    pub fn set_state_at(&mut self, idx: usize, state: &State)
        requires
            idx < old(self)@.commands.len(),
        ensures
            final(self)@ == old(self)@.with_commands(
                old(self)@.commands.update(
                    idx as int,
                    with_state(old(self)@.commands[idx as int], state@),
                ),
            ),
    {
        if let OpCategory::Moving { cmd, end, extra_axes, .. } =
            &self.inner.commands[idx].category {
            let node = OpNode {
                category: OpCategory::Moving {
                    cmd: cmd.clone(),
                    end: *end,
                    extra_axes: copy_optional_axes(extra_axes),
                    state: Some(state.clone()),
                },
            };
            self.inner.set_node(idx, node);
        } else {
            self.inner.invalidate_time_cache();
            proof {
                let cs = old(self)@.commands;
                assert(cs.update(idx as int, cs[idx as int]) =~= cs);
            }
        }
    }
}

proof fn lemma_folded_concat(base: StateModel, a: Seq<CommandModel>, b: Seq<CommandModel>)
    ensures
        folded(base, a + b) == folded(folded(base, a), b),
    decreases b.len(),
{
    if b.len() == 0 {
        assert(a + b =~= a);
    } else {
        assert((a + b).drop_last() =~= a + b.drop_last());
        lemma_folded_concat(base, a, b.drop_last());
    }
}

/// The state after optional state commands.
spec fn folded_optional(base: StateModel, cmds: Seq<Option<StateCmdModel>>) -> StateModel
    decreases cmds.len(),
{
    if cmds.len() == 0 {
        base
    } else {
        let before = folded_optional(base, cmds.drop_last());
        match cmds.last() {
            Some(cmd) => before.after(cmd),
            None => before,
        }
    }
}

proof fn lemma_folded_gathered(base: StateModel, cmds: Seq<Option<StateCmdModel>>)
    ensures
        folded(base, gathered(cmds)) == folded_optional(base, cmds),
    decreases cmds.len(),
{
    if cmds.len() > 0 {
        lemma_folded_gathered(base, cmds.drop_last());
        let before = gathered(cmds.drop_last());
        let last = optional_command(cmds.last());
        lemma_folded_concat(base, before, last);
        reveal_with_fuel(folded, 2);
        if cmds.last() is Some {
            assert(last.drop_last() =~= Seq::empty());
        }
    }
}

/// Applying a state leads to that state: after its commands every setting that it sets holds,
/// the power being zero where it sets none, and every other setting is as before.
pub proof fn law_apply_state_reaches(cs: Seq<CommandModel>, s: StateModel)
    ensures
        accumulated(cs + state_commands(s), (cs + state_commands(s)).len() as int)
            == accumulated(cs, cs.len() as int).overlaid(s),
{
    let all = cs + state_commands(s);
    assert(all.take(all.len() as int) =~= all);
    assert(cs.take(cs.len() as int) =~= cs);
    let base = accumulated(cs, cs.len() as int);
    lemma_folded_concat(StateModel::unknown(), cs, state_commands(s));
    lemma_folded_gathered(base, settings(s));
    lemma_settings_overlay(base, s);
}

proof fn lemma_settings_overlay(base: StateModel, s: StateModel)
    ensures
        folded_optional(base, settings(s)) == base.overlaid(s),
{
    let all = settings(s);
    let t9 = all.drop_last();
    let t8 = t9.drop_last();
    let t7 = t8.drop_last();
    let t6 = t7.drop_last();
    let t5 = t6.drop_last();
    let t4 = t5.drop_last();
    let t3 = t4.drop_last();
    let t2 = t3.drop_last();
    let t1 = t2.drop_last();
    assert(t1.drop_last() =~= Seq::empty());
    assert(folded_optional(base, t1.drop_last()) == base);
    let f1 = folded_optional(base, t1);
    let f2 = folded_optional(base, t2);
    let f3 = folded_optional(base, t3);
    let f4 = folded_optional(base, t4);
    let f5 = folded_optional(base, t5);
    let f6 = folded_optional(base, t6);
    let f7 = folded_optional(base, t7);
    let f8 = folded_optional(base, t8);
    let f9 = folded_optional(base, t9);
    assert(f1.power == base.overlaid(s).power);
    assert(f2.feed_rate == over(base.feed_rate, s.feed_rate));
    assert(f3.rapid_rate == over(base.rapid_rate, s.rapid_rate));
    assert(f4.frequency == over(base.frequency, s.frequency));
    assert(f5.pulse_width == over(base.pulse_width, s.pulse_width));
    assert(f6.spindle_rpm == over(base.spindle_rpm, s.spindle_rpm));
    assert(f7.coolant == over(base.coolant, s.coolant));
    assert(f8.air_assist == over(base.air_assist, s.air_assist));
    assert(f9.head_coolant == over(base.head_coolant, s.head_coolant));
}

/// Preloading puts on each moving command the state at that command, and changes nothing else.
pub proof fn law_preload_is_state_at(cs: Seq<CommandModel>, i: int)
    requires
        0 <= i < cs.len(),
    ensures
        preloaded(cs).len() == cs.len(),
        cs[i] is Moving ==> state_of(preloaded(cs)[i]) == Some(accumulated(cs, i + 1)),
        !(cs[i] is Moving) ==> preloaded(cs)[i] == cs[i],
        accumulated(preloaded(cs), i + 1) == accumulated(cs, i + 1),
{
    lemma_accumulated_step(cs, i);
    lemma_preload_keeps_states(cs, i + 1);
}

proof fn lemma_preload_keeps_states(cs: Seq<CommandModel>, n: int)
    requires
        0 <= n <= cs.len(),
    ensures
        accumulated(preloaded(cs), n) == accumulated(cs, n),
    decreases n,
{
    if n > 0 {
        lemma_preload_keeps_states(cs, n - 1);
        lemma_accumulated_step(cs, n - 1);
        lemma_accumulated_step(preloaded(cs), n - 1);
    } else {
        assert(cs.take(0) =~= preloaded(cs).take(0));
    }
}

/// A state put on a moving command can be read back from it, and putting it there changes
/// nothing else of the command.
pub proof fn law_state_reads_back(c: CommandModel, s: StateModel)
    ensures
        c is Moving ==> state_of(with_state(c, s)) == Some(s),
        with_state(c, s).kind() == c.kind(),
        axes_of(with_state(c, s)) == axes_of(c),
        c is Moving ==> with_state(c, s)->cmd == c->cmd && with_state(c, s).end_point()
            == c.end_point(),
        !(c is Moving) ==> with_state(c, s) == c,
        state_of(c) is Some ==> with_default_state(c, s) == c,
        state_of(c) is None ==> with_default_state(c, s) == with_state(c, s),
{
}

/// Whether a setting is what the first `n` commands make it: the value of the last of them that
/// sets it, or nothing if none does. `pick` gives the value that a state command sets.
pub open spec fn settled<T>(
    cs: Seq<CommandModel>,
    n: int,
    pick: spec_fn(StateCmdModel) -> Option<T>,
    value: Option<T>,
) -> bool {
    let sets = |c: CommandModel| c is State && pick(c->State_0) is Some;
    match value {
        Some(v) => exists|i: int|
            0 <= i < n && #[trigger] cs[i] is State && pick(cs[i]->State_0) == Some(v) && (forall|
                k: int,
            |
                i < k < n ==> !sets(#[trigger] cs[k])),
        None => forall|k: int| 0 <= k < n ==> !sets(#[trigger] cs[k]),
    }
}

proof fn lemma_settled<T>(
    cs: Seq<CommandModel>,
    n: int,
    pick: spec_fn(StateCmdModel) -> Option<T>,
    get: spec_fn(StateModel) -> Option<T>,
)
    requires
        0 <= n <= cs.len(),
        get(StateModel::unknown()) is None,
        forall|s: StateModel, c: StateCmdModel|
            #![trigger get(s.after(c))]
            get(s.after(c)) == if pick(c) is Some {
                pick(c)
            } else {
                get(s)
            },
    ensures
        settled(cs, n, pick, get(accumulated(cs, n))),
    decreases n,
{
    if n > 0 {
        lemma_settled(cs, n - 1, pick, get);
        lemma_accumulated_step(cs, n - 1);
        let sets = |c: CommandModel| c is State && pick(c->State_0) is Some;
        let before = accumulated(cs, n - 1);
        if cs[n - 1] is State {
            assert(get(before.after(cs[n - 1]->State_0)) == if pick(cs[n - 1]->State_0) is Some {
                pick(cs[n - 1]->State_0)
            } else {
                get(before)
            });
        }
        if sets(cs[n - 1]) {
            assert(pick(cs[n - 1]->State_0) == Some(get(accumulated(cs, n))->Some_0));
        } else if get(before) is Some {
            let v = get(before)->Some_0;
            let i = choose|i: int|
                0 <= i < n - 1 && #[trigger] cs[i] is State && pick(cs[i]->State_0) == Some(v) && (
                forall|k: int| i < k < n - 1 ==> !sets(#[trigger] cs[k]));
            assert forall|k: int| i < k < n implies !sets(#[trigger] cs[k]) by {}
            assert(cs[i] is State);
        }
    } else {
        assert(cs.take(0) =~= Seq::empty());
    }
}

/// The state at a command holds, for each setting, the value of the last command up to there
/// that sets it, and nothing where none does.
pub proof fn law_last_setting_holds(cs: Seq<CommandModel>, n: int)
    requires
        0 <= n <= cs.len(),
    ensures
        settled(
            cs,
            n,
            |c: StateCmdModel|
                match c {
                    StateCmdModel::SetPower(v) => Some(v),
                    _ => None,
                },
            accumulated(cs, n).power,
        ),
        settled(
            cs,
            n,
            |c: StateCmdModel|
                match c {
                    StateCmdModel::SetFeedRate(v) => Some(v),
                    _ => None,
                },
            accumulated(cs, n).feed_rate,
        ),
        settled(
            cs,
            n,
            |c: StateCmdModel|
                match c {
                    StateCmdModel::SetRapidRate(v) => Some(v),
                    _ => None,
                },
            accumulated(cs, n).rapid_rate,
        ),
        settled(
            cs,
            n,
            |c: StateCmdModel|
                match c {
                    StateCmdModel::SetFrequency(v) => Some(v),
                    _ => None,
                },
            accumulated(cs, n).frequency,
        ),
        settled(
            cs,
            n,
            |c: StateCmdModel|
                match c {
                    StateCmdModel::SetPulseWidth(v) => Some(v),
                    _ => None,
                },
            accumulated(cs, n).pulse_width,
        ),
        settled(
            cs,
            n,
            |c: StateCmdModel|
                match c {
                    StateCmdModel::SetSpindleRpm(v) => Some(v),
                    _ => None,
                },
            accumulated(cs, n).spindle_rpm,
        ),
        settled(
            cs,
            n,
            |c: StateCmdModel|
                match c {
                    StateCmdModel::SetCoolant(v) => Some(v),
                    _ => None,
                },
            accumulated(cs, n).coolant,
        ),
        settled(
            cs,
            n,
            |c: StateCmdModel|
                match c {
                    StateCmdModel::SetAirAssist(v) => Some(v),
                    _ => None,
                },
            accumulated(cs, n).air_assist,
        ),
        settled(
            cs,
            n,
            |c: StateCmdModel|
                match c {
                    StateCmdModel::SetHeadCoolant(v) => Some(v),
                    _ => None,
                },
            accumulated(cs, n).head_coolant,
        ),
        settled(
            cs,
            n,
            |c: StateCmdModel|
                match c {
                    StateCmdModel::SetHead(v) => Some(v),
                    _ => None,
                },
            accumulated(cs, n).head_uid,
        ),
{
    lemma_settled(
        cs,
        n,
        |c: StateCmdModel|
            match c {
                StateCmdModel::SetPower(v) => Some(v),
                _ => None,
            },
        |s: StateModel| s.power,
    );
    lemma_settled(
        cs,
        n,
        |c: StateCmdModel|
            match c {
                StateCmdModel::SetFeedRate(v) => Some(v),
                _ => None,
            },
        |s: StateModel| s.feed_rate,
    );
    lemma_settled(
        cs,
        n,
        |c: StateCmdModel|
            match c {
                StateCmdModel::SetRapidRate(v) => Some(v),
                _ => None,
            },
        |s: StateModel| s.rapid_rate,
    );
    lemma_settled(
        cs,
        n,
        |c: StateCmdModel|
            match c {
                StateCmdModel::SetFrequency(v) => Some(v),
                _ => None,
            },
        |s: StateModel| s.frequency,
    );
    lemma_settled(
        cs,
        n,
        |c: StateCmdModel|
            match c {
                StateCmdModel::SetPulseWidth(v) => Some(v),
                _ => None,
            },
        |s: StateModel| s.pulse_width,
    );
    lemma_settled(
        cs,
        n,
        |c: StateCmdModel|
            match c {
                StateCmdModel::SetSpindleRpm(v) => Some(v),
                _ => None,
            },
        |s: StateModel| s.spindle_rpm,
    );
    lemma_settled(
        cs,
        n,
        |c: StateCmdModel|
            match c {
                StateCmdModel::SetCoolant(v) => Some(v),
                _ => None,
            },
        |s: StateModel| s.coolant,
    );
    lemma_settled(
        cs,
        n,
        |c: StateCmdModel|
            match c {
                StateCmdModel::SetAirAssist(v) => Some(v),
                _ => None,
            },
        |s: StateModel| s.air_assist,
    );
    lemma_settled(
        cs,
        n,
        |c: StateCmdModel|
            match c {
                StateCmdModel::SetHeadCoolant(v) => Some(v),
                _ => None,
            },
        |s: StateModel| s.head_coolant,
    );
    lemma_settled(
        cs,
        n,
        |c: StateCmdModel|
            match c {
                StateCmdModel::SetHead(v) => Some(v),
                _ => None,
            },
        |s: StateModel| s.head_uid,
    );
}

/// Putting a state on a command replaces the state it carries, and nothing else; as a default it
/// does so only where none is carried.
pub proof fn law_state_replaced(
    cmd: MoveModel,
    end: Point3D,
    extra_axes: Option<Seq<(Axis, Binary64)>>,
    carried: Option<StateModel>,
    s: StateModel,
)
    ensures
        with_state(CommandModel::Moving { cmd, end, extra_axes, state: carried }, s) == (
        CommandModel::Moving { cmd, end, extra_axes, state: Some(s) }),
        with_default_state(CommandModel::Moving { cmd, end, extra_axes, state: carried }, s) == (
        CommandModel::Moving {
            cmd,
            end,
            extra_axes,
            state: if carried is Some {
                carried
            } else {
                Some(s)
            },
        }),
{
}

/// Putting a state over another: what it sets holds, what it does not set stays; only the power
/// is set in any case, to zero where the state says nothing of it.
pub proof fn law_overlay_by_setting(base: StateModel, s: StateModel)
    ensures
        s.power is Some ==> base.overlaid(s).power == s.power,
        s.power is None ==> base.overlaid(s).power is Some && base.overlaid(s).power->Some_0.bits
            == 0,
        base.overlaid(s).feed_rate == if s.feed_rate is Some {
            s.feed_rate
        } else {
            base.feed_rate
        },
        base.overlaid(s).rapid_rate == if s.rapid_rate is Some {
            s.rapid_rate
        } else {
            base.rapid_rate
        },
        base.overlaid(s).frequency == if s.frequency is Some {
            s.frequency
        } else {
            base.frequency
        },
        base.overlaid(s).pulse_width == if s.pulse_width is Some {
            s.pulse_width
        } else {
            base.pulse_width
        },
        base.overlaid(s).spindle_rpm == if s.spindle_rpm is Some {
            s.spindle_rpm
        } else {
            base.spindle_rpm
        },
        base.overlaid(s).coolant == if s.coolant is Some {
            s.coolant
        } else {
            base.coolant
        },
        base.overlaid(s).air_assist == if s.air_assist is Some {
            s.air_assist
        } else {
            base.air_assist
        },
        base.overlaid(s).head_coolant == if s.head_coolant is Some {
            s.head_coolant
        } else {
            base.head_coolant
        },
        base.overlaid(s).head_uid == if s.head_uid is Some {
            s.head_uid
        } else {
            base.head_uid
        },
{
}

/// Applying a state puts its settings over those that held: the power in any case, and of the
/// others those that the state sets.
pub proof fn law_applied_settings(cs: Seq<CommandModel>, s: StateModel)
    ensures
        ({
            let all = cs + state_commands(s);
            let before = accumulated(cs, cs.len() as int);
            let after = accumulated(all, all.len() as int);
            &&& after.power is Some
            &&& s.power is Some ==> after.power == s.power
            &&& s.power is None ==> after.power->Some_0.bits == 0
            &&& s.feed_rate is Some ==> after.feed_rate == s.feed_rate
            &&& s.feed_rate is None ==> after.feed_rate == before.feed_rate
            &&& s.rapid_rate is Some ==> after.rapid_rate == s.rapid_rate
            &&& s.rapid_rate is None ==> after.rapid_rate == before.rapid_rate
            &&& s.frequency is Some ==> after.frequency == s.frequency
            &&& s.frequency is None ==> after.frequency == before.frequency
            &&& s.pulse_width is Some ==> after.pulse_width == s.pulse_width
            &&& s.pulse_width is None ==> after.pulse_width == before.pulse_width
            &&& s.spindle_rpm is Some ==> after.spindle_rpm == s.spindle_rpm
            &&& s.spindle_rpm is None ==> after.spindle_rpm == before.spindle_rpm
            &&& s.coolant is Some ==> after.coolant == s.coolant
            &&& s.coolant is None ==> after.coolant == before.coolant
            &&& s.air_assist is Some ==> after.air_assist == s.air_assist
            &&& s.air_assist is None ==> after.air_assist == before.air_assist
            &&& s.head_coolant is Some ==> after.head_coolant == s.head_coolant
            &&& s.head_coolant is None ==> after.head_coolant == before.head_coolant
            &&& s.head_uid is Some ==> after.head_uid == s.head_uid
            &&& s.head_uid is None ==> after.head_uid == before.head_uid
        }),
{
    law_apply_state_reaches(cs, s);
}

/// Nothing of a state is known at first.
pub proof fn law_nothing_known()
    ensures
        StateModel::unknown().power is None,
        StateModel::unknown().feed_rate is None,
        StateModel::unknown().rapid_rate is None,
        StateModel::unknown().frequency is None,
        StateModel::unknown().pulse_width is None,
        StateModel::unknown().spindle_rpm is None,
        StateModel::unknown().coolant is None,
        StateModel::unknown().air_assist is None,
        StateModel::unknown().head_coolant is None,
        StateModel::unknown().head_uid is None,
{
}

} // verus!
