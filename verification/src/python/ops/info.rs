//! Detailed information about a single command, and when two such reports are equal.
use crate::binary64::Binary64;
use crate::ops::command::{
    copy_bytes, copy_name, copy_optional_axes, copy_optional_state, option_view, AirAssistMode,
    Axis, CommandModel, CommandType, CoolantMode, HeadCoolantMode, MarkerCmd, MarkerModel, MoveCmd,
    MoveModel, OpCategory, Point3D, SectionType, State, StateCmd, StateCmdModel, StateModel,
};
use crate::ops::container::{axes_of, state_of};
use crate::python::ops::container::{tuple_of, PyOps};
use vstd::prelude::*;

verus! {

/// The parameters of one command; those that its kind does not have are absent.
#[derive(Debug)]
pub struct PyCommandInfo {
    /// The kind of the command.
    pub type_: CommandType,
    /// Where a moving command ends.
    pub end: Option<(Binary64, Binary64, Binary64)>,
    /// The extra axis positions of a moving command.
    pub extra_axes: Option<Vec<(Axis, Binary64)>>,
    /// The machine state that a moving command carries.
    pub state: Option<State>,
    /// The center offset of an arc.
    pub center_offset: Option<(Binary64, Binary64)>,
    /// Whether an arc runs clockwise.
    pub clockwise: Option<bool>,
    /// The first control point of a cubic curve.
    pub control1: Option<(Binary64, Binary64, Binary64)>,
    /// The second control point of a cubic curve.
    pub control2: Option<(Binary64, Binary64, Binary64)>,
    /// The control point of a quadratic curve.
    pub control: Option<(Binary64, Binary64, Binary64)>,
    /// The power values of a scan line.
    pub power_values: Option<Vec<u8>>,
    /// The power that is set.
    pub power: Option<Binary64>,
    /// The feed rate that is set.
    pub feed_rate: Option<i32>,
    /// The rapid rate that is set.
    pub rapid_rate: Option<i32>,
    /// The pulse frequency that is set.
    pub frequency: Option<i32>,
    /// The pulse width that is set.
    pub pulse_width: Option<Binary64>,
    /// The head that is chosen.
    pub head_uid: Option<String>,
    /// The spindle speed that is set.
    pub spindle_rpm: Option<u32>,
    /// The coolant mode that is set.
    pub coolant: Option<CoolantMode>,
    /// The air assist mode that is set.
    pub air_assist: Option<AirAssistMode>,
    /// The head coolant mode that is set.
    pub head_coolant: Option<HeadCoolantMode>,
    /// The duration of a pause.
    pub duration_ms: Option<Binary64>,
    /// The layer that starts or ends.
    pub layer_uid: Option<String>,
    /// The workpiece that starts or ends, or to which a section belongs.
    pub workpiece_uid: Option<String>,
    /// The type of a section that starts or ends.
    pub section_type: Option<SectionType>,
}

/// What a [`PyCommandInfo`] is.
pub struct InfoModel {
    pub type_: CommandType,
    pub end: Option<(Binary64, Binary64, Binary64)>,
    pub extra_axes: Option<Seq<(Axis, Binary64)>>,
    pub state: Option<StateModel>,
    pub center_offset: Option<(Binary64, Binary64)>,
    pub clockwise: Option<bool>,
    pub control1: Option<(Binary64, Binary64, Binary64)>,
    pub control2: Option<(Binary64, Binary64, Binary64)>,
    pub control: Option<(Binary64, Binary64, Binary64)>,
    pub power_values: Option<Seq<u8>>,
    pub power: Option<Binary64>,
    pub feed_rate: Option<i32>,
    pub rapid_rate: Option<i32>,
    pub frequency: Option<i32>,
    pub pulse_width: Option<Binary64>,
    pub head_uid: Option<Seq<char>>,
    pub spindle_rpm: Option<u32>,
    pub coolant: Option<CoolantMode>,
    pub air_assist: Option<AirAssistMode>,
    pub head_coolant: Option<HeadCoolantMode>,
    pub duration_ms: Option<Binary64>,
    pub layer_uid: Option<Seq<char>>,
    pub workpiece_uid: Option<Seq<char>>,
    pub section_type: Option<SectionType>,
}

impl View for PyCommandInfo {
    type V = InfoModel;

    open spec fn view(&self) -> InfoModel {
        InfoModel {
            type_: self.type_,
            end: self.end,
            extra_axes: option_view(self.extra_axes),
            state: option_view(self.state),
            center_offset: self.center_offset,
            clockwise: self.clockwise,
            control1: self.control1,
            control2: self.control2,
            control: self.control,
            power_values: option_view(self.power_values),
            power: self.power,
            feed_rate: self.feed_rate,
            rapid_rate: self.rapid_rate,
            frequency: self.frequency,
            pulse_width: self.pulse_width,
            head_uid: option_view(self.head_uid),
            spindle_rpm: self.spindle_rpm,
            coolant: self.coolant,
            air_assist: self.air_assist,
            head_coolant: self.head_coolant,
            duration_ms: self.duration_ms,
            layer_uid: option_view(self.layer_uid),
            workpiece_uid: option_view(self.workpiece_uid),
            section_type: self.section_type,
        }
    }
}

/// A report that names nothing but the kind of the command.
pub open spec fn blank(kind: CommandType) -> InfoModel {
    InfoModel {
        type_: kind,
        end: None,
        extra_axes: None,
        state: None,
        center_offset: None,
        clockwise: None,
        control1: None,
        control2: None,
        control: None,
        power_values: None,
        power: None,
        feed_rate: None,
        rapid_rate: None,
        frequency: None,
        pulse_width: None,
        head_uid: None,
        spindle_rpm: None,
        coolant: None,
        air_assist: None,
        head_coolant: None,
        duration_ms: None,
        layer_uid: None,
        workpiece_uid: None,
        section_type: None,
    }
}

/// The report on a command.
pub open spec fn info_of(c: CommandModel) -> InfoModel {
    match c {
        CommandModel::Moving { cmd, end, extra_axes, state } => {
            let moved = InfoModel {
                end: Some(tuple_of(end)),
                extra_axes,
                state,
                ..blank(c.kind())
            };
            match cmd {
                MoveModel::ArcTo { center, cw } => InfoModel {
                    center_offset: Some((center.x, center.y)),
                    clockwise: Some(cw),
                    ..moved
                },
                MoveModel::BezierTo { control1, control2 } => InfoModel {
                    control1: Some(tuple_of(control1)),
                    control2: Some(tuple_of(control2)),
                    ..moved
                },
                MoveModel::QuadraticBezierTo { control } => InfoModel {
                    control: Some(tuple_of(control)),
                    ..moved
                },
                MoveModel::ScanLine { power_values } => InfoModel {
                    power_values: Some(power_values),
                    ..moved
                },
                _ => moved,
            }
        },
        CommandModel::State(cmd) => {
            let none = blank(c.kind());
            match cmd {
                StateCmdModel::SetPower(v) => InfoModel { power: Some(v), ..none },
                StateCmdModel::SetFeedRate(v) => InfoModel { feed_rate: Some(v), ..none },
                StateCmdModel::SetRapidRate(v) => InfoModel { rapid_rate: Some(v), ..none },
                StateCmdModel::SetFrequency(v) => InfoModel { frequency: Some(v), ..none },
                StateCmdModel::SetPulseWidth(v) => InfoModel { pulse_width: Some(v), ..none },
                StateCmdModel::SetSpindleRpm(v) => InfoModel { spindle_rpm: Some(v), ..none },
                StateCmdModel::SetCoolant(v) => InfoModel { coolant: Some(v), ..none },
                StateCmdModel::SetAirAssist(v) => InfoModel { air_assist: Some(v), ..none },
                StateCmdModel::SetHeadCoolant(v) => InfoModel { head_coolant: Some(v), ..none },
                StateCmdModel::SetHead(v) => InfoModel { head_uid: Some(v), ..none },
                StateCmdModel::Dwell(v) => InfoModel { duration_ms: Some(v), ..none },
            }
        },
        CommandModel::Marker(cmd) => {
            let none = blank(c.kind());
            match cmd {
                MarkerModel::LayerStart(uid) => InfoModel { layer_uid: Some(uid), ..none },
                MarkerModel::LayerEnd(uid) => InfoModel { layer_uid: Some(uid), ..none },
                MarkerModel::WorkpieceStart(uid) => InfoModel { workpiece_uid: Some(uid), ..none },
                MarkerModel::WorkpieceEnd(uid) => InfoModel { workpiece_uid: Some(uid), ..none },
                MarkerModel::OpsSectionStart { section_type, workpiece_uid, .. } => InfoModel {
                    section_type: Some(section_type),
                    workpiece_uid,
                    ..none
                },
                MarkerModel::OpsSectionEnd { section_type, .. } => InfoModel {
                    section_type: Some(section_type),
                    ..none
                },
                _ => none,
            }
        },
    }
}

impl PyOps {
    /// Reports on the command at an index.
    pub fn inspect(&self, idx: usize) -> (r: PyCommandInfo)
        requires
            idx < self@.commands.len(),
        ensures
            r@ == info_of(self@.commands[idx as int]),
    {
        let node = &self.inner.commands[idx];
        let mut info = PyCommandInfo {
            type_: node.command_type(),
            end: None,
            extra_axes: None,
            state: None,
            center_offset: None,
            clockwise: None,
            control1: None,
            control2: None,
            control: None,
            power_values: None,
            power: None,
            feed_rate: None,
            rapid_rate: None,
            frequency: None,
            pulse_width: None,
            head_uid: None,
            spindle_rpm: None,
            coolant: None,
            air_assist: None,
            head_coolant: None,
            duration_ms: None,
            layer_uid: None,
            workpiece_uid: None,
            section_type: None,
        };
        match &node.category {
            OpCategory::Moving { cmd, end, extra_axes, state } => {
                info.end = Some((end.x, end.y, end.z));
                info.extra_axes = copy_optional_axes(extra_axes);
                info.state = copy_optional_state(state);
                match cmd {
                    MoveCmd::ArcTo { center, cw } => {
                        info.center_offset = Some((center.x, center.y));
                        info.clockwise = Some(*cw);
                    },
                    MoveCmd::BezierTo { control1, control2 } => {
                        info.control1 = Some((control1.x, control1.y, control1.z));
                        info.control2 = Some((control2.x, control2.y, control2.z));
                    },
                    MoveCmd::QuadraticBezierTo { control } => {
                        info.control = Some((control.x, control.y, control.z));
                    },
                    MoveCmd::ScanLine { power_values } => {
                        info.power_values = Some(copy_bytes(power_values));
                    },
                    _ => {},
                }
            },
            OpCategory::State(cmd) => match cmd {
                StateCmd::SetPower(v) => {
                    info.power = Some(*v);
                },
                StateCmd::SetFeedRate(v) => {
                    info.feed_rate = Some(*v);
                },
                StateCmd::SetRapidRate(v) => {
                    info.rapid_rate = Some(*v);
                },
                StateCmd::SetFrequency(v) => {
                    info.frequency = Some(*v);
                },
                StateCmd::SetPulseWidth(v) => {
                    info.pulse_width = Some(*v);
                },
                StateCmd::SetSpindleRpm(v) => {
                    info.spindle_rpm = Some(*v);
                },
                StateCmd::SetCoolant(v) => {
                    info.coolant = Some(*v);
                },
                StateCmd::SetAirAssist(v) => {
                    info.air_assist = Some(*v);
                },
                StateCmd::SetHeadCoolant(v) => {
                    info.head_coolant = Some(*v);
                },
                StateCmd::SetHead(uid) => {
                    info.head_uid = Some(uid.clone());
                },
                StateCmd::Dwell(v) => {
                    info.duration_ms = Some(*v);
                },
            },
            OpCategory::Marker(cmd) => match cmd {
                MarkerCmd::LayerStart(uid) => {
                    info.layer_uid = Some(uid.clone());
                },
                MarkerCmd::LayerEnd(uid) => {
                    info.layer_uid = Some(uid.clone());
                },
                MarkerCmd::WorkpieceStart(uid) => {
                    info.workpiece_uid = Some(uid.clone());
                },
                MarkerCmd::WorkpieceEnd(uid) => {
                    info.workpiece_uid = Some(uid.clone());
                },
                MarkerCmd::OpsSectionStart { section_type, workpiece_uid, .. } => {
                    info.section_type = Some(*section_type);
                    info.workpiece_uid = copy_name(workpiece_uid);
                },
                MarkerCmd::OpsSectionEnd { section_type, .. } => {
                    info.section_type = Some(*section_type);
                },
                _ => {},
            },
        }
        info
    }
}

/// Whether two optional numbers are both absent, or both present and equal.
pub open spec fn same_optional(a: Option<Binary64>, b: Option<Binary64>) -> bool {
    match (a, b) {
        (Some(x), Some(y)) => x.same_number(y),
        (None, None) => true,
        _ => false,
    }
}

/// The same of optional pairs, part by part.
pub open spec fn same_pair(
    a: Option<(Binary64, Binary64)>,
    b: Option<(Binary64, Binary64)>,
) -> bool {
    match (a, b) {
        (Some(x), Some(y)) => x.0.same_number(y.0) && x.1.same_number(y.1),
        (None, None) => true,
        _ => false,
    }
}

/// The same of optional triples, part by part.
pub open spec fn same_triple(
    a: Option<(Binary64, Binary64, Binary64)>,
    b: Option<(Binary64, Binary64, Binary64)>,
) -> bool {
    match (a, b) {
        (Some(x), Some(y)) => x.0.same_number(y.0) && x.1.same_number(y.1) && x.2.same_number(y.2),
        (None, None) => true,
        _ => false,
    }
}

fn equal_optional(a: Option<Binary64>, b: Option<Binary64>) -> (r: bool)
    ensures
        r == same_optional(a, b),
{
    match (a, b) {
        (Some(x), Some(y)) => x.equals(y),
        (None, None) => true,
        _ => false,
    }
}

fn equal_pair(a: Option<(Binary64, Binary64)>, b: Option<(Binary64, Binary64)>) -> (r: bool)
    ensures
        r == same_pair(a, b),
{
    match (a, b) {
        (Some(x), Some(y)) => x.0.equals(y.0) && x.1.equals(y.1),
        (None, None) => true,
        _ => false,
    }
}

fn equal_triple(
    a: Option<(Binary64, Binary64, Binary64)>,
    b: Option<(Binary64, Binary64, Binary64)>,
) -> (r: bool)
    ensures
        r == same_triple(a, b),
{
    match (a, b) {
        (Some(x), Some(y)) => x.0.equals(y.0) && x.1.equals(y.1) && x.2.equals(y.2),
        (None, None) => true,
        _ => false,
    }
}

fn equal_name(a: &Option<String>, b: &Option<String>) -> (r: bool)
    ensures
        r == (option_view(*a) == option_view(*b)),
{
    match (a, b) {
        (Some(x), Some(y)) => *x == *y,
        (None, None) => true,
        _ => false,
    }
}

fn equal_bytes(a: &Vec<u8>, b: &Vec<u8>) -> (r: bool)
    ensures
        r == (a@ == b@),
{
    if a.len() != b.len() {
        return false;
    }
    let mut i: usize = 0;
    while i < a.len()
        invariant
            i <= a.len(),
            a.len() == b.len(),
            forall|k: int| 0 <= k < i ==> a@[k] == b@[k],
        decreases a.len() - i,
    {
        if a[i] != b[i] {
            return false;
        }
        i += 1;
    }
    proof {
        assert(a@ =~= b@);
    }
    true
}

/// Whether two reports agree in everything but the extra axes, the state and the power values.
/// Numbers agree as IEEE numbers do.
pub open spec fn plain_fields_agree(a: InfoModel, b: InfoModel) -> bool {
    &&& a.type_ == b.type_
    &&& same_triple(a.end, b.end)
    &&& same_pair(a.center_offset, b.center_offset)
    &&& a.clockwise == b.clockwise
    &&& same_triple(a.control1, b.control1)
    &&& same_triple(a.control2, b.control2)
    &&& same_triple(a.control, b.control)
    &&& same_optional(a.power, b.power)
    &&& a.feed_rate == b.feed_rate
    &&& a.rapid_rate == b.rapid_rate
    &&& a.frequency == b.frequency
    &&& same_optional(a.pulse_width, b.pulse_width)
    &&& a.head_uid == b.head_uid
    &&& a.spindle_rpm == b.spindle_rpm
    &&& a.coolant == b.coolant
    &&& a.air_assist == b.air_assist
    &&& a.head_coolant == b.head_coolant
    &&& same_optional(a.duration_ms, b.duration_ms)
    &&& a.layer_uid == b.layer_uid
    &&& a.workpiece_uid == b.workpiece_uid
    &&& a.section_type == b.section_type
}

fn equal_flag(a: Option<bool>, b: Option<bool>) -> (r: bool)
    ensures
        r == (a == b),
{
    match (a, b) {
        (Some(x), Some(y)) => x == y,
        (None, None) => true,
        _ => false,
    }
}

fn equal_rate(a: Option<i32>, b: Option<i32>) -> (r: bool)
    ensures
        r == (a == b),
{
    match (a, b) {
        (Some(x), Some(y)) => x == y,
        (None, None) => true,
        _ => false,
    }
}

fn equal_rpm(a: Option<u32>, b: Option<u32>) -> (r: bool)
    ensures
        r == (a == b),
{
    match (a, b) {
        (Some(x), Some(y)) => x == y,
        (None, None) => true,
        _ => false,
    }
}

fn equal_coolant(a: Option<CoolantMode>, b: Option<CoolantMode>) -> (r: bool)
    ensures
        r == (a == b),
{
    match (a, b) {
        (Some(x), Some(y)) => x == y,
        (None, None) => true,
        _ => false,
    }
}

fn equal_air(a: Option<AirAssistMode>, b: Option<AirAssistMode>) -> (r: bool)
    ensures
        r == (a == b),
{
    match (a, b) {
        (Some(x), Some(y)) => x == y,
        (None, None) => true,
        _ => false,
    }
}

fn equal_head_coolant(a: Option<HeadCoolantMode>, b: Option<HeadCoolantMode>) -> (r: bool)
    ensures
        r == (a == b),
{
    match (a, b) {
        (Some(x), Some(y)) => x == y,
        (None, None) => true,
        _ => false,
    }
}

fn equal_section(a: Option<SectionType>, b: Option<SectionType>) -> (r: bool)
    ensures
        r == (a == b),
{
    match (a, b) {
        (Some(x), Some(y)) => x == y,
        (None, None) => true,
        _ => false,
    }
}

/// How a comparison of two optional objects stands before the objects themselves are compared.
#[derive(Clone, Copy, Debug, PartialEq, Eq, Structural)]
pub enum ObjectComparison {
    /// Both are absent.
    Equal,
    /// One is absent.
    Different,
    /// Both are there, so that they decide.
    Ask,
}

/// How a comparison stands, by which of the two objects are there.
pub open spec fn comparison_of(a: bool, b: bool) -> ObjectComparison {
    if a && b {
        ObjectComparison::Ask
    } else if a || b {
        ObjectComparison::Different
    } else {
        ObjectComparison::Equal
    }
}

/// Compares two optional objects as far as their presence decides.
pub fn py_pyany_eq<T>(a: Option<&T>, b: Option<&T>) -> (r: ObjectComparison)
    ensures
        r == comparison_of(a is Some, b is Some),
{
    match (a, b) {
        (Some(_), Some(_)) => ObjectComparison::Ask,
        (None, None) => ObjectComparison::Equal,
        _ => ObjectComparison::Different,
    }
}

/// Where the comparison of two reports stands: objects to compare next, or the answer.
#[derive(Clone, Copy, Debug, PartialEq, Eq, Structural)]
pub enum EqStep {
    /// The extra axes are to be compared.
    CompareExtraAxes,
    /// The machine states are to be compared.
    CompareState,
    /// The comparison is over.
    Answer(bool),
}

/// The step once the extra axes and the states agree: the power values decide.
pub open spec fn power_step(a: InfoModel, b: InfoModel) -> EqStep {
    EqStep::Answer(a.power_values == b.power_values)
}

/// The step once the extra axes agree.
pub open spec fn state_step(a: InfoModel, b: InfoModel) -> EqStep {
    match comparison_of(a.state is Some, b.state is Some) {
        ObjectComparison::Ask => EqStep::CompareState,
        ObjectComparison::Different => EqStep::Answer(false),
        ObjectComparison::Equal => power_step(a, b),
    }
}

/// The step once the plain fields agree.
pub open spec fn axes_step(a: InfoModel, b: InfoModel) -> EqStep {
    match comparison_of(a.extra_axes is Some, b.extra_axes is Some) {
        ObjectComparison::Ask => EqStep::CompareExtraAxes,
        ObjectComparison::Different => EqStep::Answer(false),
        ObjectComparison::Equal => state_step(a, b),
    }
}

/// The first step of a comparison with something that may be no report at all.
pub open spec fn first_step(a: InfoModel, b: Option<InfoModel>) -> EqStep {
    match b {
        Some(b) => if plain_fields_agree(a, b) {
            axes_step(a, b)
        } else {
            EqStep::Answer(false)
        },
        None => EqStep::Answer(false),
    }
}

/// The step after the objects that a step named were compared.
pub open spec fn next_step(a: InfoModel, b: InfoModel, step: EqStep, equal: bool) -> EqStep {
    match step {
        EqStep::CompareExtraAxes => if equal {
            state_step(a, b)
        } else {
            EqStep::Answer(false)
        },
        EqStep::CompareState => if equal {
            power_step(a, b)
        } else {
            EqStep::Answer(false)
        },
        EqStep::Answer(_) => step,
    }
}

/// Whether two reports are equal, given how the objects compare that both have.
pub open spec fn reports_equal(
    a: InfoModel,
    b: InfoModel,
    axes_equal: bool,
    state_equal: bool,
) -> bool {
    &&& plain_fields_agree(a, b)
    &&& a.extra_axes is Some == b.extra_axes is Some
    &&& a.extra_axes is Some ==> axes_equal
    &&& a.state is Some == b.state is Some
    &&& a.state is Some ==> state_equal
    &&& a.power_values == b.power_values
}

impl PyCommandInfo {
    fn plain_fields_equal(&self, other: &PyCommandInfo) -> (r: bool)
        ensures
            r == plain_fields_agree(self@, other@),
    {
        if !(self.type_ == other.type_) {
            return false;
        }
        if !equal_triple(self.end, other.end) {
            return false;
        }
        if !equal_pair(self.center_offset, other.center_offset) {
            return false;
        }
        if !equal_flag(self.clockwise, other.clockwise) {
            return false;
        }
        if !equal_triple(self.control1, other.control1) {
            return false;
        }
        if !equal_triple(self.control2, other.control2) {
            return false;
        }
        if !equal_triple(self.control, other.control) {
            return false;
        }
        if !equal_optional(self.power, other.power) {
            return false;
        }
        if !equal_rate(self.feed_rate, other.feed_rate) {
            return false;
        }
        if !equal_rate(self.rapid_rate, other.rapid_rate) {
            return false;
        }
        if !equal_rate(self.frequency, other.frequency) {
            return false;
        }
        if !equal_optional(self.pulse_width, other.pulse_width) {
            return false;
        }
        if !equal_name(&self.head_uid, &other.head_uid) {
            return false;
        }
        if !equal_rpm(self.spindle_rpm, other.spindle_rpm) {
            return false;
        }
        if !equal_coolant(self.coolant, other.coolant) {
            return false;
        }
        if !equal_air(self.air_assist, other.air_assist) {
            return false;
        }
        if !equal_head_coolant(self.head_coolant, other.head_coolant) {
            return false;
        }
        if !equal_optional(self.duration_ms, other.duration_ms) {
            return false;
        }
        if !equal_name(&self.layer_uid, &other.layer_uid) {
            return false;
        }
        if !equal_name(&self.workpiece_uid, &other.workpiece_uid) {
            return false;
        }
        equal_section(self.section_type, other.section_type)
    }

    fn after_state(&self, other: &PyCommandInfo) -> (r: EqStep)
        ensures
            r == power_step(self@, other@),
    {
        let equal = match (&self.power_values, &other.power_values) {
            (Some(a), Some(b)) => equal_bytes(a, b),
            (None, None) => true,
            _ => false,
        };
        EqStep::Answer(equal)
    }

    fn after_axes(&self, other: &PyCommandInfo) -> (r: EqStep)
        ensures
            r == state_step(self@, other@),
    {
        match py_pyany_eq(self.state.as_ref(), other.state.as_ref()) {
            ObjectComparison::Ask => EqStep::CompareState,
            ObjectComparison::Different => EqStep::Answer(false),
            ObjectComparison::Equal => self.after_state(other),
        }
    }

    /// Starts the comparison with another object; `other` is absent where that object is no
    /// report. The extra axes and the states are objects of the caller, which is asked for how
    /// they compare only where that decides.
    pub fn __eq__(&self, other: Option<&PyCommandInfo>) -> (r: EqStep)
        ensures
            r == first_step(
                self@,
                match other {
                    Some(o) => Some(o@),
                    None => None,
                },
            ),
    {
        match other {
            None => EqStep::Answer(false),
            Some(o) => if self.plain_fields_equal(o) {
                match py_pyany_eq(self.extra_axes.as_ref(), o.extra_axes.as_ref()) {
                    ObjectComparison::Ask => EqStep::CompareExtraAxes,
                    ObjectComparison::Different => EqStep::Answer(false),
                    ObjectComparison::Equal => self.after_axes(o),
                }
            } else {
                EqStep::Answer(false)
            },
        }
    }

    /// Goes on with the comparison once the objects that the last step named were compared.
    pub fn eq_next(&self, other: &PyCommandInfo, step: EqStep, equal: bool) -> (r: EqStep)
        ensures
            r == next_step(self@, other@, step, equal),
    {
        match step {
            EqStep::CompareExtraAxes => if equal {
                self.after_axes(other)
            } else {
                EqStep::Answer(false)
            },
            EqStep::CompareState => if equal {
                self.after_state(other)
            } else {
                EqStep::Answer(false)
            },
            EqStep::Answer(_) => step,
        }
    }
}

/// A comparison takes at most two questions, and its answer is whether the reports are equal.
pub proof fn law_comparison_answers(
    a: InfoModel,
    b: InfoModel,
    axes_equal: bool,
    state_equal: bool,
)
    ensures
        ({
            let reply = |s: EqStep|
                if s == EqStep::CompareExtraAxes {
                    axes_equal
                } else {
                    state_equal
                };
            let one = first_step(a, Some(b));
            let two = next_step(a, b, one, reply(one));
            let three = next_step(a, b, two, reply(two));
            three == EqStep::Answer(reports_equal(a, b, axes_equal, state_equal))
        }),
{
}

/// Whether no number of a report, extra axes and state aside, is a NaN.
pub open spec fn free_of_nan(a: InfoModel) -> bool {
    &&& a.end matches Some(p) ==> !p.0.is_nan() && !p.1.is_nan() && !p.2.is_nan()
    &&& a.center_offset matches Some(p) ==> !p.0.is_nan() && !p.1.is_nan()
    &&& a.control1 matches Some(p) ==> !p.0.is_nan() && !p.1.is_nan() && !p.2.is_nan()
    &&& a.control2 matches Some(p) ==> !p.0.is_nan() && !p.1.is_nan() && !p.2.is_nan()
    &&& a.control matches Some(p) ==> !p.0.is_nan() && !p.1.is_nan() && !p.2.is_nan()
    &&& a.power matches Some(v) ==> !v.is_nan()
    &&& a.pulse_width matches Some(v) ==> !v.is_nan()
    &&& a.duration_ms matches Some(v) ==> !v.is_nan()
}

/// A report whose extra axes and state equal themselves equals itself, unless one of its
/// numbers is a NaN.
pub proof fn law_report_equals_itself(a: InfoModel)
    ensures
        reports_equal(a, a, true, true) == free_of_nan(a),
{
}

/// Equality of reports is symmetric.
pub proof fn law_comparison_symmetric(
    a: InfoModel,
    b: InfoModel,
    axes_equal: bool,
    state_equal: bool,
)
    ensures
        reports_equal(a, b, axes_equal, state_equal) == reports_equal(
            b,
            a,
            axes_equal,
            state_equal,
        ),
{
}

/// A report says what the readers of single parameters say, for those that report under a name
/// of their own; a rate stands under the name of its command.
pub proof fn law_report_agrees_with_readers(c: CommandModel)
    ensures
        info_of(c).type_ == c.kind(),
        info_of(c).end is Some == c is Moving,
        c is Moving ==> info_of(c).end == Some(tuple_of(c.end_point())),
        info_of(c).extra_axes == axes_of(c),
        info_of(c).state == state_of(c),
        info_of(c).power_values == c.scan_power(),
        info_of(c).control == c.quadratic(),
        info_of(c).power == c.power_level(),
        info_of(c).frequency == c.pulse_frequency(),
        info_of(c).pulse_width == c.pulse_length(),
        info_of(c).spindle_rpm == c.rpm(),
        info_of(c).coolant == c.coolant_mode(),
        info_of(c).air_assist == c.air_mode(),
        info_of(c).head_coolant == c.head_coolant_mode(),
        info_of(c).head_uid == c.head(),
        info_of(c).duration_ms == c.pause(),
        info_of(c).layer_uid == c.layer(),
        c.workpiece() is Some ==> info_of(c).workpiece_uid == c.workpiece(),
        c.workpiece() is None && c.section() is None ==> info_of(c).workpiece_uid is None,
        c.feed_or_rapid_rate() == if info_of(c).feed_rate is Some {
            info_of(c).feed_rate
        } else {
            info_of(c).rapid_rate
        },
        c.feed_or_rapid_rate() is None ==> info_of(c).feed_rate is None && info_of(
            c,
        ).rapid_rate is None,
        c.arc() matches Some(a) ==> info_of(c).center_offset == Some((a.0, a.1)) && info_of(
            c,
        ).clockwise == Some(a.2),
        c.arc() is None ==> info_of(c).center_offset is None && info_of(c).clockwise is None,
        c.bezier() matches Some(b) ==> info_of(c).control1 == Some(b.0) && info_of(c).control2
            == Some(b.1),
        c.bezier() is None ==> info_of(c).control1 is None && info_of(c).control2 is None,
        c.section() matches Some(s) ==> info_of(c).section_type == Some(s.0) && info_of(
            c,
        ).workpiece_uid == s.1,
        c.section() is None ==> info_of(c).section_type is None,
{
}

/// Whether two optional numbers are both absent, or both there, no NaN and of one rank.
pub open spec fn numbers_agree(a: Option<Binary64>, b: Option<Binary64>) -> bool {
    &&& a is Some == b is Some
    &&& a is Some ==> !a->Some_0.is_nan() && !b->Some_0.is_nan() && a->Some_0.rank()
        == b->Some_0.rank()
}

/// One part of an optional triple.
pub open spec fn part(t: Option<(Binary64, Binary64, Binary64)>, k: int) -> Option<Binary64> {
    match t {
        Some(t) => Some(
            if k == 0 {
                t.0
            } else if k == 1 {
                t.1
            } else {
                t.2
            },
        ),
        None => None,
    }
}

/// Two reports are equal exactly if every one of their parameters agrees: numbers as IEEE
/// numbers do, the extra axes and the states as the objects compare, and everything else by
/// being the same.
pub proof fn law_equality_by_parameter(
    a: InfoModel,
    b: InfoModel,
    axes_equal: bool,
    state_equal: bool,
)
    ensures
        reports_equal(a, b, axes_equal, state_equal) <==> {
            &&& a.type_ == b.type_
            &&& forall|k: int|
                0 <= k < 3 ==> numbers_agree(#[trigger] part(a.end, k), part(b.end, k))
            &&& forall|k: int|
                0 <= k < 3 ==> numbers_agree(#[trigger] part(a.control1, k), part(b.control1, k))
            &&& forall|k: int|
                0 <= k < 3 ==> numbers_agree(#[trigger] part(a.control2, k), part(b.control2, k))
            &&& forall|k: int|
                0 <= k < 3 ==> numbers_agree(#[trigger] part(a.control, k), part(b.control, k))
            &&& a.center_offset is Some == b.center_offset is Some
            &&& a.center_offset is Some ==> {
                let x = a.center_offset->Some_0;
                let y = b.center_offset->Some_0;
                numbers_agree(Some(x.0), Some(y.0)) && numbers_agree(Some(x.1), Some(y.1))
            }
            &&& numbers_agree(a.power, b.power)
            &&& numbers_agree(a.pulse_width, b.pulse_width)
            &&& numbers_agree(a.duration_ms, b.duration_ms)
            &&& a.clockwise == b.clockwise
            &&& a.power_values == b.power_values
            &&& a.feed_rate == b.feed_rate
            &&& a.rapid_rate == b.rapid_rate
            &&& a.frequency == b.frequency
            &&& a.head_uid == b.head_uid
            &&& a.spindle_rpm == b.spindle_rpm
            &&& a.coolant == b.coolant
            &&& a.air_assist == b.air_assist
            &&& a.head_coolant == b.head_coolant
            &&& a.layer_uid == b.layer_uid
            &&& a.workpiece_uid == b.workpiece_uid
            &&& a.section_type == b.section_type
            &&& a.extra_axes is Some == b.extra_axes is Some
            &&& a.extra_axes is Some ==> axes_equal
            &&& a.state is Some == b.state is Some
            &&& a.state is Some ==> state_equal
        },
{
    assert(same_triple(a.end, b.end) <==> forall|k: int|
        0 <= k < 3 ==> numbers_agree(#[trigger] part(a.end, k), part(b.end, k))) by {
        lemma_triple(a.end, b.end);
    }
    lemma_triple(a.control1, b.control1);
    lemma_triple(a.control2, b.control2);
    lemma_triple(a.control, b.control);
}

proof fn lemma_triple(
    a: Option<(Binary64, Binary64, Binary64)>,
    b: Option<(Binary64, Binary64, Binary64)>,
)
    ensures
        same_triple(a, b) <==> forall|k: int|
            0 <= k < 3 ==> numbers_agree(#[trigger] part(a, k), part(b, k)),
{
    if forall|k: int| 0 <= k < 3 ==> numbers_agree(#[trigger] part(a, k), part(b, k)) {
        assert(numbers_agree(part(a, 0), part(b, 0)));
        assert(numbers_agree(part(a, 1), part(b, 1)));
        assert(numbers_agree(part(a, 2), part(b, 2)));
    }
}

/// A comparison with something that is no report says at once that it differs. Objects are asked
/// for only where both reports have them.
pub proof fn law_comparison_questions(a: InfoModel, b: InfoModel, equal: bool)
    ensures
        first_step(a, None) == EqStep::Answer(false),
        first_step(a, Some(b)) == EqStep::CompareExtraAxes ==> a.extra_axes is Some
            && b.extra_axes is Some,
        first_step(a, Some(b)) == EqStep::CompareState ==> a.state is Some && b.state is Some,
        next_step(a, b, EqStep::CompareExtraAxes, equal) == EqStep::CompareState ==> equal
            && a.state is Some && b.state is Some,
        next_step(a, b, EqStep::Answer(equal), false) == EqStep::Answer(equal),
{
}

/// What a report on a move says: its end, its extra axes, its state and the parameters of its
/// shape; nothing else of it is set.
pub proof fn law_report_of_move(
    cmd: MoveModel,
    end: Point3D,
    extra_axes: Option<Seq<(Axis, Binary64)>>,
    state: Option<StateModel>,
)
    ensures
        ({
            let r = info_of(CommandModel::Moving { cmd, end, extra_axes, state });
            let t = |p: Point3D| Some((p.x, p.y, p.z));
            &&& r.end == t(end)
            &&& r.extra_axes == extra_axes
            &&& r.state == state
            &&& cmd matches MoveModel::ArcTo { center, cw } ==> r.center_offset == Some(
                (center.x, center.y),
            ) && r.clockwise == Some(cw)
            &&& cmd matches MoveModel::BezierTo { control1, control2 } ==> r.control1 == t(control1)
                && r.control2 == t(control2)
            &&& cmd matches MoveModel::QuadraticBezierTo { control } ==> r.control == t(control)
            &&& cmd matches MoveModel::ScanLine { power_values } ==> r.power_values == Some(
                power_values,
            )
            &&& r.power is None && r.feed_rate is None && r.rapid_rate is None
            &&& r.frequency is None
            &&& r.pulse_width is None && r.head_uid is None && r.spindle_rpm is None
            &&& r.coolant is None && r.air_assist is None && r.head_coolant is None
            &&& r.duration_ms is None && r.layer_uid is None && r.workpiece_uid is None
            &&& r.section_type is None
        }),
{
}

/// A rate stands in a report under the name of the command that sets it.
pub proof fn law_report_of_rate(rate: i32)
    ensures
        ({
            let feed = info_of(CommandModel::State(StateCmdModel::SetFeedRate(rate)));
            let rapid = info_of(CommandModel::State(StateCmdModel::SetRapidRate(rate)));
            &&& feed.feed_rate == Some(rate) && feed.rapid_rate is None
            &&& rapid.rapid_rate == Some(rate) && rapid.feed_rate is None
        }),
{
}

/// The model of a report holds every parameter.
pub proof fn law_report_model(i: PyCommandInfo)
    ensures
        i@.type_ == i.type_,
        i@.end == i.end,
        i@.center_offset == i.center_offset,
        i@.clockwise == i.clockwise,
        i@.control1 == i.control1,
        i@.control2 == i.control2,
        i@.control == i.control,
        i@.power == i.power,
        i@.feed_rate == i.feed_rate,
        i@.rapid_rate == i.rapid_rate,
        i@.frequency == i.frequency,
        i@.pulse_width == i.pulse_width,
        i@.spindle_rpm == i.spindle_rpm,
        i@.coolant == i.coolant,
        i@.air_assist == i.air_assist,
        i@.head_coolant == i.head_coolant,
        i@.duration_ms == i.duration_ms,
        i@.section_type == i.section_type,
        i@.extra_axes is Some <==> i.extra_axes is Some,
        i.extra_axes is Some ==> i@.extra_axes->Some_0 == i.extra_axes->Some_0@,
        i@.state is Some <==> i.state is Some,
        i.state is Some ==> i@.state->Some_0 == i.state->Some_0@,
        i@.power_values is Some <==> i.power_values is Some,
        i.power_values is Some ==> i@.power_values->Some_0 == i.power_values->Some_0@,
        i@.head_uid is Some <==> i.head_uid is Some,
        i.head_uid is Some ==> i@.head_uid->Some_0 == i.head_uid->Some_0@,
        i@.layer_uid is Some <==> i.layer_uid is Some,
        i.layer_uid is Some ==> i@.layer_uid->Some_0 == i.layer_uid->Some_0@,
        i@.workpiece_uid is Some <==> i.workpiece_uid is Some,
        i.workpiece_uid is Some ==> i@.workpiece_uid->Some_0 == i.workpiece_uid->Some_0@,
{
}

} // verus!
