//! The commands of a machining sequence: moves, state changes and structural markers.
use crate::binary64::Binary64;
use vstd::prelude::*;

verus! {

/// A point of the plane.
#[derive(Clone, Copy, Debug)]
pub struct Point {
    pub x: Binary64,
    pub y: Binary64,
}

/// A point of space.
#[derive(Clone, Copy, Debug)]
pub struct Point3D {
    pub x: Binary64,
    pub y: Binary64,
    pub z: Binary64,
}

/// An extra machine axis, by its number.
#[derive(Clone, Copy, Debug, PartialEq, Eq, Structural)]
pub struct Axis {
    pub code: u8,
}

/// A coolant mode, by its number.
#[derive(Clone, Copy, Debug, PartialEq, Eq, Structural)]
pub struct CoolantMode {
    pub code: u8,
}

/// An air assist mode, by its number.
#[derive(Clone, Copy, Debug, PartialEq, Eq, Structural)]
pub struct AirAssistMode {
    pub code: u8,
}

/// A head coolant mode, by its number.
#[derive(Clone, Copy, Debug, PartialEq, Eq, Structural)]
pub struct HeadCoolantMode {
    pub code: u8,
}

/// A raster mode, by its number.
#[derive(Clone, Copy, Debug, PartialEq, Eq, Structural)]
pub struct RasterMode {
    pub code: u8,
}

/// What a section of a sequence produces.
#[derive(Clone, Copy, Debug, PartialEq, Eq, Structural)]
pub enum SectionType {
    VectorOutline,
    RasterFill,
}

/// The broad class of a command.
#[derive(Clone, Copy, Debug, PartialEq, Eq, Structural)]
pub enum CommandCategory {
    Moving,
    State,
    Marker,
}

/// The kind of a command.
#[derive(Clone, Copy, Debug, PartialEq, Eq, Structural)]
pub enum CommandType {
    MoveTo,
    LineTo,
    ArcTo,
    BezierTo,
    QuadraticBezierTo,
    ScanLine,
    SetPower,
    SetFeedRate,
    SetRapidRate,
    SetFrequency,
    SetPulseWidth,
    SetSpindleRpm,
    SetCoolant,
    SetAirAssist,
    SetHeadCoolant,
    SetHead,
    Dwell,
    JobStart,
    JobEnd,
    LayerStart,
    LayerEnd,
    WorkpieceStart,
    WorkpieceEnd,
    OpsSectionStart,
    OpsSectionEnd,
    StateBlockStart,
    StateBlockEnd,
}

/// A machine state: the settings that are known.
#[derive(Debug)]
pub struct State {
    pub power: Option<Binary64>,
    pub feed_rate: Option<i32>,
    pub rapid_rate: Option<i32>,
    pub frequency: Option<i32>,
    pub pulse_width: Option<Binary64>,
    pub spindle_rpm: Option<u32>,
    pub coolant: Option<CoolantMode>,
    pub air_assist: Option<AirAssistMode>,
    pub head_coolant: Option<HeadCoolantMode>,
    pub head_uid: Option<String>,
}

/// A move, apart from where it ends.
#[derive(Debug)]
pub enum MoveCmd {
    MoveTo,
    LineTo,
    ArcTo { center: Point, cw: bool },
    BezierTo { control1: Point3D, control2: Point3D },
    QuadraticBezierTo { control: Point3D },
    ScanLine { power_values: Vec<u8> },
}

/// A change of the machine state, or a pause.
#[derive(Debug)]
pub enum StateCmd {
    SetPower(Binary64),
    SetFeedRate(i32),
    SetRapidRate(i32),
    SetFrequency(i32),
    SetPulseWidth(Binary64),
    SetSpindleRpm(u32),
    SetCoolant(CoolantMode),
    SetAirAssist(AirAssistMode),
    SetHeadCoolant(HeadCoolantMode),
    SetHead(String),
    Dwell(Binary64),
}

/// A structural marker.
#[derive(Debug)]
pub enum MarkerCmd {
    JobStart,
    JobEnd,
    LayerStart(String),
    LayerEnd(String),
    WorkpieceStart(String),
    WorkpieceEnd(String),
    OpsSectionStart {
        section_type: SectionType,
        workpiece_uid: Option<String>,
        raster_mode: Option<RasterMode>,
    },
    OpsSectionEnd { section_type: SectionType, raster_mode: Option<RasterMode> },
    StateBlockStart(Option<String>),
    StateBlockEnd,
}

/// What a command does. A moving command may name positions of extra axes, and may carry the
/// machine state that holds while it runs.
#[derive(Debug)]
pub enum OpCategory {
    Moving {
        cmd: MoveCmd,
        end: Point3D,
        extra_axes: Option<Vec<(Axis, Binary64)>>,
        state: Option<State>,
    },
    State(StateCmd),
    Marker(MarkerCmd),
}

/// One command of a sequence.
#[derive(Debug)]
pub struct OpNode {
    pub category: OpCategory,
}

/// What a [`State`] is.
pub struct StateModel {
    pub power: Option<Binary64>,
    pub feed_rate: Option<i32>,
    pub rapid_rate: Option<i32>,
    pub frequency: Option<i32>,
    pub pulse_width: Option<Binary64>,
    pub spindle_rpm: Option<u32>,
    pub coolant: Option<CoolantMode>,
    pub air_assist: Option<AirAssistMode>,
    pub head_coolant: Option<HeadCoolantMode>,
    pub head_uid: Option<Seq<char>>,
}

/// What a [`MoveCmd`] is.
pub enum MoveModel {
    MoveTo,
    LineTo,
    ArcTo { center: Point, cw: bool },
    BezierTo { control1: Point3D, control2: Point3D },
    QuadraticBezierTo { control: Point3D },
    ScanLine { power_values: Seq<u8> },
}

/// What a [`StateCmd`] is.
pub enum StateCmdModel {
    SetPower(Binary64),
    SetFeedRate(i32),
    SetRapidRate(i32),
    SetFrequency(i32),
    SetPulseWidth(Binary64),
    SetSpindleRpm(u32),
    SetCoolant(CoolantMode),
    SetAirAssist(AirAssistMode),
    SetHeadCoolant(HeadCoolantMode),
    SetHead(Seq<char>),
    Dwell(Binary64),
}

/// What a [`MarkerCmd`] is.
pub enum MarkerModel {
    JobStart,
    JobEnd,
    LayerStart(Seq<char>),
    LayerEnd(Seq<char>),
    WorkpieceStart(Seq<char>),
    WorkpieceEnd(Seq<char>),
    OpsSectionStart {
        section_type: SectionType,
        workpiece_uid: Option<Seq<char>>,
        raster_mode: Option<RasterMode>,
    },
    OpsSectionEnd { section_type: SectionType, raster_mode: Option<RasterMode> },
    StateBlockStart(Option<Seq<char>>),
    StateBlockEnd,
}

/// What an [`OpNode`] is.
pub enum CommandModel {
    Moving {
        cmd: MoveModel,
        end: Point3D,
        extra_axes: Option<Seq<(Axis, Binary64)>>,
        state: Option<StateModel>,
    },
    State(StateCmdModel),
    Marker(MarkerModel),
}

/// The view of an optional value.
pub open spec fn option_view<T: View>(o: Option<T>) -> Option<T::V> {
    match o {
        Some(v) => Some(v@),
        None => None,
    }
}

impl View for State {
    type V = StateModel;

    open spec fn view(&self) -> StateModel {
        StateModel {
            power: self.power,
            feed_rate: self.feed_rate,
            rapid_rate: self.rapid_rate,
            frequency: self.frequency,
            pulse_width: self.pulse_width,
            spindle_rpm: self.spindle_rpm,
            coolant: self.coolant,
            air_assist: self.air_assist,
            head_coolant: self.head_coolant,
            head_uid: option_view(self.head_uid),
        }
    }
}

impl View for MoveCmd {
    type V = MoveModel;

    open spec fn view(&self) -> MoveModel {
        match *self {
            MoveCmd::MoveTo => MoveModel::MoveTo,
            MoveCmd::LineTo => MoveModel::LineTo,
            MoveCmd::ArcTo { center, cw } => MoveModel::ArcTo { center, cw },
            MoveCmd::BezierTo { control1, control2 } => MoveModel::BezierTo { control1, control2 },
            MoveCmd::QuadraticBezierTo { control } => MoveModel::QuadraticBezierTo { control },
            MoveCmd::ScanLine { power_values } => MoveModel::ScanLine {
                power_values: power_values@,
            },
        }
    }
}

impl View for StateCmd {
    type V = StateCmdModel;

    open spec fn view(&self) -> StateCmdModel {
        match *self {
            StateCmd::SetPower(v) => StateCmdModel::SetPower(v),
            StateCmd::SetFeedRate(v) => StateCmdModel::SetFeedRate(v),
            StateCmd::SetRapidRate(v) => StateCmdModel::SetRapidRate(v),
            StateCmd::SetFrequency(v) => StateCmdModel::SetFrequency(v),
            StateCmd::SetPulseWidth(v) => StateCmdModel::SetPulseWidth(v),
            StateCmd::SetSpindleRpm(v) => StateCmdModel::SetSpindleRpm(v),
            StateCmd::SetCoolant(v) => StateCmdModel::SetCoolant(v),
            StateCmd::SetAirAssist(v) => StateCmdModel::SetAirAssist(v),
            StateCmd::SetHeadCoolant(v) => StateCmdModel::SetHeadCoolant(v),
            StateCmd::SetHead(uid) => StateCmdModel::SetHead(uid@),
            StateCmd::Dwell(v) => StateCmdModel::Dwell(v),
        }
    }
}

impl View for MarkerCmd {
    type V = MarkerModel;

    open spec fn view(&self) -> MarkerModel {
        match *self {
            MarkerCmd::JobStart => MarkerModel::JobStart,
            MarkerCmd::JobEnd => MarkerModel::JobEnd,
            MarkerCmd::LayerStart(uid) => MarkerModel::LayerStart(uid@),
            MarkerCmd::LayerEnd(uid) => MarkerModel::LayerEnd(uid@),
            MarkerCmd::WorkpieceStart(uid) => MarkerModel::WorkpieceStart(uid@),
            MarkerCmd::WorkpieceEnd(uid) => MarkerModel::WorkpieceEnd(uid@),
            MarkerCmd::OpsSectionStart { section_type, workpiece_uid, raster_mode } =>
                MarkerModel::OpsSectionStart {
                    section_type,
                    workpiece_uid: option_view(workpiece_uid),
                    raster_mode,
                },
            MarkerCmd::OpsSectionEnd { section_type, raster_mode } =>
                MarkerModel::OpsSectionEnd { section_type, raster_mode },
            MarkerCmd::StateBlockStart(name) => MarkerModel::StateBlockStart(option_view(name)),
            MarkerCmd::StateBlockEnd => MarkerModel::StateBlockEnd,
        }
    }
}

impl View for OpCategory {
    type V = CommandModel;

    open spec fn view(&self) -> CommandModel {
        match *self {
            OpCategory::Moving { cmd, end, extra_axes, state } => CommandModel::Moving {
                cmd: cmd@,
                end,
                extra_axes: option_view(extra_axes),
                state: option_view(state),
            },
            OpCategory::State(cmd) => CommandModel::State(cmd@),
            OpCategory::Marker(cmd) => CommandModel::Marker(cmd@),
        }
    }
}

impl View for OpNode {
    type V = CommandModel;

    open spec fn view(&self) -> CommandModel {
        self.category@
    }
}

impl CommandType {
    /// The class that a kind of command belongs to.
    pub open spec fn class(self) -> CommandCategory {
        match self {
            CommandType::MoveTo
            | CommandType::LineTo
            | CommandType::ArcTo
            | CommandType::BezierTo
            | CommandType::QuadraticBezierTo
            | CommandType::ScanLine => CommandCategory::Moving,
            CommandType::SetPower
            | CommandType::SetFeedRate
            | CommandType::SetRapidRate
            | CommandType::SetFrequency
            | CommandType::SetPulseWidth
            | CommandType::SetSpindleRpm
            | CommandType::SetCoolant
            | CommandType::SetAirAssist
            | CommandType::SetHeadCoolant
            | CommandType::SetHead
            | CommandType::Dwell => CommandCategory::State,
            _ => CommandCategory::Marker,
        }
    }

    /// The class of this kind of command.
    pub fn category(self) -> (r: CommandCategory)
        ensures
            r == self.class(),
    {
        match self {
            CommandType::MoveTo
            | CommandType::LineTo
            | CommandType::ArcTo
            | CommandType::BezierTo
            | CommandType::QuadraticBezierTo
            | CommandType::ScanLine => CommandCategory::Moving,
            CommandType::SetPower
            | CommandType::SetFeedRate
            | CommandType::SetRapidRate
            | CommandType::SetFrequency
            | CommandType::SetPulseWidth
            | CommandType::SetSpindleRpm
            | CommandType::SetCoolant
            | CommandType::SetAirAssist
            | CommandType::SetHeadCoolant
            | CommandType::SetHead
            | CommandType::Dwell => CommandCategory::State,
            CommandType::JobStart
            | CommandType::JobEnd
            | CommandType::LayerStart
            | CommandType::LayerEnd
            | CommandType::WorkpieceStart
            | CommandType::WorkpieceEnd
            | CommandType::OpsSectionStart
            | CommandType::OpsSectionEnd
            | CommandType::StateBlockStart
            | CommandType::StateBlockEnd => CommandCategory::Marker,
        }
    }
}

impl CommandModel {
    /// The kind of the command.
    pub open spec fn kind(self) -> CommandType {
        match self {
            CommandModel::Moving { cmd, .. } => match cmd {
                MoveModel::MoveTo => CommandType::MoveTo,
                MoveModel::LineTo => CommandType::LineTo,
                MoveModel::ArcTo { .. } => CommandType::ArcTo,
                MoveModel::BezierTo { .. } => CommandType::BezierTo,
                MoveModel::QuadraticBezierTo { .. } => CommandType::QuadraticBezierTo,
                MoveModel::ScanLine { .. } => CommandType::ScanLine,
            },
            CommandModel::State(cmd) => match cmd {
                StateCmdModel::SetPower(_) => CommandType::SetPower,
                StateCmdModel::SetFeedRate(_) => CommandType::SetFeedRate,
                StateCmdModel::SetRapidRate(_) => CommandType::SetRapidRate,
                StateCmdModel::SetFrequency(_) => CommandType::SetFrequency,
                StateCmdModel::SetPulseWidth(_) => CommandType::SetPulseWidth,
                StateCmdModel::SetSpindleRpm(_) => CommandType::SetSpindleRpm,
                StateCmdModel::SetCoolant(_) => CommandType::SetCoolant,
                StateCmdModel::SetAirAssist(_) => CommandType::SetAirAssist,
                StateCmdModel::SetHeadCoolant(_) => CommandType::SetHeadCoolant,
                StateCmdModel::SetHead(_) => CommandType::SetHead,
                StateCmdModel::Dwell(_) => CommandType::Dwell,
            },
            CommandModel::Marker(cmd) => match cmd {
                MarkerModel::JobStart => CommandType::JobStart,
                MarkerModel::JobEnd => CommandType::JobEnd,
                MarkerModel::LayerStart(_) => CommandType::LayerStart,
                MarkerModel::LayerEnd(_) => CommandType::LayerEnd,
                MarkerModel::WorkpieceStart(_) => CommandType::WorkpieceStart,
                MarkerModel::WorkpieceEnd(_) => CommandType::WorkpieceEnd,
                MarkerModel::OpsSectionStart { .. } => CommandType::OpsSectionStart,
                MarkerModel::OpsSectionEnd { .. } => CommandType::OpsSectionEnd,
                MarkerModel::StateBlockStart(_) => CommandType::StateBlockStart,
                MarkerModel::StateBlockEnd => CommandType::StateBlockEnd,
            },
        }
    }

    /// Whether the command is a travel move.
    pub open spec fn is_travel(self) -> bool {
        self matches CommandModel::Moving { cmd: MoveModel::MoveTo, .. }
    }

    /// Whether the command is a cutting move: every move but a travel move.
    pub open spec fn is_cutting(self) -> bool {
        self is Moving && !self.is_travel()
    }

    /// Whether the command is a scan line.
    pub open spec fn is_scan(self) -> bool {
        self matches CommandModel::Moving { cmd: MoveModel::ScanLine { .. }, .. }
    }

    /// Where a moving command ends.
    pub open spec fn end_point(self) -> Point3D
        recommends
            self is Moving,
    {
        self->end
    }
}

/// A moving command that carries no machine state.
pub open spec fn moving(
    cmd: MoveModel,
    end: Point3D,
    extra_axes: Option<Seq<(Axis, Binary64)>>,
) -> CommandModel {
    CommandModel::Moving { cmd, end, extra_axes, state: None }
}

/// Copies a list of extra axis positions.
pub fn copy_axes(axes: &Vec<(Axis, Binary64)>) -> (r: Vec<(Axis, Binary64)>)
    ensures
        r@ == axes@,
{
    let mut r: Vec<(Axis, Binary64)> = Vec::new();
    let mut i: usize = 0;
    while i < axes.len()
        invariant
            i <= axes.len(),
            r@ == axes@.take(i as int),
        decreases axes.len() - i,
    {
        r.push(axes[i]);
        proof {
            assert(axes@.take(i as int).push(axes@[i as int]) =~= axes@.take(i + 1));
        }
        i += 1;
    }
    proof {
        assert(axes@.take(i as int) =~= axes@);
    }
    r
}

/// Copies a run of bytes.
pub fn copy_bytes(bytes: &Vec<u8>) -> (r: Vec<u8>)
    ensures
        r@ == bytes@,
{
    let r = bytes.clone();
    proof {
        assert(r@ =~= bytes@);
    }
    r
}

/// Copies an optional name.
pub fn copy_name(name: &Option<String>) -> (r: Option<String>)
    ensures
        option_view(r) == option_view(*name),
{
    match name {
        Some(s) => Some(s.clone()),
        None => None,
    }
}

/// Copies optional extra axis positions.
pub fn copy_optional_axes(axes: &Option<Vec<(Axis, Binary64)>>) -> (r: Option<
    Vec<(Axis, Binary64)>,
>)
    ensures
        option_view(r) == option_view(*axes),
{
    match axes {
        Some(a) => Some(copy_axes(a)),
        None => None,
    }
}

/// Copies an optional machine state.
pub fn copy_optional_state(state: &Option<State>) -> (r: Option<State>)
    ensures
        option_view(r) == option_view(*state),
{
    match state {
        Some(s) => Some(s.clone()),
        None => None,
    }
}

impl Clone for State {
    fn clone(&self) -> (r: State)
        ensures
            r@ == self@,
    {
        State {
            power: self.power,
            feed_rate: self.feed_rate,
            rapid_rate: self.rapid_rate,
            frequency: self.frequency,
            pulse_width: self.pulse_width,
            spindle_rpm: self.spindle_rpm,
            coolant: self.coolant,
            air_assist: self.air_assist,
            head_coolant: self.head_coolant,
            head_uid: copy_name(&self.head_uid),
        }
    }
}

impl Clone for MoveCmd {
    fn clone(&self) -> (r: MoveCmd)
        ensures
            r@ == self@,
    {
        match self {
            MoveCmd::MoveTo => MoveCmd::MoveTo,
            MoveCmd::LineTo => MoveCmd::LineTo,
            MoveCmd::ArcTo { center, cw } => MoveCmd::ArcTo { center: *center, cw: *cw },
            MoveCmd::BezierTo { control1, control2 } => MoveCmd::BezierTo {
                control1: *control1,
                control2: *control2,
            },
            MoveCmd::QuadraticBezierTo { control } => MoveCmd::QuadraticBezierTo {
                control: *control,
            },
            MoveCmd::ScanLine { power_values } => MoveCmd::ScanLine {
                power_values: copy_bytes(power_values),
            },
        }
    }
}

impl Clone for StateCmd {
    fn clone(&self) -> (r: StateCmd)
        ensures
            r@ == self@,
    {
        match self {
            StateCmd::SetPower(v) => StateCmd::SetPower(*v),
            StateCmd::SetFeedRate(v) => StateCmd::SetFeedRate(*v),
            StateCmd::SetRapidRate(v) => StateCmd::SetRapidRate(*v),
            StateCmd::SetFrequency(v) => StateCmd::SetFrequency(*v),
            StateCmd::SetPulseWidth(v) => StateCmd::SetPulseWidth(*v),
            StateCmd::SetSpindleRpm(v) => StateCmd::SetSpindleRpm(*v),
            StateCmd::SetCoolant(v) => StateCmd::SetCoolant(*v),
            StateCmd::SetAirAssist(v) => StateCmd::SetAirAssist(*v),
            StateCmd::SetHeadCoolant(v) => StateCmd::SetHeadCoolant(*v),
            StateCmd::SetHead(uid) => StateCmd::SetHead(uid.clone()),
            StateCmd::Dwell(v) => StateCmd::Dwell(*v),
        }
    }
}

impl Clone for MarkerCmd {
    fn clone(&self) -> (r: MarkerCmd)
        ensures
            r@ == self@,
    {
        match self {
            MarkerCmd::JobStart => MarkerCmd::JobStart,
            MarkerCmd::JobEnd => MarkerCmd::JobEnd,
            MarkerCmd::LayerStart(uid) => MarkerCmd::LayerStart(uid.clone()),
            MarkerCmd::LayerEnd(uid) => MarkerCmd::LayerEnd(uid.clone()),
            MarkerCmd::WorkpieceStart(uid) => MarkerCmd::WorkpieceStart(uid.clone()),
            MarkerCmd::WorkpieceEnd(uid) => MarkerCmd::WorkpieceEnd(uid.clone()),
            MarkerCmd::OpsSectionStart { section_type, workpiece_uid, raster_mode } =>
                MarkerCmd::OpsSectionStart {
                    section_type: *section_type,
                    workpiece_uid: copy_name(workpiece_uid),
                    raster_mode: *raster_mode,
                },
            MarkerCmd::OpsSectionEnd { section_type, raster_mode } => MarkerCmd::OpsSectionEnd {
                section_type: *section_type,
                raster_mode: *raster_mode,
            },
            MarkerCmd::StateBlockStart(name) => MarkerCmd::StateBlockStart(copy_name(name)),
            MarkerCmd::StateBlockEnd => MarkerCmd::StateBlockEnd,
        }
    }
}

impl Clone for OpCategory {
    fn clone(&self) -> (r: OpCategory)
        ensures
            r@ == self@,
    {
        match self {
            OpCategory::Moving { cmd, end, extra_axes, state } => OpCategory::Moving {
                cmd: cmd.clone(),
                end: *end,
                extra_axes: copy_optional_axes(extra_axes),
                state: copy_optional_state(state),
            },
            OpCategory::State(cmd) => OpCategory::State(cmd.clone()),
            OpCategory::Marker(cmd) => OpCategory::Marker(cmd.clone()),
        }
    }
}

impl Clone for OpNode {
    fn clone(&self) -> (r: OpNode)
        ensures
            r@ == self@,
    {
        OpNode { category: self.category.clone() }
    }
}

impl OpNode {
    /// The kind of the command.
    pub fn command_type(&self) -> (r: CommandType)
        ensures
            r == self@.kind(),
    {
        match &self.category {
            OpCategory::Moving { cmd, .. } => match cmd {
                MoveCmd::MoveTo => CommandType::MoveTo,
                MoveCmd::LineTo => CommandType::LineTo,
                MoveCmd::ArcTo { .. } => CommandType::ArcTo,
                MoveCmd::BezierTo { .. } => CommandType::BezierTo,
                MoveCmd::QuadraticBezierTo { .. } => CommandType::QuadraticBezierTo,
                MoveCmd::ScanLine { .. } => CommandType::ScanLine,
            },
            OpCategory::State(cmd) => match cmd {
                StateCmd::SetPower(_) => CommandType::SetPower,
                StateCmd::SetFeedRate(_) => CommandType::SetFeedRate,
                StateCmd::SetRapidRate(_) => CommandType::SetRapidRate,
                StateCmd::SetFrequency(_) => CommandType::SetFrequency,
                StateCmd::SetPulseWidth(_) => CommandType::SetPulseWidth,
                StateCmd::SetSpindleRpm(_) => CommandType::SetSpindleRpm,
                StateCmd::SetCoolant(_) => CommandType::SetCoolant,
                StateCmd::SetAirAssist(_) => CommandType::SetAirAssist,
                StateCmd::SetHeadCoolant(_) => CommandType::SetHeadCoolant,
                StateCmd::SetHead(_) => CommandType::SetHead,
                StateCmd::Dwell(_) => CommandType::Dwell,
            },
            OpCategory::Marker(cmd) => match cmd {
                MarkerCmd::JobStart => CommandType::JobStart,
                MarkerCmd::JobEnd => CommandType::JobEnd,
                MarkerCmd::LayerStart(_) => CommandType::LayerStart,
                MarkerCmd::LayerEnd(_) => CommandType::LayerEnd,
                MarkerCmd::WorkpieceStart(_) => CommandType::WorkpieceStart,
                MarkerCmd::WorkpieceEnd(_) => CommandType::WorkpieceEnd,
                MarkerCmd::OpsSectionStart { .. } => CommandType::OpsSectionStart,
                MarkerCmd::OpsSectionEnd { .. } => CommandType::OpsSectionEnd,
                MarkerCmd::StateBlockStart(_) => CommandType::StateBlockStart,
                MarkerCmd::StateBlockEnd => CommandType::StateBlockEnd,
            },
        }
    }

    /// Whether the command moves the machine.
    pub fn is_moving(&self) -> (r: bool)
        ensures
            r == (self@ is Moving),
            r == (self@.kind().class() == CommandCategory::Moving),
    {
        match &self.category {
            OpCategory::Moving { .. } => true,
            _ => false,
        }
    }

    /// Whether the command changes the machine state.
    pub fn is_state_cmd(&self) -> (r: bool)
        ensures
            r == (self@ is State),
            r == (self@.kind().class() == CommandCategory::State),
    {
        match &self.category {
            OpCategory::State(_) => true,
            _ => false,
        }
    }

    /// Whether the command is a structural marker.
    pub fn is_marker(&self) -> (r: bool)
        ensures
            r == (self@ is Marker),
            r == (self@.kind().class() == CommandCategory::Marker),
    {
        match &self.category {
            OpCategory::Marker(_) => true,
            _ => false,
        }
    }

    /// Where a moving command ends.
    pub fn end_point(&self) -> (r: Point3D)
        requires
            self@ is Moving,
        ensures
            r == self@.end_point(),
    {
        match &self.category {
            OpCategory::Moving { end, .. } => *end,
            _ => Point3D { x: Binary64::zero(), y: Binary64::zero(), z: Binary64::zero() },
        }
    }
}

/// The kind of every command is that of what it was built as.
pub proof fn law_kinds(
    center: Point,
    cw: bool,
    control1: Point3D,
    control2: Point3D,
    power_values: Seq<u8>,
    end: Point3D,
    extra: Option<Seq<(Axis, Binary64)>>,
    state: Option<StateModel>,
    number: Binary64,
    rate: i32,
    rpm: u32,
    coolant: CoolantMode,
    air: AirAssistMode,
    head_coolant: HeadCoolantMode,
    name: Seq<char>,
    block: Option<Seq<char>>,
    section_type: SectionType,
    raster_mode: Option<RasterMode>,
)
    ensures
        ({
            let moved = |cmd: MoveModel| CommandModel::Moving {
                cmd,
                end,
                extra_axes: extra,
                state,
            };
            let set = |cmd: StateCmdModel| CommandModel::State(cmd);
            let mark = |cmd: MarkerModel| CommandModel::Marker(cmd);
            &&& moved(MoveModel::MoveTo).kind() == CommandType::MoveTo
            &&& moved(MoveModel::LineTo).kind() == CommandType::LineTo
            &&& moved(MoveModel::ArcTo { center, cw }).kind() == CommandType::ArcTo
            &&& moved(MoveModel::BezierTo { control1, control2 }).kind() == CommandType::BezierTo
            &&& moved(MoveModel::QuadraticBezierTo { control: control1 }).kind()
                == CommandType::QuadraticBezierTo
            &&& moved(MoveModel::ScanLine { power_values }).kind() == CommandType::ScanLine
            &&& set(StateCmdModel::SetPower(number)).kind() == CommandType::SetPower
            &&& set(StateCmdModel::SetFeedRate(rate)).kind() == CommandType::SetFeedRate
            &&& set(StateCmdModel::SetRapidRate(rate)).kind() == CommandType::SetRapidRate
            &&& set(StateCmdModel::SetFrequency(rate)).kind() == CommandType::SetFrequency
            &&& set(StateCmdModel::SetPulseWidth(number)).kind() == CommandType::SetPulseWidth
            &&& set(StateCmdModel::SetSpindleRpm(rpm)).kind() == CommandType::SetSpindleRpm
            &&& set(StateCmdModel::SetCoolant(coolant)).kind() == CommandType::SetCoolant
            &&& set(StateCmdModel::SetAirAssist(air)).kind() == CommandType::SetAirAssist
            &&& set(StateCmdModel::SetHeadCoolant(head_coolant)).kind()
                == CommandType::SetHeadCoolant
            &&& set(StateCmdModel::SetHead(name)).kind() == CommandType::SetHead
            &&& set(StateCmdModel::Dwell(number)).kind() == CommandType::Dwell
            &&& mark(MarkerModel::JobStart).kind() == CommandType::JobStart
            &&& mark(MarkerModel::JobEnd).kind() == CommandType::JobEnd
            &&& mark(MarkerModel::LayerStart(name)).kind() == CommandType::LayerStart
            &&& mark(MarkerModel::LayerEnd(name)).kind() == CommandType::LayerEnd
            &&& mark(MarkerModel::WorkpieceStart(name)).kind() == CommandType::WorkpieceStart
            &&& mark(MarkerModel::WorkpieceEnd(name)).kind() == CommandType::WorkpieceEnd
            &&& mark(
                MarkerModel::OpsSectionStart { section_type, workpiece_uid: block, raster_mode },
            ).kind() == CommandType::OpsSectionStart
            &&& mark(MarkerModel::OpsSectionEnd { section_type, raster_mode }).kind()
                == CommandType::OpsSectionEnd
            &&& mark(MarkerModel::StateBlockStart(block)).kind() == CommandType::StateBlockStart
            &&& mark(MarkerModel::StateBlockEnd).kind() == CommandType::StateBlockEnd
        }),
{
}

/// The class of a command is what it is: a move, a state command or a marker.
pub proof fn law_class(c: CommandModel)
    ensures
        c is Moving <==> c.kind().class() == CommandCategory::Moving,
        c is State <==> c.kind().class() == CommandCategory::State,
        c is Marker <==> c.kind().class() == CommandCategory::Marker,
        c.is_travel() <==> c.kind() == CommandType::MoveTo,
        c.is_scan() <==> c.kind() == CommandType::ScanLine,
        c.is_cutting() <==> c.kind() == CommandType::LineTo || c.kind() == CommandType::ArcTo
            || c.kind() == CommandType::BezierTo || c.kind() == CommandType::QuadraticBezierTo
            || c.kind() == CommandType::ScanLine,
        c is Moving ==> c.end_point() == c->end,
{
}

/// The model of an optional value is that of the value, where there is one.
pub proof fn law_optional_model<T: View>(o: Option<T>)
    ensures
        option_view(o) is Some <==> o is Some,
        o is Some ==> option_view(o)->Some_0 == o->Some_0@,
{
}

/// The model of a state holds every setting.
pub proof fn law_state_model(s: State)
    ensures
        s@.power == s.power,
        s@.feed_rate == s.feed_rate,
        s@.rapid_rate == s.rapid_rate,
        s@.frequency == s.frequency,
        s@.pulse_width == s.pulse_width,
        s@.spindle_rpm == s.spindle_rpm,
        s@.coolant == s.coolant,
        s@.air_assist == s.air_assist,
        s@.head_coolant == s.head_coolant,
        s@.head_uid is Some <==> s.head_uid is Some,
        s.head_uid is Some ==> s@.head_uid->Some_0 == s.head_uid->Some_0@,
{
}

/// The model of a command holds what the command was built from.
pub proof fn law_command_models(
    cmd: MoveCmd,
    end: Point3D,
    extra_axes: Option<Vec<(Axis, Binary64)>>,
    state: Option<State>,
    set: StateCmd,
    mark: MarkerCmd,
)
    ensures
        ({
            let node = OpNode { category: OpCategory::Moving { cmd, end, extra_axes, state } };
            &&& node@ is Moving && node@->cmd == cmd@ && node@->end == end
            &&& node@->extra_axes is Some <==> extra_axes is Some
            &&& extra_axes is Some ==> node@->extra_axes->Some_0 == extra_axes->Some_0@
            &&& node@->state is Some <==> state is Some
            &&& state is Some ==> node@->state->Some_0 == state->Some_0@
        }),
        (OpNode { category: OpCategory::State(set) })@ == CommandModel::State(set@),
        (OpNode { category: OpCategory::Marker(mark) })@ == CommandModel::Marker(mark@),
        cmd is MoveTo <==> cmd@ is MoveTo,
        cmd is LineTo <==> cmd@ is LineTo,
        cmd matches MoveCmd::ArcTo { center, cw } ==> cmd@ == (MoveModel::ArcTo { center, cw }),
        cmd matches MoveCmd::BezierTo { control1, control2 } ==> cmd@ == (MoveModel::BezierTo {
            control1,
            control2,
        }),
        cmd matches MoveCmd::QuadraticBezierTo { control } ==> cmd@ == (
        MoveModel::QuadraticBezierTo { control }),
        cmd matches MoveCmd::ScanLine { power_values } ==> cmd@ == (MoveModel::ScanLine {
            power_values: power_values@,
        }),
        set matches StateCmd::SetPower(v) ==> set@ == StateCmdModel::SetPower(v),
        set matches StateCmd::SetFeedRate(v) ==> set@ == StateCmdModel::SetFeedRate(v),
        set matches StateCmd::SetRapidRate(v) ==> set@ == StateCmdModel::SetRapidRate(v),
        set matches StateCmd::SetFrequency(v) ==> set@ == StateCmdModel::SetFrequency(v),
        set matches StateCmd::SetPulseWidth(v) ==> set@ == StateCmdModel::SetPulseWidth(v),
        set matches StateCmd::SetSpindleRpm(v) ==> set@ == StateCmdModel::SetSpindleRpm(v),
        set matches StateCmd::SetCoolant(v) ==> set@ == StateCmdModel::SetCoolant(v),
        set matches StateCmd::SetAirAssist(v) ==> set@ == StateCmdModel::SetAirAssist(v),
        set matches StateCmd::SetHeadCoolant(v) ==> set@ == StateCmdModel::SetHeadCoolant(v),
        set matches StateCmd::Dwell(v) ==> set@ == StateCmdModel::Dwell(v),
        set matches StateCmd::SetHead(uid) ==> set@ == StateCmdModel::SetHead(uid@),
        mark is JobStart <==> mark@ is JobStart,
        mark is JobEnd <==> mark@ is JobEnd,
        mark is StateBlockEnd <==> mark@ is StateBlockEnd,
        mark matches MarkerCmd::LayerStart(uid) ==> mark@ == MarkerModel::LayerStart(uid@),
        mark matches MarkerCmd::LayerEnd(uid) ==> mark@ == MarkerModel::LayerEnd(uid@),
        mark matches MarkerCmd::WorkpieceStart(uid) ==> mark@ == MarkerModel::WorkpieceStart(uid@),
        mark matches MarkerCmd::WorkpieceEnd(uid) ==> mark@ == MarkerModel::WorkpieceEnd(uid@),
        mark matches MarkerCmd::OpsSectionStart { section_type, workpiece_uid, raster_mode } ==> {
            &&& mark@ is OpsSectionStart
            &&& mark@->OpsSectionStart_section_type == section_type
            &&& mark@->OpsSectionStart_raster_mode == raster_mode
            &&& mark@->workpiece_uid is Some <==> workpiece_uid is Some
            &&& workpiece_uid is Some ==> mark@->workpiece_uid->Some_0 == workpiece_uid->Some_0@
        },
        mark matches MarkerCmd::OpsSectionEnd { section_type, raster_mode } ==> mark@ == (
        MarkerModel::OpsSectionEnd { section_type, raster_mode }),
        mark matches MarkerCmd::StateBlockStart(name) ==> mark@ is StateBlockStart && (
        mark@->StateBlockStart_0 is Some <==> name is Some) && (name is Some
            ==> mark@->StateBlockStart_0->Some_0 == name->Some_0@),
{
}

} // verus!
