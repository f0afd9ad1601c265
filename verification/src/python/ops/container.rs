//! The sequence as a Python object: looking up commands, counting them and reading their
//! parameters.
use crate::binary64::Binary64;
use crate::error::{out_of_range, outcome, outcome_view, ErrorKind, ErrorModel, PyError};
use crate::ops::command::{
    copy_bytes, copy_name, copy_optional_state, moving, option_view, AirAssistMode, Axis,
    CommandCategory, CommandModel, CommandType, CoolantMode, HeadCoolantMode, MarkerCmd,
    MarkerModel, MoveCmd, MoveModel, OpCategory, Point, Point3D, RasterMode, SectionType, State,
    StateCmd, StateCmdModel,
};
use crate::ops::container::{axes_of, state_of, Ops, OpsModel};
use crate::text::{append_signed, signed_decimal};
use vstd::prelude::*;

verus! {

/// A sequence of machining commands.
#[derive(Debug)]
pub struct PyOps {
    pub inner: Ops,
}

impl View for PyOps {
    type V = OpsModel;

    open spec fn view(&self) -> OpsModel {
        self.inner@
    }
}

impl Clone for PyOps {
    fn clone(&self) -> (r: PyOps)
        ensures
            r@ == self@,
    {
        PyOps { inner: self.inner.copy() }
    }
}

/// The index that a Python index stands for: a negative one counts from the end.
pub open spec fn normalized(idx: int, len: nat) -> Result<usize, ErrorModel> {
    let i = if idx < 0 {
        len + idx
    } else {
        idx
    };
    if 0 <= i < len {
        Ok(i as usize)
    } else {
        Err(
            ErrorModel {
                kind: ErrorKind::Index,
                message: "index out of range: "@ + signed_decimal(i),
            },
        )
    }
}

/// Turns a Python index into a position. A negative index counts from the end; one that names
/// no position is an error that shows the index as counted from the front.
pub fn normalize_index(idx: isize, len: usize) -> (r: Result<usize, PyError>)
    ensures
        outcome(r) == normalized(idx as int, len as nat),
{
    if idx >= 0 {
        if (idx as usize) < len {
            return Ok(idx as usize);
        }
        return Err(index_error(idx));
    }
    let back: usize = (-(idx + 1)) as usize + 1;
    if back <= len {
        Ok(len - back)
    } else {
        Err(index_error(len as isize + idx))
    }
}

fn index_error(shown: isize) -> (r: PyError)
    ensures
        r@ == (ErrorModel {
            kind: ErrorKind::Index,
            message: "index out of range: "@ + signed_decimal(shown as int),
        }),
{
    let mut message = "index out of range: ".to_string();
    append_signed(&mut message, shown);
    PyError { kind: ErrorKind::Index, message }
}

/// What a reader of commands finds at an index: an index error past the end, a type error with
/// the given message where the command is of another kind.
pub open spec fn field_at<T>(
    commands: Seq<CommandModel>,
    idx: int,
    read: spec_fn(CommandModel) -> Option<T>,
    message: Seq<char>,
) -> Result<T, ErrorModel> {
    if idx >= commands.len() {
        Err(out_of_range())
    } else {
        match read(commands[idx]) {
            Some(v) => Ok(v),
            None => Err(ErrorModel { kind: ErrorKind::Type, message }),
        }
    }
}

/// What a test of commands finds at an index: an index error past the end.
pub open spec fn test_at(
    commands: Seq<CommandModel>,
    idx: int,
    test: spec_fn(CommandModel) -> bool,
) -> Result<bool, ErrorModel> {
    if idx >= commands.len() {
        Err(out_of_range())
    } else {
        Ok(test(commands[idx]))
    }
}

fn range_error() -> (r: PyError)
    ensures
        r@ == out_of_range(),
{
    PyError::new(ErrorKind::Index, "index out of range")
}

fn type_error(message: &str) -> (r: PyError)
    ensures
        r@ == (ErrorModel { kind: ErrorKind::Type, message: message@ }),
{
    PyError::new(ErrorKind::Type, message)
}

/// A point as a tuple.
pub open spec fn tuple_of(p: Point3D) -> (Binary64, Binary64, Binary64) {
    (p.x, p.y, p.z)
}

/// Turns a point into a tuple.
pub fn point3d_to_tuple(p: Point3D) -> (r: (Binary64, Binary64, Binary64))
    ensures
        r == tuple_of(p),
{
    (p.x, p.y, p.z)
}

/// A tuple as a point.
pub open spec fn point_of(t: (Binary64, Binary64, Binary64)) -> Point3D {
    Point3D { x: t.0, y: t.1, z: t.2 }
}

/// Turns a tuple into a point.
pub fn tuple_to_point3d(t: (Binary64, Binary64, Binary64)) -> (r: Point3D)
    ensures
        r == point_of(t),
{
    Point3D { x: t.0, y: t.1, z: t.2 }
}

/// The number of commands that pass a test.
pub open spec fn count_of(
    commands: Seq<CommandModel>,
    test: spec_fn(CommandModel) -> bool,
) -> nat {
    commands.filter(test).len()
}

/// The indices, in order, of the commands of a kind among the first `n`.
pub open spec fn indices_upto(commands: Seq<CommandModel>, kind: CommandType, n: int) -> Seq<usize>
    decreases n,
{
    if n <= 0 {
        Seq::empty()
    } else if commands[n - 1].kind() == kind {
        indices_upto(commands, kind, n - 1).push((n - 1) as usize)
    } else {
        indices_upto(commands, kind, n - 1)
    }
}

/// The ends of the moving commands among the first `n`, in order.
pub open spec fn ends_upto(commands: Seq<CommandModel>, n: int) -> Seq<Point3D>
    decreases n,
{
    if n <= 0 {
        Seq::empty()
    } else if commands[n - 1] is Moving {
        ends_upto(commands, n - 1).push(commands[n - 1].end_point())
    } else {
        ends_upto(commands, n - 1)
    }
}

/// The point to start from, where one is given.
pub open spec fn starting_points(last_point: Option<(Binary64, Binary64, Binary64)>) -> Seq<
    Point3D,
> {
    match last_point {
        Some(p) => seq![point_of(p)],
        None => Seq::empty(),
    }
}

/// The points traveled through up to and including the command at an index.
pub open spec fn traveled(
    commands: Seq<CommandModel>,
    idx: int,
    last_point: Option<(Binary64, Binary64, Binary64)>,
) -> Seq<Point3D> {
    starting_points(last_point) + ends_upto(commands, idx + 1)
}

impl CommandModel {
    /// The center offset and the direction of an arc.
    pub open spec fn arc(self) -> Option<(Binary64, Binary64, bool)> {
        match self {
            CommandModel::Moving { cmd: MoveModel::ArcTo { center, cw }, .. } => Some(
                (center.x, center.y, cw),
            ),
            _ => None,
        }
    }

    /// The control points of a cubic curve.
    pub open spec fn bezier(self) -> Option<
        ((Binary64, Binary64, Binary64), (Binary64, Binary64, Binary64)),
    > {
        match self {
            CommandModel::Moving { cmd: MoveModel::BezierTo { control1, control2 }, .. } => Some(
                (tuple_of(control1), tuple_of(control2)),
            ),
            _ => None,
        }
    }

    /// The control point of a quadratic curve.
    pub open spec fn quadratic(self) -> Option<(Binary64, Binary64, Binary64)> {
        match self {
            CommandModel::Moving { cmd: MoveModel::QuadraticBezierTo { control }, .. } => Some(
                tuple_of(control),
            ),
            _ => None,
        }
    }

    /// The power values of a scan line.
    pub open spec fn scan_power(self) -> Option<Seq<u8>> {
        match self {
            CommandModel::Moving { cmd: MoveModel::ScanLine { power_values }, .. } => Some(
                power_values,
            ),
            _ => None,
        }
    }

    /// The duration of a pause.
    pub open spec fn pause(self) -> Option<Binary64> {
        match self {
            CommandModel::State(StateCmdModel::Dwell(v)) => Some(v),
            _ => None,
        }
    }

    /// The power that is set.
    pub open spec fn power_level(self) -> Option<Binary64> {
        match self {
            CommandModel::State(StateCmdModel::SetPower(v)) => Some(v),
            _ => None,
        }
    }

    /// The feed rate or rapid rate that is set.
    pub open spec fn feed_or_rapid_rate(self) -> Option<i32> {
        match self {
            CommandModel::State(StateCmdModel::SetFeedRate(v)) => Some(v),
            CommandModel::State(StateCmdModel::SetRapidRate(v)) => Some(v),
            _ => None,
        }
    }

    /// The frequency that is set.
    pub open spec fn pulse_frequency(self) -> Option<i32> {
        match self {
            CommandModel::State(StateCmdModel::SetFrequency(v)) => Some(v),
            _ => None,
        }
    }

    /// The pulse width that is set.
    pub open spec fn pulse_length(self) -> Option<Binary64> {
        match self {
            CommandModel::State(StateCmdModel::SetPulseWidth(v)) => Some(v),
            _ => None,
        }
    }

    /// The spindle speed that is set.
    pub open spec fn rpm(self) -> Option<u32> {
        match self {
            CommandModel::State(StateCmdModel::SetSpindleRpm(v)) => Some(v),
            _ => None,
        }
    }

    /// The coolant mode that is set.
    pub open spec fn coolant_mode(self) -> Option<CoolantMode> {
        match self {
            CommandModel::State(StateCmdModel::SetCoolant(v)) => Some(v),
            _ => None,
        }
    }

    /// The air assist mode that is set.
    pub open spec fn air_mode(self) -> Option<AirAssistMode> {
        match self {
            CommandModel::State(StateCmdModel::SetAirAssist(v)) => Some(v),
            _ => None,
        }
    }

    /// The head coolant mode that is set.
    pub open spec fn head_coolant_mode(self) -> Option<HeadCoolantMode> {
        match self {
            CommandModel::State(StateCmdModel::SetHeadCoolant(v)) => Some(v),
            _ => None,
        }
    }

    /// The head that is chosen.
    pub open spec fn head(self) -> Option<Seq<char>> {
        match self {
            CommandModel::State(StateCmdModel::SetHead(uid)) => Some(uid),
            _ => None,
        }
    }

    /// The layer that starts or ends.
    pub open spec fn layer(self) -> Option<Seq<char>> {
        match self {
            CommandModel::Marker(MarkerModel::LayerStart(uid)) => Some(uid),
            CommandModel::Marker(MarkerModel::LayerEnd(uid)) => Some(uid),
            _ => None,
        }
    }

    /// The workpiece that starts or ends.
    pub open spec fn workpiece(self) -> Option<Seq<char>> {
        match self {
            CommandModel::Marker(MarkerModel::WorkpieceStart(uid)) => Some(uid),
            CommandModel::Marker(MarkerModel::WorkpieceEnd(uid)) => Some(uid),
            _ => None,
        }
    }

    /// The type, the workpiece and the raster mode of a section that starts or ends; an end
    /// names no workpiece.
    pub open spec fn section(self) -> Option<(SectionType, Option<Seq<char>>, Option<RasterMode>)> {
        match self {
            CommandModel::Marker(
                MarkerModel::OpsSectionStart { section_type, workpiece_uid, raster_mode },
            ) => Some((section_type, workpiece_uid, raster_mode)),
            CommandModel::Marker(MarkerModel::OpsSectionEnd { section_type, raster_mode }) => Some(
                (section_type, None, raster_mode),
            ),
            _ => None,
        }
    }
}

impl PyOps {
    /// A new, empty sequence.
    pub fn new() -> (r: PyOps)
        ensures
            r@ == OpsModel::fresh(),
    {
        PyOps { inner: Ops::new() }
    }

    /// The number of commands.
    pub fn len(&self) -> (r: usize)
        ensures
            r == self@.commands.len(),
    {
        self.inner.len()
    }

    /// Whether there are no commands.
    pub fn is_empty(&self) -> (r: bool)
        ensures
            r == (self@.commands.len() == 0),
    {
        self.inner.is_empty()
    }

    /// The kind of the command at an index; a negative index counts from the end.
    pub fn command_type(&self, idx: isize) -> (r: Result<CommandType, PyError>)
        ensures
            outcome(r) == match normalized(idx as int, self@.commands.len()) {
                Ok(i) => Ok(self@.commands[i as int].kind()),
                Err(e) => Err(e),
            },
    {
        match normalize_index(idx, self.inner.len()) {
            Ok(i) => Ok(self.inner.command_type(i)),
            Err(e) => Err(e),
        }
    }

    /// The class of the command at an index; a negative index counts from the end.
    pub fn category(&self, idx: isize) -> (r: Result<CommandCategory, PyError>)
        ensures
            outcome(r) == match normalized(idx as int, self@.commands.len()) {
                Ok(i) => Ok(self@.commands[i as int].kind().class()),
                Err(e) => Err(e),
            },
    {
        match normalize_index(idx, self.inner.len()) {
            Ok(i) => Ok(self.inner.category(i)),
            Err(e) => Err(e),
        }
    }

    /// Where the moving command at an index ends; a negative index counts from the end.
    pub fn endpoint(&self, idx: isize) -> (r: Result<(Binary64, Binary64, Binary64), PyError>)
        requires
            normalized(idx as int, self@.commands.len()) matches Ok(
                i,
            ) ==> self@.commands[i as int] is Moving,
        ensures
            outcome(r) == match normalized(idx as int, self@.commands.len()) {
                Ok(i) => Ok(tuple_of(self@.commands[i as int].end_point())),
                Err(e) => Err(e),
            },
    {
        match normalize_index(idx, self.inner.len()) {
            Ok(i) => Ok(point3d_to_tuple(self.inner.endpoint(i))),
            Err(e) => Err(e),
        }
    }

    /// Whether the command at an index is a travel move.
    pub fn is_travel(&self, idx: usize) -> (r: Result<bool, PyError>)
        ensures
            outcome(r) == test_at(self@.commands, idx as int, |c: CommandModel| c.is_travel()),
    {
        if idx >= self.inner.len() {
            return Err(range_error());
        }
        Ok(self.inner.commands[idx].command_type() == CommandType::MoveTo)
    }

    /// Whether the command at an index is a cutting move.
    pub fn is_cutting(&self, idx: usize) -> (r: Result<bool, PyError>)
        ensures
            outcome(r) == test_at(self@.commands, idx as int, |c: CommandModel| c.is_cutting()),
    {
        if idx >= self.inner.len() {
            return Err(range_error());
        }
        let cutting = match self.inner.command_type(idx) {
            CommandType::LineTo
            | CommandType::ArcTo
            | CommandType::BezierTo
            | CommandType::QuadraticBezierTo
            | CommandType::ScanLine => true,
            _ => false,
        };
        Ok(cutting)
    }

    /// Whether the command at an index changes the machine state.
    pub fn is_state(&self, idx: usize) -> (r: Result<bool, PyError>)
        ensures
            outcome(r) == test_at(self@.commands, idx as int, |c: CommandModel| c is State),
    {
        if idx >= self.inner.len() {
            return Err(range_error());
        }
        Ok(self.inner.commands[idx].is_state_cmd())
    }

    /// Whether the command at an index is a structural marker.
    pub fn is_marker(&self, idx: usize) -> (r: Result<bool, PyError>)
        ensures
            outcome(r) == test_at(self@.commands, idx as int, |c: CommandModel| c is Marker),
    {
        if idx >= self.inner.len() {
            return Err(range_error());
        }
        Ok(self.inner.commands[idx].is_marker())
    }

    /// Whether the command at an index is a scan line.
    pub fn is_scanline(&self, idx: usize) -> (r: Result<bool, PyError>)
        ensures
            outcome(r) == test_at(self@.commands, idx as int, |c: CommandModel| c.is_scan()),
    {
        if idx >= self.inner.len() {
            return Err(range_error());
        }
        Ok(self.inner.is_scanline(idx))
    }

    /// The center offset of an arc and whether it runs clockwise.
    pub fn arc_params(&self, idx: usize) -> (r: Result<(Binary64, Binary64, bool), PyError>)
        ensures
            outcome(r) == field_at(
                self@.commands,
                idx as int,
                |c: CommandModel| c.arc(),
                "Not an ArcToCommand"@,
            ),
    {
        if idx >= self.inner.len() {
            return Err(range_error());
        }
        match &self.inner.commands[idx].category {
            OpCategory::Moving { cmd: MoveCmd::ArcTo { center, cw }, .. } => Ok(
                (center.x, center.y, *cw),
            ),
            _ => Err(type_error("Not an ArcToCommand")),
        }
    }

    /// The two control points of a cubic curve.
    pub fn bezier_params(&self, idx: usize) -> (r: Result<
        ((Binary64, Binary64, Binary64), (Binary64, Binary64, Binary64)),
        PyError,
    >)
        ensures
            outcome(r) == field_at(
                self@.commands,
                idx as int,
                |c: CommandModel| c.bezier(),
                "Not a BezierToCommand"@,
            ),
    {
        if idx >= self.inner.len() {
            return Err(range_error());
        }
        match &self.inner.commands[idx].category {
            OpCategory::Moving { cmd: MoveCmd::BezierTo { control1, control2 }, .. } => Ok(
                (point3d_to_tuple(*control1), point3d_to_tuple(*control2)),
            ),
            _ => Err(type_error("Not a BezierToCommand")),
        }
    }

    /// The control point of a quadratic curve.
    pub fn quadratic_bezier_params(&self, idx: usize) -> (r: Result<
        (Binary64, Binary64, Binary64),
        PyError,
    >)
        ensures
            outcome(r) == field_at(
                self@.commands,
                idx as int,
                |c: CommandModel| c.quadratic(),
                "Not a QuadraticBezierToCommand"@,
            ),
    {
        if idx >= self.inner.len() {
            return Err(range_error());
        }
        match &self.inner.commands[idx].category {
            OpCategory::Moving { cmd: MoveCmd::QuadraticBezierTo { control }, .. } => Ok(
                point3d_to_tuple(*control),
            ),
            _ => Err(type_error("Not a QuadraticBezierToCommand")),
        }
    }

    /// The power values of a scan line.
    pub fn scanline_data(&self, idx: usize) -> (r: Result<Vec<u8>, PyError>)
        ensures
            outcome_view(r) == field_at(
                self@.commands,
                idx as int,
                |c: CommandModel| c.scan_power(),
                "Not a ScanLinePowerCommand"@,
            ),
    {
        if idx >= self.inner.len() {
            return Err(range_error());
        }
        match &self.inner.commands[idx].category {
            OpCategory::Moving { cmd: MoveCmd::ScanLine { power_values }, .. } => Ok(
                copy_bytes(power_values),
            ),
            _ => Err(type_error("Not a ScanLinePowerCommand")),
        }
    }

    /// The duration of a pause, in milliseconds.
    pub fn dwell_duration(&self, idx: usize) -> (r: Result<Binary64, PyError>)
        ensures
            outcome(r) == field_at(
                self@.commands,
                idx as int,
                |c: CommandModel| c.pause(),
                "Not a DwellCommand"@,
            ),
    {
        if idx >= self.inner.len() {
            return Err(range_error());
        }
        match &self.inner.commands[idx].category {
            OpCategory::State(StateCmd::Dwell(v)) => Ok(*v),
            _ => Err(type_error("Not a DwellCommand")),
        }
    }

    /// The power that a command sets.
    pub fn power(&self, idx: usize) -> (r: Result<Binary64, PyError>)
        ensures
            outcome(r) == field_at(
                self@.commands,
                idx as int,
                |c: CommandModel| c.power_level(),
                "Not a SetPowerCommand"@,
            ),
    {
        if idx >= self.inner.len() {
            return Err(range_error());
        }
        match &self.inner.commands[idx].category {
            OpCategory::State(StateCmd::SetPower(v)) => Ok(*v),
            _ => Err(type_error("Not a SetPowerCommand")),
        }
    }

    /// The rate that a feed rate or rapid rate command sets.
    pub fn rate(&self, idx: usize) -> (r: Result<i32, PyError>)
        ensures
            outcome(r) == field_at(
                self@.commands,
                idx as int,
                |c: CommandModel| c.feed_or_rapid_rate(),
                "Not a rate command"@,
            ),
    {
        if idx >= self.inner.len() {
            return Err(range_error());
        }
        match &self.inner.commands[idx].category {
            OpCategory::State(StateCmd::SetFeedRate(v)) => Ok(*v),
            OpCategory::State(StateCmd::SetRapidRate(v)) => Ok(*v),
            _ => Err(type_error("Not a rate command")),
        }
    }

    /// The frequency that a command sets.
    pub fn frequency(&self, idx: usize) -> (r: Result<i32, PyError>)
        ensures
            outcome(r) == field_at(
                self@.commands,
                idx as int,
                |c: CommandModel| c.pulse_frequency(),
                "Not a SetFrequencyCommand"@,
            ),
    {
        if idx >= self.inner.len() {
            return Err(range_error());
        }
        match &self.inner.commands[idx].category {
            OpCategory::State(StateCmd::SetFrequency(v)) => Ok(*v),
            _ => Err(type_error("Not a SetFrequencyCommand")),
        }
    }

    /// The pulse width that a command sets.
    pub fn pulse_width(&self, idx: usize) -> (r: Result<Binary64, PyError>)
        ensures
            outcome(r) == field_at(
                self@.commands,
                idx as int,
                |c: CommandModel| c.pulse_length(),
                "Not a SetPulseWidthCommand"@,
            ),
    {
        if idx >= self.inner.len() {
            return Err(range_error());
        }
        match &self.inner.commands[idx].category {
            OpCategory::State(StateCmd::SetPulseWidth(v)) => Ok(*v),
            _ => Err(type_error("Not a SetPulseWidthCommand")),
        }
    }

    /// The spindle speed that a command sets.
    pub fn spindle_rpm(&self, idx: usize) -> (r: Result<u32, PyError>)
        ensures
            outcome(r) == field_at(
                self@.commands,
                idx as int,
                |c: CommandModel| c.rpm(),
                "Not a SetSpindleRpmCommand"@,
            ),
    {
        if idx >= self.inner.len() {
            return Err(range_error());
        }
        match &self.inner.commands[idx].category {
            OpCategory::State(StateCmd::SetSpindleRpm(v)) => Ok(*v),
            _ => Err(type_error("Not a SetSpindleRpmCommand")),
        }
    }

    /// The coolant mode that a command sets.
    pub fn coolant(&self, idx: usize) -> (r: Result<CoolantMode, PyError>)
        ensures
            outcome(r) == field_at(
                self@.commands,
                idx as int,
                |c: CommandModel| c.coolant_mode(),
                "Not a SetCoolantCommand"@,
            ),
    {
        if idx >= self.inner.len() {
            return Err(range_error());
        }
        match &self.inner.commands[idx].category {
            OpCategory::State(StateCmd::SetCoolant(v)) => Ok(*v),
            _ => Err(type_error("Not a SetCoolantCommand")),
        }
    }

    /// The air assist mode that a command sets.
    pub fn air_assist(&self, idx: usize) -> (r: Result<AirAssistMode, PyError>)
        ensures
            outcome(r) == field_at(
                self@.commands,
                idx as int,
                |c: CommandModel| c.air_mode(),
                "Not a SetAirAssistCommand"@,
            ),
    {
        if idx >= self.inner.len() {
            return Err(range_error());
        }
        match &self.inner.commands[idx].category {
            OpCategory::State(StateCmd::SetAirAssist(v)) => Ok(*v),
            _ => Err(type_error("Not a SetAirAssistCommand")),
        }
    }

    /// The head coolant mode that a command sets.
    pub fn head_coolant(&self, idx: usize) -> (r: Result<HeadCoolantMode, PyError>)
        ensures
            outcome(r) == field_at(
                self@.commands,
                idx as int,
                |c: CommandModel| c.head_coolant_mode(),
                "Not a SetHeadCoolantCommand"@,
            ),
    {
        if idx >= self.inner.len() {
            return Err(range_error());
        }
        match &self.inner.commands[idx].category {
            OpCategory::State(StateCmd::SetHeadCoolant(v)) => Ok(*v),
            _ => Err(type_error("Not a SetHeadCoolantCommand")),
        }
    }

    /// The head that a command chooses.
    pub fn head_uid(&self, idx: usize) -> (r: Result<String, PyError>)
        ensures
            outcome_view(r) == field_at(
                self@.commands,
                idx as int,
                |c: CommandModel| c.head(),
                "Not a SetHeadCommand"@,
            ),
    {
        if idx >= self.inner.len() {
            return Err(range_error());
        }
        match &self.inner.commands[idx].category {
            OpCategory::State(StateCmd::SetHead(uid)) => Ok(uid.clone()),
            _ => Err(type_error("Not a SetHeadCommand")),
        }
    }

    /// The layer that a marker starts or ends.
    pub fn layer_uid(&self, idx: usize) -> (r: Result<String, PyError>)
        ensures
            outcome_view(r) == field_at(
                self@.commands,
                idx as int,
                |c: CommandModel| c.layer(),
                "Not a Layer command"@,
            ),
    {
        if idx >= self.inner.len() {
            return Err(range_error());
        }
        match &self.inner.commands[idx].category {
            OpCategory::Marker(MarkerCmd::LayerStart(uid)) => Ok(uid.clone()),
            OpCategory::Marker(MarkerCmd::LayerEnd(uid)) => Ok(uid.clone()),
            _ => Err(type_error("Not a Layer command")),
        }
    }

    /// The workpiece that a marker starts or ends.
    pub fn workpiece_uid(&self, idx: usize) -> (r: Result<String, PyError>)
        ensures
            outcome_view(r) == field_at(
                self@.commands,
                idx as int,
                |c: CommandModel| c.workpiece(),
                "Not a Workpiece command"@,
            ),
    {
        if idx >= self.inner.len() {
            return Err(range_error());
        }
        match &self.inner.commands[idx].category {
            OpCategory::Marker(MarkerCmd::WorkpieceStart(uid)) => Ok(uid.clone()),
            OpCategory::Marker(MarkerCmd::WorkpieceEnd(uid)) => Ok(uid.clone()),
            _ => Err(type_error("Not a Workpiece command")),
        }
    }

    /// The type, the workpiece and the raster mode of a section that a marker starts or ends.
    pub fn section_params(&self, idx: usize) -> (r: Result<
        (SectionType, Option<String>, Option<RasterMode>),
        PyError,
    >)
        ensures
            section_outcome(r) == field_at(
                self@.commands,
                idx as int,
                |c: CommandModel| c.section(),
                "Not an OpsSection command"@,
            ),
    {
        if idx >= self.inner.len() {
            return Err(range_error());
        }
        match &self.inner.commands[idx].category {
            OpCategory::Marker(
                MarkerCmd::OpsSectionStart { section_type, workpiece_uid, raster_mode },
            ) => Ok((*section_type, copy_name(workpiece_uid), *raster_mode)),
            OpCategory::Marker(MarkerCmd::OpsSectionEnd { section_type, raster_mode }) => Ok(
                (*section_type, None, *raster_mode),
            ),
            _ => Err(type_error("Not an OpsSection command")),
        }
    }

    /// The extra axis positions of the command at an index, if it names any.
    pub fn extra_axes(&self, idx: usize) -> (r: Result<Option<Vec<(Axis, Binary64)>>, PyError>)
        ensures
            option_outcome(r) == if idx >= self@.commands.len() {
                Err(out_of_range())
            } else {
                Ok(axes_of(self@.commands[idx as int]))
            },
    {
        if idx >= self.inner.len() {
            return Err(range_error());
        }
        Ok(self.inner.extra_axes(idx))
    }

    /// The machine state that the command at an index carries, if it carries one.
    pub fn state(&self, idx: usize) -> (r: Result<Option<State>, PyError>)
        ensures
            option_outcome(r) == if idx >= self@.commands.len() {
                Err(out_of_range())
            } else {
                Ok(state_of(self@.commands[idx as int]))
            },
    {
        if idx >= self.inner.len() {
            return Err(range_error());
        }
        match &self.inner.commands[idx].category {
            OpCategory::Moving { state, .. } => Ok(copy_optional_state(state)),
            _ => Ok(None),
        }
    }

    /// The number of cutting moves.
    pub fn count_cutting(&self) -> (r: usize)
        ensures
            r == count_of(self@.commands, |c: CommandModel| c.is_cutting()),
    {
        let ghost test = |c: CommandModel| c.is_cutting();
        let mut count: usize = 0;
        let mut i: usize = 0;
        proof {
            assert(self@.commands.take(0).filter(test) =~= Seq::empty());
        }
        while i < self.inner.len()
            invariant
                i <= self@.commands.len(),
                test == |c: CommandModel| c.is_cutting(),
                count == count_of(self@.commands.take(i as int), test),
                count <= i,
            decreases self@.commands.len() - i,
        {
            proof {
                lemma_count_step(self@.commands, test, i as int);
            }
            if self.inner.commands[i].is_moving() && self.inner.command_type(i)
                != CommandType::MoveTo {
                count += 1;
            }
            i += 1;
        }
        proof {
            assert(self@.commands.take(i as int) =~= self@.commands);
        }
        count
    }

    /// The number of travel moves.
    pub fn count_travel(&self) -> (r: usize)
        ensures
            r == count_of(self@.commands, |c: CommandModel| c.is_travel()),
    {
        let ghost test = |c: CommandModel| c.is_travel();
        let mut count: usize = 0;
        let mut i: usize = 0;
        proof {
            assert(self@.commands.take(0).filter(test) =~= Seq::empty());
        }
        while i < self.inner.len()
            invariant
                i <= self@.commands.len(),
                test == |c: CommandModel| c.is_travel(),
                count == count_of(self@.commands.take(i as int), test),
                count <= i,
            decreases self@.commands.len() - i,
        {
            proof {
                lemma_count_step(self@.commands, test, i as int);
            }
            if self.inner.command_type(i) == CommandType::MoveTo {
                count += 1;
            }
            i += 1;
        }
        proof {
            assert(self@.commands.take(i as int) =~= self@.commands);
        }
        count
    }

    /// The number of scan lines.
    pub fn count_scanline(&self) -> (r: usize)
        ensures
            r == count_of(self@.commands, |c: CommandModel| c.is_scan()),
    {
        let ghost test = |c: CommandModel| c.is_scan();
        let mut count: usize = 0;
        let mut i: usize = 0;
        proof {
            assert(self@.commands.take(0).filter(test) =~= Seq::empty());
        }
        while i < self.inner.len()
            invariant
                i <= self@.commands.len(),
                test == |c: CommandModel| c.is_scan(),
                count == count_of(self@.commands.take(i as int), test),
                count <= i,
            decreases self@.commands.len() - i,
        {
            proof {
                lemma_count_step(self@.commands, test, i as int);
            }
            if self.inner.is_scanline(i) {
                count += 1;
            }
            i += 1;
        }
        proof {
            assert(self@.commands.take(i as int) =~= self@.commands);
        }
        count
    }

    /// The number of scan lines.
    pub fn scanline_count(&self) -> (r: usize)
        ensures
            r == count_of(self@.commands, |c: CommandModel| c.is_scan()),
    {
        self.count_scanline()
    }

    /// The indices of all commands of a kind, in order.
    pub fn indices_of(&self, ct: CommandType) -> (r: Vec<usize>)
        ensures
            r@ == indices_upto(self@.commands, ct, self@.commands.len() as int),
    {
        let mut r: Vec<usize> = Vec::new();
        let mut i: usize = 0;
        while i < self.inner.len()
            invariant
                i <= self@.commands.len(),
                r@ == indices_upto(self@.commands, ct, i as int),
            decreases self@.commands.len() - i,
        {
            if self.inner.command_type(i) == ct {
                r.push(i);
            }
            i += 1;
        }
        r
    }

    /// The points whose consecutive distances add up to the distance traveled up to the command
    /// at an index: the ends of the moving commands up to and including it, in order, behind
    /// `last_point` where one is given to start from.
    pub fn distance_at(
        &self,
        idx: usize,
        last_point: Option<(Binary64, Binary64, Binary64)>,
    ) -> (r: Vec<Point3D>)
        requires
            idx < self@.commands.len(),
        ensures
            r@ == traveled(self@.commands, idx as int, last_point),
    {
        let mut r: Vec<Point3D> = Vec::new();
        if let Some(p) = last_point {
            r.push(tuple_to_point3d(p));
        }
        let ghost start = starting_points(last_point);
        let mut i: usize = 0;
        proof {
            assert(r@ =~= start + ends_upto(self@.commands, 0));
        }
        while i <= idx
            invariant
                i <= idx + 1,
                idx < self@.commands.len(),
                r@ == start + ends_upto(self@.commands, i as int),
            decreases idx + 1 - i,
        {
            proof {
                assert(self@.commands.len() == self.inner.commands.len());
            }
            if self.inner.commands[i].is_moving() {
                r.push(self.inner.endpoint(i));
                proof {
                    assert(r@ =~= start + ends_upto(self@.commands, i + 1));
                }
            }
            i += 1;
        }
        r
    }

    /// The end of the last travel move.
    pub fn get_last_move_to(&self) -> (r: (Binary64, Binary64, Binary64))
        ensures
            r == tuple_of(self@.last_move_to),
    {
        point3d_to_tuple(self.inner.last_move_to)
    }

    /// Sets the end of the last travel move.
    pub fn set_last_move_to(&mut self, val: (Binary64, Binary64, Binary64))
        ensures
            final(self)@ == (OpsModel { last_move_to: point_of(val), ..old(self)@ }),
    {
        self.inner.last_move_to = tuple_to_point3d(val);
    }

    /// Whether the cached execution time no longer holds.
    pub fn get__time_dirty(&self) -> (r: bool)
        ensures
            r == self@.time_dirty,
    {
        self.inner.time_dirty
    }

    /// The cached execution time.
    pub fn get__cached_time(&self) -> (r: Binary64)
        ensures
            r == self@.cached_time,
    {
        self.inner.cached_time
    }

    /// The parameters for which the execution time is cached.
    pub fn get__time_params(&self) -> (r: Option<(Binary64, Binary64, Binary64)>)
        ensures
            r == self@.time_params,
    {
        self.inner.time_params
    }
}

/// One more command counts if it passes the test.
proof fn lemma_count_step(
    commands: Seq<CommandModel>,
    test: spec_fn(CommandModel) -> bool,
    i: int,
)
    requires
        0 <= i < commands.len(),
    ensures
        count_of(commands.take(i + 1), test) == count_of(commands.take(i), test) + if test(
            commands[i],
        ) {
            1nat
        } else {
            0nat
        },
{
    reveal(Seq::filter);
    assert(commands.take(i + 1).drop_last() =~= commands.take(i));
}

/// The indices of a kind are exactly those of its commands, in increasing order.
pub proof fn law_indices_of(commands: Seq<CommandModel>, kind: CommandType, n: int)
    requires
        0 <= n <= commands.len() <= usize::MAX,
    ensures
        forall|i: int|
            #![trigger commands[i]]
            0 <= i < n ==> (commands[i].kind() == kind <==> indices_upto(
                commands,
                kind,
                n,
            ).contains(i as usize)),
        forall|k: int|
            0 <= k < indices_upto(commands, kind, n).len() ==> #[trigger] indices_upto(
                commands,
                kind,
                n,
            )[k] < n,
        forall|j: int, k: int|
            0 <= j < k < indices_upto(commands, kind, n).len() ==> #[trigger] indices_upto(
                commands,
                kind,
                n,
            )[j] < #[trigger] indices_upto(commands, kind, n)[k],
    decreases n,
{
    if n > 0 {
        law_indices_of(commands, kind, n - 1);
        let prev = indices_upto(commands, kind, n - 1);
        let cur = indices_upto(commands, kind, n);
        assert forall|i: int|
            #![trigger commands[i]]
            0 <= i < n implies (commands[i].kind() == kind <==> cur.contains(i as usize)) by {
            if commands[n - 1].kind() == kind {
                assert(cur == prev.push((n - 1) as usize));
                if i < n - 1 {
                    if prev.contains(i as usize) {
                        let k = choose|k: int| 0 <= k < prev.len() && prev[k] == i as usize;
                        assert(cur[k] == i as usize);
                    }
                    if cur.contains(i as usize) {
                        let k = choose|k: int| 0 <= k < cur.len() && cur[k] == i as usize;
                        assert(prev[k] == i as usize);
                    }
                } else {
                    assert(cur[prev.len() as int] == i as usize);
                }
            } else {
                assert(cur == prev);
                if i == n - 1 && prev.contains(i as usize) {
                    let k = choose|k: int| 0 <= k < prev.len() && prev[k] == i as usize;
                    assert(prev[k] < n - 1);
                }
            }
        }
    }
}

/// The parameters of a section by their views.
pub open spec fn section_outcome(
    r: Result<(SectionType, Option<String>, Option<RasterMode>), PyError>,
) -> Result<(SectionType, Option<Seq<char>>, Option<RasterMode>), ErrorModel> {
    match r {
        Ok(v) => Ok((v.0, option_view(v.1), v.2)),
        Err(e) => Err(e@),
    }
}

/// A result with an optional value, both value and error taken by their views.
pub open spec fn option_outcome<T: View>(r: Result<Option<T>, PyError>) -> Result<
    Option<T::V>,
    ErrorModel,
> {
    match r {
        Ok(v) => Ok(option_view(v)),
        Err(e) => Err(e@),
    }
}

/// A negative index names the same position as the one that is larger by the length.
pub proof fn law_negative_index(idx: int, len: nat)
    requires
        -len <= idx < 0,
        len <= usize::MAX,
    ensures
        normalized(idx, len) == normalized(idx + len, len),
        normalized(idx, len) == Ok::<usize, ErrorModel>((len + idx) as usize),
{
}

/// Every command is exactly one of: a travel move, a cutting move, a state command, a marker. A
/// scan line is a cutting move.
pub proof fn law_command_classes(c: CommandModel)
    ensures
        c.is_travel() || c.is_cutting() || c is State || c is Marker,
        !(c.is_travel() && c.is_cutting()),
        c.is_travel() || c.is_cutting() <==> c.kind().class() == CommandCategory::Moving,
        c is State <==> c.kind().class() == CommandCategory::State,
        c is Marker <==> c.kind().class() == CommandCategory::Marker,
        c.is_scan() ==> c.is_cutting(),
{
}

/// Travel moves and cutting moves together are the moves, and there are at least as many cutting
/// moves as scan lines.
pub proof fn law_counts(commands: Seq<CommandModel>)
    ensures
        count_of(commands, |c: CommandModel| c.is_travel()) + count_of(
            commands,
            |c: CommandModel| c.is_cutting(),
        ) == count_of(commands, |c: CommandModel| c is Moving),
        count_of(commands, |c: CommandModel| c.is_scan()) <= count_of(
            commands,
            |c: CommandModel| c.is_cutting(),
        ),
    decreases commands.len(),
{
    reveal(Seq::filter);
    if commands.len() > 0 {
        law_counts(commands.drop_last());
    }
}

/// There are as many indices of scan lines as there are scan lines.
pub proof fn law_scan_indices(commands: Seq<CommandModel>, n: int)
    requires
        0 <= n <= commands.len(),
    ensures
        indices_upto(commands, CommandType::ScanLine, n).len() == count_of(
            commands.take(n),
            |c: CommandModel| c.is_scan(),
        ),
    decreases n,
{
    let test = |c: CommandModel| c.is_scan();
    if n > 0 {
        law_scan_indices(commands, n - 1);
        lemma_count_step(commands, test, n - 1);
    } else {
        assert(commands.take(0).filter(test) =~= Seq::empty());
    }
}

/// The distance is cumulative: the points traveled through up to a command are the first of
/// those up to a later one, and one point is added for each move in between.
pub proof fn law_distance_accumulates(
    commands: Seq<CommandModel>,
    idx: int,
    later: int,
    last_point: Option<(Binary64, Binary64, Binary64)>,
)
    requires
        0 <= idx <= later < commands.len(),
    ensures
        traveled(commands, idx, last_point).is_prefix_of(traveled(commands, later, last_point)),
        traveled(commands, later, last_point).len() - traveled(commands, idx, last_point).len()
            == count_of(commands.subrange(idx + 1, later + 1), |c: CommandModel| c is Moving),
    decreases later - idx,
{
    let test = |c: CommandModel| c is Moving;
    let between = commands.subrange(idx + 1, later + 1);
    reveal(Seq::filter);
    if idx < later {
        law_distance_accumulates(commands, idx, later - 1, last_point);
        assert(between.drop_last() =~= commands.subrange(idx + 1, later));
        let before = traveled(commands, later - 1, last_point);
        let after = traveled(commands, later, last_point);
        if commands[later] is Moving {
            assert(after =~= before.push(commands[later].end_point()));
        }
        let first = traveled(commands, idx, last_point);
        assert(first =~= before.subrange(0, first.len() as int));
        assert(first =~= after.subrange(0, first.len() as int));
    } else {
        let first = traveled(commands, idx, last_point);
        assert(first =~= first.subrange(0, first.len() as int));
        assert(between =~= Seq::empty());
    }
}

/// An index names a position if it is one, or if it is one counted from the end; any other is
/// an index error that shows it as counted from the front.
pub proof fn law_index(idx: int, len: nat, i: usize)
    requires
        len <= usize::MAX,
    ensures
        normalized(idx, len) == Ok::<usize, ErrorModel>(i) <==> i < len && (i == idx || idx < 0
            && i == idx + len),
        normalized(idx, len) is Err <==> idx >= len || idx + len < 0,
        idx >= len ==> normalized(idx, len)->Err_0 == (ErrorModel {
            kind: ErrorKind::Index,
            message: "index out of range: "@ + signed_decimal(idx),
        }),
        idx + len < 0 ==> normalized(idx, len)->Err_0 == (ErrorModel {
            kind: ErrorKind::Index,
            message: "index out of range: "@ + signed_decimal(idx + len),
        }),
{
}

/// A reader asked for an appended command gives what the command holds, wherever it stands; an
/// index past the end is an index error, and a command without such a parameter a type error
/// with the message of the reader. A test is answered in the same way.
pub proof fn law_reading<T>(
    before: Seq<CommandModel>,
    c: CommandModel,
    after: Seq<CommandModel>,
    idx: int,
    read: spec_fn(CommandModel) -> Option<T>,
    test: spec_fn(CommandModel) -> bool,
    message: Seq<char>,
)
    ensures
        ({
            let cs = before + seq![c] + after;
            let at = before.len() as int;
            let past = ErrorModel { kind: ErrorKind::Index, message: "index out of range"@ };
            &&& read(c) is Some ==> field_at(cs, at, read, message) == Ok::<T, ErrorModel>(
                read(c)->Some_0,
            )
            &&& read(c) is None ==> field_at(cs, at, read, message) == Err::<T, ErrorModel>(
                ErrorModel { kind: ErrorKind::Type, message },
            )
            &&& test_at(cs, at, test) == Ok::<bool, ErrorModel>(test(c))
            &&& idx >= cs.len() ==> field_at(cs, idx, read, message) == Err::<T, ErrorModel>(past)
            &&& idx >= cs.len() ==> test_at(cs, idx, test) == Err::<bool, ErrorModel>(past)
        }),
{
    let cs = before + seq![c] + after;
    assert(cs[before.len() as int] == c);
}

/// What a state command sets is read back from it, and no reader finds anything in a command of
/// another kind.
pub proof fn law_settings_read_back(
    c: CommandModel,
    number: Binary64,
    rate: i32,
    rpm: u32,
    coolant: CoolantMode,
    air: AirAssistMode,
    head_coolant: HeadCoolantMode,
    name: Seq<char>,
)
    ensures
        c.power_level() == Some(number) <==> c == CommandModel::State(
            StateCmdModel::SetPower(number),
        ),
        c.power_level() is Some <==> c.kind() == CommandType::SetPower,
        c.pulse_frequency() == Some(rate) <==> c == CommandModel::State(
            StateCmdModel::SetFrequency(rate),
        ),
        c.pulse_frequency() is Some <==> c.kind() == CommandType::SetFrequency,
        c.pulse_length() == Some(number) <==> c == CommandModel::State(
            StateCmdModel::SetPulseWidth(number),
        ),
        c.pulse_length() is Some <==> c.kind() == CommandType::SetPulseWidth,
        c.rpm() == Some(rpm) <==> c == CommandModel::State(StateCmdModel::SetSpindleRpm(rpm)),
        c.rpm() is Some <==> c.kind() == CommandType::SetSpindleRpm,
        c.coolant_mode() == Some(coolant) <==> c == CommandModel::State(
            StateCmdModel::SetCoolant(coolant),
        ),
        c.coolant_mode() is Some <==> c.kind() == CommandType::SetCoolant,
        c.air_mode() == Some(air) <==> c == CommandModel::State(StateCmdModel::SetAirAssist(air)),
        c.air_mode() is Some <==> c.kind() == CommandType::SetAirAssist,
        c.head_coolant_mode() == Some(head_coolant) <==> c == CommandModel::State(
            StateCmdModel::SetHeadCoolant(head_coolant),
        ),
        c.head_coolant_mode() is Some <==> c.kind() == CommandType::SetHeadCoolant,
        c.head() == Some(name) <==> c == CommandModel::State(StateCmdModel::SetHead(name)),
        c.head() is Some <==> c.kind() == CommandType::SetHead,
        c.pause() == Some(number) <==> c == CommandModel::State(StateCmdModel::Dwell(number)),
        c.pause() is Some <==> c.kind() == CommandType::Dwell,
        c.feed_or_rapid_rate() == Some(rate) <==> c == CommandModel::State(
            StateCmdModel::SetFeedRate(rate),
        ) || c == CommandModel::State(StateCmdModel::SetRapidRate(rate)),
        c.feed_or_rapid_rate() is Some <==> c.kind() == CommandType::SetFeedRate || c.kind()
            == CommandType::SetRapidRate,
{
}

/// What a marker names is read back from it, and no reader finds anything in a command of
/// another kind.
pub proof fn law_markers_read_back(
    c: CommandModel,
    name: Seq<char>,
    section_type: SectionType,
    workpiece_uid: Option<Seq<char>>,
    raster_mode: Option<RasterMode>,
)
    ensures
        c.layer() == Some(name) <==> c == CommandModel::Marker(MarkerModel::LayerStart(name)) || c
            == CommandModel::Marker(MarkerModel::LayerEnd(name)),
        c.layer() is Some <==> c.kind() == CommandType::LayerStart || c.kind()
            == CommandType::LayerEnd,
        c.workpiece() == Some(name) <==> c == CommandModel::Marker(
            MarkerModel::WorkpieceStart(name),
        ) || c == CommandModel::Marker(MarkerModel::WorkpieceEnd(name)),
        c.workpiece() is Some <==> c.kind() == CommandType::WorkpieceStart || c.kind()
            == CommandType::WorkpieceEnd,
        c.section() == Some((section_type, workpiece_uid, raster_mode)) <==> c
            == CommandModel::Marker(
            MarkerModel::OpsSectionStart { section_type, workpiece_uid, raster_mode },
        ) || workpiece_uid is None && c == CommandModel::Marker(
            MarkerModel::OpsSectionEnd { section_type, raster_mode },
        ),
        c.section() is Some <==> c.kind() == CommandType::OpsSectionStart || c.kind()
            == CommandType::OpsSectionEnd,
{
}

/// What the shape of a move is given by is read back from it, and no reader finds anything in a
/// command of another kind.
pub proof fn law_shapes_read_back(c: CommandModel)
    ensures
        c.arc() is Some <==> c.kind() == CommandType::ArcTo,
        c.bezier() is Some <==> c.kind() == CommandType::BezierTo,
        c.quadratic() is Some <==> c.kind() == CommandType::QuadraticBezierTo,
        c.scan_power() is Some <==> c.kind() == CommandType::ScanLine,
        c.arc() matches Some(a) ==> c->cmd == (MoveModel::ArcTo {
            center: Point { x: a.0, y: a.1 },
            cw: a.2,
        }),
        c.bezier() matches Some(b) ==> c->cmd == (MoveModel::BezierTo {
            control1: Point3D { x: b.0.0, y: b.0.1, z: b.0.2 },
            control2: Point3D { x: b.1.0, y: b.1.1, z: b.1.2 },
        }),
        c.quadratic() matches Some(q) ==> c->cmd == (MoveModel::QuadraticBezierTo {
            control: Point3D { x: q.0, y: q.1, z: q.2 },
        }),
        c.scan_power() matches Some(v) ==> c->cmd == (MoveModel::ScanLine { power_values: v }),
        axes_of(c) == if c is Moving {
            c->extra_axes
        } else {
            None
        },
        state_of(c) == if c is Moving {
            c->state
        } else {
            None
        },
{
}

/// Turning a point into a tuple and back gives the point, coordinate by coordinate.
pub proof fn law_tuples(p: Point3D, t: (Binary64, Binary64, Binary64))
    ensures
        tuple_of(p).0 == p.x && tuple_of(p).1 == p.y && tuple_of(p).2 == p.z,
        point_of(tuple_of(p)) == p,
        tuple_of(point_of(t)) == t,
{
}

/// Counting adds up: the commands of two runs that pass a test are those of the one and those of
/// the other, and one command counts if it passes.
pub proof fn law_counting_adds(
    a: Seq<CommandModel>,
    b: Seq<CommandModel>,
    c: CommandModel,
    test: spec_fn(CommandModel) -> bool,
)
    ensures
        count_of(a + b, test) == count_of(a, test) + count_of(b, test),
        count_of(seq![c], test) == if test(c) {
            1nat
        } else {
            0nat
        },
        count_of(Seq::empty(), test) == 0,
    decreases b.len(),
{
    reveal(Seq::filter);
    assert(seq![c].drop_last() =~= Seq::empty());
    assert(count_of(Seq::empty(), test) == 0);
    assert(count_of(seq![c], test) == if test(c) {
        1nat
    } else {
        0nat
    }) by {
        assert(seq![c].drop_last().filter(test).len() == 0);
    }
    if b.len() > 0 {
        law_counting_adds(a, b.drop_last(), c, test);
        assert((a + b).drop_last() =~= a + b.drop_last());
    } else {
        assert(a + b =~= a);
    }
}

/// The points traveled through by two runs of commands are those of the one and those of the
/// other; a move has its end, any other command none. A point to start from comes first.
pub proof fn law_travel_adds(
    a: Seq<CommandModel>,
    b: Seq<CommandModel>,
    c: CommandModel,
    idx: int,
    p: (Binary64, Binary64, Binary64),
)
    ensures
        ends_upto(a + b, (a + b).len() as int) == ends_upto(a, a.len() as int) + ends_upto(
            b,
            b.len() as int,
        ),
        ends_upto(seq![c], 1) == if c is Moving {
            seq![c->end]
        } else {
            Seq::empty()
        },
        0 <= idx < a.len() ==> traveled(a + b, idx, None) == ends_upto(a.take(idx + 1), idx + 1),
        traveled(a, idx, Some(p)) == seq![Point3D { x: p.0, y: p.1, z: p.2 }] + traveled(
            a,
            idx,
            None,
        ),
    decreases b.len(),
{
    reveal_with_fuel(ends_upto, 2);
    assert(ends_upto(seq![c], 1) =~= if c is Moving {
        seq![c->end]
    } else {
        Seq::empty()
    });
    if b.len() > 0 {
        let front = b.drop_last();
        law_travel_adds(a, front, c, idx, p);
        lemma_ends_local(a + b, a + front, (a + front).len() as int);
        lemma_ends_local(b, front, front.len() as int);
        assert((a + b)[(a + b).len() - 1] == b.last());
        assert(ends_upto(a + b, (a + b).len() as int) =~= ends_upto(a, a.len() as int) + ends_upto(
            b,
            b.len() as int,
        ));
    } else {
        assert(a + b =~= a);
        assert(ends_upto(a, a.len() as int) + ends_upto(b, 0) =~= ends_upto(a, a.len() as int));
    }
    if 0 <= idx < a.len() {
        lemma_ends_local(a + b, a.take(idx + 1), idx + 1);
        assert(traveled(a + b, idx, None) =~= ends_upto(a + b, idx + 1));
    }
    assert(traveled(a, idx, None) =~= ends_upto(a, idx + 1));
}

/// The ends among the first commands depend on those alone.
proof fn lemma_ends_local(a: Seq<CommandModel>, b: Seq<CommandModel>, n: int)
    requires
        0 <= n <= a.len(),
        n <= b.len(),
        forall|k: int| 0 <= k < n ==> a[k] == #[trigger] b[k],
    ensures
        ends_upto(a, n) == ends_upto(b, n),
    decreases n,
{
    if n > 0 {
        lemma_ends_local(a, b, n - 1);
        assert(a[n - 1] == b[n - 1]);
    }
}

/// By its views a result with an optional value, or with the parameters of a section, is an error
/// or a value as it was.
pub proof fn law_outcomes<T: View>(
    o: Result<Option<T>, PyError>,
    s: Result<(SectionType, Option<String>, Option<RasterMode>), PyError>,
    ops: PyOps,
)
    ensures
        o is Err ==> option_outcome(o) == Err::<Option<T::V>, ErrorModel>(o->Err_0@),
        o is Ok ==> option_outcome(o) is Ok && (option_outcome(o)->Ok_0 is Some
            <==> o->Ok_0 is Some),
        o is Ok && o->Ok_0 is Some ==> option_outcome(o)->Ok_0->Some_0 == o->Ok_0->Some_0@,
        s is Err ==> section_outcome(s) is Err && section_outcome(s)->Err_0 == s->Err_0@,
        s matches Ok(v) ==> {
            &&& section_outcome(s) is Ok
            &&& section_outcome(s)->Ok_0.0 == v.0 && section_outcome(s)->Ok_0.2 == v.2
            &&& section_outcome(s)->Ok_0.1 is Some <==> v.1 is Some
            &&& v.1 is Some ==> section_outcome(s)->Ok_0.1->Some_0 == v.1->Some_0@
        },
        ops@ == ops.inner@,
{
}

} // verus!
