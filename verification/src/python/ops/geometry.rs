//! What the geometric operations decide before and after the geometry itself is computed.
use crate::binary64::Binary64;
use crate::error::{fails, outcome, ErrorKind, ErrorModel, PyError};
use crate::ops::command::{CommandType, Point};
use crate::python::ops::container::PyOps;
use crate::text::{append_decimal, decimal};
use vstd::prelude::*;
use vstd::string::StringExecFns;

verus! {

/// Whether a table has four rows of four numbers.
pub open spec fn is_4x4(rows: Seq<Vec<Binary64>>) -> bool {
    rows.len() == 4 && forall|i: int| 0 <= i < 4 ==> (#[trigger] rows[i])@.len() == 4
}

/// The columns of a matrix given by its rows; absent where the caller gave something that is no
/// table of numbers. A table that is not four by four is a value error, anything else than a
/// table a type error.
pub fn matrix_columns(rows: Option<&Vec<Vec<Binary64>>>) -> (r: Result<
    Vec<Vec<Binary64>>,
    PyError,
>)
    ensures
        match rows {
            None => fails(r, ErrorKind::Type, "expected a Matrix or a 4x4 list of lists"@),
            Some(table) => if is_4x4(table@) {
                r is Ok && is_4x4(r->Ok_0@) && forall|i: int, j: int|
                    0 <= i < 4 && 0 <= j < 4 ==> #[trigger] r->Ok_0@[j]@[i] == table@[i]@[j]
            } else {
                fails(r, ErrorKind::Value, "transform requires a 4x4 matrix"@)
            },
        },
{
    let table = match rows {
        None => {
            return Err(
                PyError::new(ErrorKind::Type, "expected a Matrix or a 4x4 list of lists"),
            );
        },
        Some(table) => table,
    };
    let mut fits = table.len() == 4;
    let mut i: usize = 0;
    while i < table.len()
        invariant
            i <= table.len(),
            fits == (table@.len() == 4 && forall|k: int|
                0 <= k < i ==> (#[trigger] table@[k])@.len() == 4),
        decreases table.len() - i,
    {
        if table[i].len() != 4 {
            fits = false;
        }
        i += 1;
    }
    if !fits {
        return Err(PyError::new(ErrorKind::Value, "transform requires a 4x4 matrix"));
    }
    let mut columns: Vec<Vec<Binary64>> = Vec::new();
    let mut j: usize = 0;
    while j < 4
        invariant
            j <= 4,
            is_4x4(table@),
            columns@.len() == j,
            forall|k: int| 0 <= k < j ==> (#[trigger] columns@[k])@.len() == 4,
            forall|i: int, k: int|
                0 <= i < 4 && 0 <= k < j ==> #[trigger] columns@[k]@[i] == table@[i]@[k],
        decreases 4 - j,
    {
        let mut column: Vec<Binary64> = Vec::new();
        column.push(table[0][j]);
        column.push(table[1][j]);
        column.push(table[2][j]);
        column.push(table[3][j]);
        columns.push(column);
        j += 1;
    }
    Ok(columns)
}

/// A point of the path at which a tab holds the workpiece, and the width of the tab.
#[derive(Clone, Copy, Debug)]
pub struct ClipPoint {
    pub x: Binary64,
    pub y: Binary64,
    pub width: Binary64,
}

/// The tabs that triples of coordinates and width name.
pub fn clip_points(clips: &Vec<(Binary64, Binary64, Binary64)>) -> (r: Vec<ClipPoint>)
    ensures
        r@.len() == clips@.len(),
        forall|i: int|
            0 <= i < clips@.len() ==> (#[trigger] r@[i]) == (ClipPoint {
                x: clips@[i].0,
                y: clips@[i].1,
                width: clips@[i].2,
            }),
{
    let mut r: Vec<ClipPoint> = Vec::new();
    let mut i: usize = 0;
    while i < clips.len()
        invariant
            i <= clips.len(),
            r@.len() == i,
            forall|k: int|
                0 <= k < i ==> (#[trigger] r@[k]) == (ClipPoint {
                    x: clips@[k].0,
                    y: clips@[k].1,
                    width: clips@[k].2,
                }),
        decreases clips.len() - i,
    {
        let (x, y, width) = clips[i];
        r.push(ClipPoint { x, y, width });
        i += 1;
    }
    r
}

/// The polygon that pairs of coordinates name.
pub open spec fn polygon_of(corners: Seq<(Binary64, Binary64)>) -> Seq<Point> {
    Seq::new(corners.len(), |i: int| Point { x: corners[i].0, y: corners[i].1 })
}

/// The polygons that lists of pairs of coordinates name.
pub fn polygons_from_tuples(regions: &Vec<Vec<(Binary64, Binary64)>>) -> (r: Vec<Vec<Point>>)
    ensures
        r@.len() == regions@.len(),
        forall|i: int|
            0 <= i < regions@.len() ==> (#[trigger] r@[i])@ == polygon_of(regions@[i]@),
{
    let mut r: Vec<Vec<Point>> = Vec::new();
    let mut i: usize = 0;
    while i < regions.len()
        invariant
            i <= regions.len(),
            r@.len() == i,
            forall|k: int| 0 <= k < i ==> (#[trigger] r@[k])@ == polygon_of(regions@[k]@),
        decreases regions.len() - i,
    {
        let corners = &regions[i];
        let mut polygon: Vec<Point> = Vec::new();
        let mut j: usize = 0;
        while j < corners.len()
            invariant
                j <= corners.len(),
                polygon@ == polygon_of(corners@).take(j as int),
            decreases corners.len() - j,
        {
            let (x, y) = corners[j];
            polygon.push(Point { x, y });
            proof {
                assert(polygon@ =~= polygon_of(corners@).take(j + 1));
            }
            j += 1;
        }
        proof {
            assert(polygon_of(corners@).take(j as int) =~= polygon_of(corners@));
        }
        r.push(polygon);
        i += 1;
    }
    r
}

/// A rectangle, or one of zeros where there is none.
pub fn rect_or_zero(found: Option<(Binary64, Binary64, Binary64, Binary64)>) -> (r: (
    Binary64,
    Binary64,
    Binary64,
    Binary64,
))
    ensures
        r == match found {
            Some(rect) => rect,
            None => (
                Binary64 { bits: 0 },
                Binary64 { bits: 0 },
                Binary64 { bits: 0 },
                Binary64 { bits: 0 },
            ),
        },
{
    match found {
        Some(rect) => rect,
        None => (Binary64::zero(), Binary64::zero(), Binary64::zero(), Binary64::zero()),
    }
}

impl CommandType {
    /// The name of a kind of command.
    pub open spec fn label(self) -> Seq<char> {
        match self {
            CommandType::MoveTo => "MoveTo"@,
            CommandType::LineTo => "LineTo"@,
            CommandType::ArcTo => "ArcTo"@,
            CommandType::BezierTo => "BezierTo"@,
            CommandType::QuadraticBezierTo => "QuadraticBezierTo"@,
            CommandType::ScanLine => "ScanLine"@,
            CommandType::SetPower => "SetPower"@,
            CommandType::SetFeedRate => "SetFeedRate"@,
            CommandType::SetRapidRate => "SetRapidRate"@,
            CommandType::SetFrequency => "SetFrequency"@,
            CommandType::SetPulseWidth => "SetPulseWidth"@,
            CommandType::SetSpindleRpm => "SetSpindleRpm"@,
            CommandType::SetCoolant => "SetCoolant"@,
            CommandType::SetAirAssist => "SetAirAssist"@,
            CommandType::SetHeadCoolant => "SetHeadCoolant"@,
            CommandType::SetHead => "SetHead"@,
            CommandType::Dwell => "Dwell"@,
            CommandType::JobStart => "JobStart"@,
            CommandType::JobEnd => "JobEnd"@,
            CommandType::LayerStart => "LayerStart"@,
            CommandType::LayerEnd => "LayerEnd"@,
            CommandType::WorkpieceStart => "WorkpieceStart"@,
            CommandType::WorkpieceEnd => "WorkpieceEnd"@,
            CommandType::OpsSectionStart => "OpsSectionStart"@,
            CommandType::OpsSectionEnd => "OpsSectionEnd"@,
            CommandType::StateBlockStart => "StateBlockStart"@,
            CommandType::StateBlockEnd => "StateBlockEnd"@,
        }
    }

    /// The name of this kind of command.
    pub fn name(self) -> (r: &'static str)
        ensures
            r@ == self.label(),
    {
        match self {
            CommandType::MoveTo => "MoveTo",
            CommandType::LineTo => "LineTo",
            CommandType::ArcTo => "ArcTo",
            CommandType::BezierTo => "BezierTo",
            CommandType::QuadraticBezierTo => "QuadraticBezierTo",
            CommandType::ScanLine => "ScanLine",
            CommandType::SetPower => "SetPower",
            CommandType::SetFeedRate => "SetFeedRate",
            CommandType::SetRapidRate => "SetRapidRate",
            CommandType::SetFrequency => "SetFrequency",
            CommandType::SetPulseWidth => "SetPulseWidth",
            CommandType::SetSpindleRpm => "SetSpindleRpm",
            CommandType::SetCoolant => "SetCoolant",
            CommandType::SetAirAssist => "SetAirAssist",
            CommandType::SetHeadCoolant => "SetHeadCoolant",
            CommandType::SetHead => "SetHead",
            CommandType::Dwell => "Dwell",
            CommandType::JobStart => "JobStart",
            CommandType::JobEnd => "JobEnd",
            CommandType::LayerStart => "LayerStart",
            CommandType::LayerEnd => "LayerEnd",
            CommandType::WorkpieceStart => "WorkpieceStart",
            CommandType::WorkpieceEnd => "WorkpieceEnd",
            CommandType::OpsSectionStart => "OpsSectionStart",
            CommandType::OpsSectionEnd => "OpsSectionEnd",
            CommandType::StateBlockStart => "StateBlockStart",
            CommandType::StateBlockEnd => "StateBlockEnd",
        }
    }
}

impl PyOps {
    /// Whether the command at an index can be broken into straight lines: every moving command
    /// can, any other is a type error.
    pub fn check_linearize(&self, idx: usize) -> (r: Result<(), PyError>)
        requires
            idx < self@.commands.len(),
        ensures
            outcome(r) == if self@.commands[idx as int] is Moving {
                Ok::<(), ErrorModel>(())
            } else {
                Err(
                    ErrorModel {
                        kind: ErrorKind::Type,
                        message: "Cannot linearize command at index "@ + decimal(idx as nat)
                            + ": "@ + self@.commands[idx as int].kind().label(),
                    },
                )
            },
    {
        let ct = self.inner.command_type(idx);
        match ct {
            CommandType::ScanLine
            | CommandType::ArcTo
            | CommandType::BezierTo
            | CommandType::QuadraticBezierTo
            | CommandType::MoveTo
            | CommandType::LineTo => Ok(()),
            _ => {
                let mut message = "Cannot linearize command at index ".to_string();
                append_decimal(&mut message, idx);
                message.append(": ");
                message.append(ct.name());
                Err(PyError { kind: ErrorKind::Type, message })
            },
        }
    }
}

/// A table is four by four if it has four rows of four numbers each.
pub proof fn law_table_size(rows: Seq<Vec<Binary64>>)
    ensures
        is_4x4(rows) <==> rows.len() == 4 && rows[0]@.len() == 4 && rows[1]@.len() == 4
            && rows[2]@.len() == 4 && rows[3]@.len() == 4,
{
    if is_4x4(rows) {
        assert(rows[0]@.len() == 4 && rows[1]@.len() == 4 && rows[2]@.len() == 4 && rows[3]@.len()
            == 4);
    }
}

/// A polygon has one corner for each pair of coordinates, in order.
pub proof fn law_polygon(corners: Seq<(Binary64, Binary64)>)
    ensures
        polygon_of(corners).len() == corners.len(),
        forall|i: int|
            0 <= i < corners.len() ==> (#[trigger] polygon_of(corners)[i]).x == corners[i].0
                && polygon_of(corners)[i].y == corners[i].1,
{
}

/// The names of kinds are built up: of moves from the shape and `To`, of settings from `Set` and
/// what is set, and of markers from what they bound and `Start` or `End`. A scan line and a pause
/// have names of their own.
pub proof fn law_labels()
    ensures
        CommandType::MoveTo.label() == "Move"@ + "To"@,
        CommandType::LineTo.label() == "Line"@ + "To"@,
        CommandType::ArcTo.label() == "Arc"@ + "To"@,
        CommandType::BezierTo.label() == "Bezier"@ + "To"@,
        CommandType::QuadraticBezierTo.label() == "QuadraticBezier"@ + "To"@,
        CommandType::SetPower.label() == "Set"@ + "Power"@,
        CommandType::SetFeedRate.label() == "Set"@ + "FeedRate"@,
        CommandType::SetRapidRate.label() == "Set"@ + "RapidRate"@,
        CommandType::SetFrequency.label() == "Set"@ + "Frequency"@,
        CommandType::SetPulseWidth.label() == "Set"@ + "PulseWidth"@,
        CommandType::SetSpindleRpm.label() == "Set"@ + "SpindleRpm"@,
        CommandType::SetCoolant.label() == "Set"@ + "Coolant"@,
        CommandType::SetAirAssist.label() == "Set"@ + "AirAssist"@,
        CommandType::SetHeadCoolant.label() == "Set"@ + "HeadCoolant"@,
        CommandType::SetHead.label() == "Set"@ + "Head"@,
        CommandType::JobStart.label() == "Job"@ + "Start"@,
        CommandType::JobEnd.label() == "Job"@ + "End"@,
        CommandType::LayerStart.label() == "Layer"@ + "Start"@,
        CommandType::LayerEnd.label() == "Layer"@ + "End"@,
        CommandType::WorkpieceStart.label() == "Workpiece"@ + "Start"@,
        CommandType::WorkpieceEnd.label() == "Workpiece"@ + "End"@,
        CommandType::OpsSectionStart.label() == "OpsSection"@ + "Start"@,
        CommandType::OpsSectionEnd.label() == "OpsSection"@ + "End"@,
        CommandType::StateBlockStart.label() == "StateBlock"@ + "Start"@,
        CommandType::StateBlockEnd.label() == "StateBlock"@ + "End"@,
        CommandType::ScanLine.label() == "ScanLine"@,
        CommandType::Dwell.label() == "Dwell"@,
{
    assert("MoveTo"@ =~= "Move"@ + "To"@) by {
        reveal_strlit("MoveTo");
        reveal_strlit("Move");
        reveal_strlit("To");
    }
    assert("LineTo"@ =~= "Line"@ + "To"@) by {
        reveal_strlit("LineTo");
        reveal_strlit("Line");
        reveal_strlit("To");
    }
    assert("ArcTo"@ =~= "Arc"@ + "To"@) by {
        reveal_strlit("ArcTo");
        reveal_strlit("Arc");
        reveal_strlit("To");
    }
    assert("BezierTo"@ =~= "Bezier"@ + "To"@) by {
        reveal_strlit("BezierTo");
        reveal_strlit("Bezier");
        reveal_strlit("To");
    }
    assert("QuadraticBezierTo"@ =~= "QuadraticBezier"@ + "To"@) by {
        reveal_strlit("QuadraticBezierTo");
        reveal_strlit("QuadraticBezier");
        reveal_strlit("To");
    }
    assert("SetPower"@ =~= "Set"@ + "Power"@) by {
        reveal_strlit("SetPower");
        reveal_strlit("Set");
        reveal_strlit("Power");
    }
    assert("SetFeedRate"@ =~= "Set"@ + "FeedRate"@) by {
        reveal_strlit("SetFeedRate");
        reveal_strlit("Set");
        reveal_strlit("FeedRate");
    }
    assert("SetRapidRate"@ =~= "Set"@ + "RapidRate"@) by {
        reveal_strlit("SetRapidRate");
        reveal_strlit("Set");
        reveal_strlit("RapidRate");
    }
    assert("SetFrequency"@ =~= "Set"@ + "Frequency"@) by {
        reveal_strlit("SetFrequency");
        reveal_strlit("Set");
        reveal_strlit("Frequency");
    }
    assert("SetPulseWidth"@ =~= "Set"@ + "PulseWidth"@) by {
        reveal_strlit("SetPulseWidth");
        reveal_strlit("Set");
        reveal_strlit("PulseWidth");
    }
    assert("SetSpindleRpm"@ =~= "Set"@ + "SpindleRpm"@) by {
        reveal_strlit("SetSpindleRpm");
        reveal_strlit("Set");
        reveal_strlit("SpindleRpm");
    }
    assert("SetCoolant"@ =~= "Set"@ + "Coolant"@) by {
        reveal_strlit("SetCoolant");
        reveal_strlit("Set");
        reveal_strlit("Coolant");
    }
    assert("SetAirAssist"@ =~= "Set"@ + "AirAssist"@) by {
        reveal_strlit("SetAirAssist");
        reveal_strlit("Set");
        reveal_strlit("AirAssist");
    }
    assert("SetHeadCoolant"@ =~= "Set"@ + "HeadCoolant"@) by {
        reveal_strlit("SetHeadCoolant");
        reveal_strlit("Set");
        reveal_strlit("HeadCoolant");
    }
    assert("SetHead"@ =~= "Set"@ + "Head"@) by {
        reveal_strlit("SetHead");
        reveal_strlit("Set");
        reveal_strlit("Head");
    }
    assert("JobStart"@ =~= "Job"@ + "Start"@) by {
        reveal_strlit("JobStart");
        reveal_strlit("Job");
        reveal_strlit("Start");
    }
    assert("JobEnd"@ =~= "Job"@ + "End"@) by {
        reveal_strlit("JobEnd");
        reveal_strlit("Job");
        reveal_strlit("End");
    }
    assert("LayerStart"@ =~= "Layer"@ + "Start"@) by {
        reveal_strlit("LayerStart");
        reveal_strlit("Layer");
        reveal_strlit("Start");
    }
    assert("LayerEnd"@ =~= "Layer"@ + "End"@) by {
        reveal_strlit("LayerEnd");
        reveal_strlit("Layer");
        reveal_strlit("End");
    }
    assert("WorkpieceStart"@ =~= "Workpiece"@ + "Start"@) by {
        reveal_strlit("WorkpieceStart");
        reveal_strlit("Workpiece");
        reveal_strlit("Start");
    }
    assert("WorkpieceEnd"@ =~= "Workpiece"@ + "End"@) by {
        reveal_strlit("WorkpieceEnd");
        reveal_strlit("Workpiece");
        reveal_strlit("End");
    }
    assert("OpsSectionStart"@ =~= "OpsSection"@ + "Start"@) by {
        reveal_strlit("OpsSectionStart");
        reveal_strlit("OpsSection");
        reveal_strlit("Start");
    }
    assert("OpsSectionEnd"@ =~= "OpsSection"@ + "End"@) by {
        reveal_strlit("OpsSectionEnd");
        reveal_strlit("OpsSection");
        reveal_strlit("End");
    }
    assert("StateBlockStart"@ =~= "StateBlock"@ + "Start"@) by {
        reveal_strlit("StateBlockStart");
        reveal_strlit("StateBlock");
        reveal_strlit("Start");
    }
    assert("StateBlockEnd"@ =~= "StateBlock"@ + "End"@) by {
        reveal_strlit("StateBlockEnd");
        reveal_strlit("StateBlock");
        reveal_strlit("End");
    }
}

} // verus!
