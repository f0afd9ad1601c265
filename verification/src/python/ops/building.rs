//! Appending commands.
use crate::binary64::Binary64;
use crate::error::{outcome, ErrorKind, ErrorModel, PyError};
use crate::ops::command::{
    moving, option_view, AirAssistMode, Axis, CommandModel, CommandType, CoolantMode,
    HeadCoolantMode, MarkerCmd, MarkerModel, MoveCmd, MoveModel, Point, Point3D, RasterMode,
    SectionType, State, StateCmd, StateCmdModel,
};
use crate::ops::container::{axes_of, lemma_extended_twice, state_commands, Ops, OpsModel};
use crate::python::ops::container::{point_of, tuple_of, tuple_to_point3d, PyOps};
use vstd::prelude::*;

verus! {

/// Whether a section may have a raster mode: a raster fill has one, a vector outline has none.
pub open spec fn section_mode_fits(
    section_type: SectionType,
    raster_mode: Option<RasterMode>,
) -> bool {
    (section_type == SectionType::RasterFill) == (raster_mode is Some)
}

/// The commands of a polyline: cuts to its points, or a travel move to the first point and cuts
/// to the others.
pub open spec fn polyline(points: Seq<(Binary64, Binary64, Binary64)>, move_first: bool) -> Seq<
    CommandModel,
> {
    Seq::new(
        points.len(),
        |i: int|
            moving(
                if move_first && i == 0 {
                    MoveModel::MoveTo
                } else {
                    MoveModel::LineTo
                },
                point_of(points[i]),
                None,
            ),
    )
}

impl PyOps {
    /// Appends a travel move.
    pub fn move_to(
        &mut self,
        x: Binary64,
        y: Binary64,
        z: Binary64,
        extra: Option<Vec<(Axis, Binary64)>>,
    )
        ensures
            final(self)@ == old(self)@.pushed(
                moving(MoveModel::MoveTo, Point3D { x, y, z }, option_view(extra)),
            ),
    {
        self.inner.push_moving(MoveCmd::MoveTo, Point3D { x, y, z }, extra);
    }

    /// Appends a straight cut.
    pub fn line_to(
        &mut self,
        x: Binary64,
        y: Binary64,
        z: Binary64,
        extra: Option<Vec<(Axis, Binary64)>>,
    )
        ensures
            final(self)@ == old(self)@.pushed(
                moving(MoveModel::LineTo, Point3D { x, y, z }, option_view(extra)),
            ),
    {
        self.inner.push_moving(MoveCmd::LineTo, Point3D { x, y, z }, extra);
    }

    /// Closes the current subpath: appends a cut back to the end of the last travel move.
    pub fn close_path(&mut self)
        ensures
            final(self)@ == old(self)@.pushed(
                moving(MoveModel::LineTo, old(self)@.last_move_to, None),
            ),
    {
        let start = self.inner.last_move_to;
        self.inner.push_moving(MoveCmd::LineTo, start, None);
    }

    /// Appends an arc; `i` and `j` lead from the current point to its center.
    pub fn arc_to(
        &mut self,
        x: Binary64,
        y: Binary64,
        i: Binary64,
        j: Binary64,
        clockwise: bool,
        z: Binary64,
        extra: Option<Vec<(Axis, Binary64)>>,
    )
        ensures
            final(self)@ == old(self)@.pushed(
                moving(
                    MoveModel::ArcTo { center: Point { x: i, y: j }, cw: clockwise },
                    Point3D { x, y, z },
                    option_view(extra),
                ),
            ),
    {
        self.inner.push_moving(
            MoveCmd::ArcTo { center: Point { x: i, y: j }, cw: clockwise },
            Point3D { x, y, z },
            extra,
        );
    }

    /// Appends a cubic curve.
    pub fn bezier_to(
        &mut self,
        control1: (Binary64, Binary64, Binary64),
        control2: (Binary64, Binary64, Binary64),
        end: (Binary64, Binary64, Binary64),
        extra: Option<Vec<(Axis, Binary64)>>,
    )
        ensures
            final(self)@ == old(self)@.pushed(
                moving(
                    MoveModel::BezierTo {
                        control1: point_of(control1),
                        control2: point_of(control2),
                    },
                    point_of(end),
                    option_view(extra),
                ),
            ),
    {
        self.inner.push_moving(
            MoveCmd::BezierTo {
                control1: tuple_to_point3d(control1),
                control2: tuple_to_point3d(control2),
            },
            tuple_to_point3d(end),
            extra,
        );
    }

    /// Appends a quadratic curve.
    pub fn quadratic_bezier_to(
        &mut self,
        control: (Binary64, Binary64, Binary64),
        end: (Binary64, Binary64, Binary64),
        extra: Option<Vec<(Axis, Binary64)>>,
    )
        ensures
            final(self)@ == old(self)@.pushed(
                moving(
                    MoveModel::QuadraticBezierTo { control: point_of(control) },
                    point_of(end),
                    option_view(extra),
                ),
            ),
    {
        self.inner.push_moving(
            MoveCmd::QuadraticBezierTo { control: tuple_to_point3d(control) },
            tuple_to_point3d(end),
            extra,
        );
    }

    /// Appends a scan line with its power values; without any, it runs at one full-power step.
    pub fn scan_to(
        &mut self,
        x: Binary64,
        y: Binary64,
        z: Binary64,
        power_values: Option<Vec<u8>>,
        extra: Option<Vec<(Axis, Binary64)>>,
    )
        ensures
            final(self)@ == old(self)@.pushed(
                moving(
                    MoveModel::ScanLine {
                        power_values: match power_values {
                            Some(v) => v@,
                            None => seq![255u8],
                        },
                    },
                    Point3D { x, y, z },
                    option_view(extra),
                ),
            ),
    {
        let values = match power_values {
            Some(v) => v,
            None => {
                let mut v: Vec<u8> = Vec::new();
                v.push(255);
                proof {
                    assert(v@ =~= seq![255u8]);
                }
                v
            },
        };
        self.inner.push_moving(
            MoveCmd::ScanLine { power_values: values },
            Point3D { x, y, z },
            extra,
        );
    }

    /// Sets the cutting power.
    pub fn set_power(&mut self, power: Binary64)
        ensures
            final(self)@ == old(self)@.pushed(
                CommandModel::State(StateCmdModel::SetPower(power)),
            ),
    {
        self.inner.push_state(StateCmd::SetPower(power));
    }

    /// Sets the feed rate, as a 32-bit integer: rounded toward zero and clamped.
    pub fn set_feed_rate(&mut self, feed_rate: Binary64)
        ensures
            final(self)@ == old(self)@.pushed(
                CommandModel::State(StateCmdModel::SetFeedRate(feed_rate.clamped_i32() as i32)),
            ),
    {
        self.inner.push_state(StateCmd::SetFeedRate(feed_rate.to_i32()));
    }

    /// Sets the rapid rate, as a 32-bit integer: rounded toward zero and clamped.
    pub fn set_rapid_rate(&mut self, rapid_rate: Binary64)
        ensures
            final(self)@ == old(self)@.pushed(
                CommandModel::State(StateCmdModel::SetRapidRate(rapid_rate.clamped_i32() as i32)),
            ),
    {
        self.inner.push_state(StateCmd::SetRapidRate(rapid_rate.to_i32()));
    }

    /// Pauses for a duration in milliseconds.
    pub fn dwell(&mut self, duration_ms: Binary64)
        ensures
            final(self)@ == old(self)@.pushed(
                CommandModel::State(StateCmdModel::Dwell(duration_ms)),
            ),
    {
        self.inner.push_state(StateCmd::Dwell(duration_ms));
    }

    /// Chooses a head.
    pub fn set_head(&mut self, head_uid: &str)
        ensures
            final(self)@ == old(self)@.pushed(
                CommandModel::State(StateCmdModel::SetHead(head_uid@)),
            ),
    {
        self.inner.push_state(StateCmd::SetHead(head_uid.to_string()));
    }

    /// Sets the pulse frequency.
    pub fn set_frequency(&mut self, frequency: i32)
        ensures
            final(self)@ == old(self)@.pushed(
                CommandModel::State(StateCmdModel::SetFrequency(frequency)),
            ),
    {
        self.inner.push_state(StateCmd::SetFrequency(frequency));
    }

    /// Sets the pulse width.
    pub fn set_pulse_width(&mut self, pulse_width: Binary64)
        ensures
            final(self)@ == old(self)@.pushed(
                CommandModel::State(StateCmdModel::SetPulseWidth(pulse_width)),
            ),
    {
        self.inner.push_state(StateCmd::SetPulseWidth(pulse_width));
    }

    /// Sets the spindle speed.
    pub fn set_spindle_rpm(&mut self, rpm: u32)
        ensures
            final(self)@ == old(self)@.pushed(
                CommandModel::State(StateCmdModel::SetSpindleRpm(rpm)),
            ),
    {
        self.inner.push_state(StateCmd::SetSpindleRpm(rpm));
    }

    /// Sets the coolant mode.
    pub fn set_coolant(&mut self, mode: CoolantMode)
        ensures
            final(self)@ == old(self)@.pushed(
                CommandModel::State(StateCmdModel::SetCoolant(mode)),
            ),
    {
        self.inner.push_state(StateCmd::SetCoolant(mode));
    }

    /// Sets the air assist mode.
    pub fn set_air_assist(&mut self, mode: AirAssistMode)
        ensures
            final(self)@ == old(self)@.pushed(
                CommandModel::State(StateCmdModel::SetAirAssist(mode)),
            ),
    {
        self.inner.push_state(StateCmd::SetAirAssist(mode));
    }

    /// Sets the head coolant mode.
    pub fn set_head_coolant(&mut self, mode: HeadCoolantMode)
        ensures
            final(self)@ == old(self)@.pushed(
                CommandModel::State(StateCmdModel::SetHeadCoolant(mode)),
            ),
    {
        self.inner.push_state(StateCmd::SetHeadCoolant(mode));
    }

    /// Appends the state commands that bring the machine into a state.
    pub fn apply_state(&mut self, state: &State)
        ensures
            final(self)@ == old(self)@.extended(state_commands(state@)),
    {
        self.inner.apply_state(state);
    }

    /// Marks the start of a job.
    pub fn job_start(&mut self)
        ensures
            final(self)@ == old(self)@.pushed(CommandModel::Marker(MarkerModel::JobStart)),
    {
        self.inner.push_marker(MarkerCmd::JobStart);
    }

    /// Marks the end of a job.
    pub fn job_end(&mut self)
        ensures
            final(self)@ == old(self)@.pushed(CommandModel::Marker(MarkerModel::JobEnd)),
    {
        self.inner.push_marker(MarkerCmd::JobEnd);
    }

    /// Marks the start of a layer.
    pub fn layer_start(&mut self, layer_uid: &str)
        ensures
            final(self)@ == old(self)@.pushed(
                CommandModel::Marker(MarkerModel::LayerStart(layer_uid@)),
            ),
    {
        self.inner.push_marker(MarkerCmd::LayerStart(layer_uid.to_string()));
    }

    /// Marks the end of a layer.
    pub fn layer_end(&mut self, layer_uid: &str)
        ensures
            final(self)@ == old(self)@.pushed(
                CommandModel::Marker(MarkerModel::LayerEnd(layer_uid@)),
            ),
    {
        self.inner.push_marker(MarkerCmd::LayerEnd(layer_uid.to_string()));
    }

    /// Marks the start of a workpiece.
    pub fn workpiece_start(&mut self, workpiece_uid: &str)
        ensures
            final(self)@ == old(self)@.pushed(
                CommandModel::Marker(MarkerModel::WorkpieceStart(workpiece_uid@)),
            ),
    {
        self.inner.push_marker(MarkerCmd::WorkpieceStart(workpiece_uid.to_string()));
    }

    /// Marks the end of a workpiece.
    pub fn workpiece_end(&mut self, workpiece_uid: &str)
        ensures
            final(self)@ == old(self)@.pushed(
                CommandModel::Marker(MarkerModel::WorkpieceEnd(workpiece_uid@)),
            ),
    {
        self.inner.push_marker(MarkerCmd::WorkpieceEnd(workpiece_uid.to_string()));
    }

    /// Marks the start of a section. A raster fill without a raster mode, and a vector outline
    /// with one, are refused with a value error, and nothing is appended.
    pub fn ops_section_start(
        &mut self,
        section_type: SectionType,
        workpiece_uid: &str,
        raster_mode: Option<RasterMode>,
    ) -> (r: Result<(), PyError>)
        ensures
            section_mode_fits(section_type, raster_mode) ==> r == Ok::<(), PyError>(())
                && final(self)@ == old(self)@.pushed(
                CommandModel::Marker(
                    MarkerModel::OpsSectionStart {
                        section_type,
                        workpiece_uid: Some(workpiece_uid@),
                        raster_mode,
                    },
                ),
            ),
            !section_mode_fits(section_type, raster_mode) ==> outcome(r) == Err::<(), ErrorModel>(
                section_mode_error(section_type),
            ) && final(self)@ == old(self)@,
    {
        match check_section_mode(section_type, raster_mode) {
            Err(e) => Err(e),
            Ok(()) => {
                self.inner.push_marker(
                    MarkerCmd::OpsSectionStart {
                        section_type,
                        workpiece_uid: Some(workpiece_uid.to_string()),
                        raster_mode,
                    },
                );
                Ok(())
            },
        }
    }

    /// Marks the end of a section. A raster fill without a raster mode, and a vector outline
    /// with one, are refused with a value error, and nothing is appended.
    pub fn ops_section_end(
        &mut self,
        section_type: SectionType,
        raster_mode: Option<RasterMode>,
    ) -> (r: Result<(), PyError>)
        ensures
            section_mode_fits(section_type, raster_mode) ==> r == Ok::<(), PyError>(())
                && final(self)@ == old(self)@.pushed(
                CommandModel::Marker(MarkerModel::OpsSectionEnd { section_type, raster_mode }),
            ),
            !section_mode_fits(section_type, raster_mode) ==> outcome(r) == Err::<(), ErrorModel>(
                section_mode_error(section_type),
            ) && final(self)@ == old(self)@,
    {
        match check_section_mode(section_type, raster_mode) {
            Err(e) => Err(e),
            Ok(()) => {
                self.inner.push_marker(MarkerCmd::OpsSectionEnd { section_type, raster_mode });
                Ok(())
            },
        }
    }

    /// Marks the start of a state block.
    pub fn state_block_start(&mut self, name: Option<&str>)
        ensures
            final(self)@ == old(self)@.pushed(
                CommandModel::Marker(
                    MarkerModel::StateBlockStart(
                        match name {
                            Some(n) => Some(n@),
                            None => None,
                        },
                    ),
                ),
            ),
    {
        let owned = match name {
            Some(n) => Some(n.to_string()),
            None => None,
        };
        self.inner.push_marker(MarkerCmd::StateBlockStart(owned));
    }

    /// Marks the end of a state block.
    pub fn state_block_end(&mut self)
        ensures
            final(self)@ == old(self)@.pushed(CommandModel::Marker(MarkerModel::StateBlockEnd)),
    {
        self.inner.push_marker(MarkerCmd::StateBlockEnd);
    }

    /// A sequence along a polyline: the commands of the state, if one is given, then cuts to the
    /// points, the first of them a travel move if `move_first` is set.
    pub fn from_polyline(
        points: &Vec<(Binary64, Binary64, Binary64)>,
        move_first: bool,
        state: Option<&State>,
    ) -> (r: PyOps)
        ensures
            r@ == OpsModel::fresh().extended(
                match state {
                    Some(s) => state_commands(s@),
                    None => Seq::empty(),
                } + polyline(points@, move_first),
            ),
    {
        let mut ops = Ops::new();
        let ghost mut done: Seq<CommandModel> = Seq::empty();
        if let Some(s) = state {
            ops.apply_state(s);
            proof {
                done = state_commands(s@);
            }
        }
        let ghost before = done;
        proof {
            assert(ops@.commands =~= OpsModel::fresh().commands + done);
            assert(done + polyline(points@.take(0), move_first) =~= done);
        }
        let mut i: usize = 0;
        while i < points.len()
            invariant
                i <= points.len(),
                ops@ == OpsModel::fresh().extended(
                    before + polyline(points@.take(i as int), move_first),
                ),
            decreases points.len() - i,
        {
            let (x, y, z) = points[i];
            let ghost m = ops@;
            if move_first && i == 0 {
                ops.move_to(x, y, z, None);
            } else {
                ops.line_to(x, y, z, None);
            }
            proof {
                let drawn = before + polyline(points@.take(i as int), move_first);
                let one = polyline(points@, move_first)[i as int];
                assert(ops@ == m.pushed(one));
                lemma_extended_twice(OpsModel::fresh(), drawn, seq![one]);
                assert(drawn + seq![one] =~= before + polyline(points@.take(i + 1), move_first));
            }
            i += 1;
        }
        proof {
            assert(points@.take(i as int) =~= points@);
        }
        PyOps { inner: ops }
    }
}

/// The error of a section whose raster mode does not fit its type.
pub open spec fn section_mode_error(section_type: SectionType) -> ErrorModel {
    ErrorModel {
        kind: ErrorKind::Value,
        message: match section_type {
            SectionType::RasterFill => "RasterFill requires a raster_mode"@,
            SectionType::VectorOutline => "VectorOutline takes no raster_mode"@,
        },
    }
}

fn check_section_mode(section_type: SectionType, raster_mode: Option<RasterMode>) -> (r: Result<
    (),
    PyError,
>)
    ensures
        outcome(r) == if section_mode_fits(section_type, raster_mode) {
            Ok::<(), ErrorModel>(())
        } else {
            Err(section_mode_error(section_type))
        },
{
    match (section_type, raster_mode) {
        (SectionType::RasterFill, None) => Err(
            PyError::new(ErrorKind::Value, "RasterFill requires a raster_mode"),
        ),
        (SectionType::VectorOutline, Some(_)) => Err(
            PyError::new(ErrorKind::Value, "VectorOutline takes no raster_mode"),
        ),
        _ => Ok(()),
    }
}

/// What a command was built with can be read back from it, and from no reader of another kind of
/// command.
pub proof fn law_curves_read_back(
    end: Point3D,
    extra: Option<Seq<(Axis, Binary64)>>,
    center: Point,
    cw: bool,
    control1: Point3D,
    control2: Point3D,
    power_values: Seq<u8>,
)
    ensures
        ({
            let arc = moving(MoveModel::ArcTo { center, cw }, end, extra);
            let cubic = moving(MoveModel::BezierTo { control1, control2 }, end, extra);
            let quadratic = moving(MoveModel::QuadraticBezierTo { control: control1 }, end, extra);
            let scan = moving(MoveModel::ScanLine { power_values }, end, extra);
            &&& arc.arc() == Some((center.x, center.y, cw))
            &&& cubic.bezier() == Some((tuple_of(control1), tuple_of(control2)))
            &&& quadratic.quadratic() == Some(tuple_of(control1))
            &&& scan.scan_power() == Some(power_values)
            &&& arc.bezier() is None && arc.quadratic() is None && arc.scan_power() is None
            &&& cubic.arc() is None && cubic.quadratic() is None && cubic.scan_power() is None
            &&& quadratic.arc() is None && quadratic.bezier() is None
                && quadratic.scan_power() is None
            &&& scan.arc() is None && scan.bezier() is None && scan.quadratic() is None
            &&& arc.end_point() == end && cubic.end_point() == end && quadratic.end_point() == end
                && scan.end_point() == end
            &&& axes_of(arc) == extra && axes_of(cubic) == extra && axes_of(quadratic) == extra
                && axes_of(scan) == extra
        }),
{
}

/// Building from a polyline gives one command per point, behind the commands of the state, and
/// the first of them alone is a travel move, if one is wanted.
pub proof fn law_polyline(points: Seq<(Binary64, Binary64, Binary64)>, move_first: bool)
    ensures
        polyline(points, move_first).len() == points.len(),
        forall|i: int|
            0 <= i < points.len() ==> {
                let c = #[trigger] polyline(points, move_first)[i];
                &&& c.end_point() == point_of(points[i])
                &&& c.is_travel() == (move_first && i == 0)
                &&& c.kind() == if move_first && i == 0 {
                    CommandType::MoveTo
                } else {
                    CommandType::LineTo
                }
            },
{
}

/// A raster fill must have a raster mode and a vector outline must have none; anything else is
/// refused with a value error that names the type.
pub proof fn law_section_modes(mode: RasterMode)
    ensures
        section_mode_fits(SectionType::RasterFill, Some(mode)),
        !section_mode_fits(SectionType::RasterFill, None),
        section_mode_fits(SectionType::VectorOutline, None),
        !section_mode_fits(SectionType::VectorOutline, Some(mode)),
        forall|t: SectionType| #[trigger] section_mode_error(t).kind == ErrorKind::Value,
{
}

/// A polyline of two runs of points is the one followed by the other, the other without a travel
/// move of its own unless the first run is empty; one point is one move to it.
pub proof fn law_polyline_by_parts(
    a: Seq<(Binary64, Binary64, Binary64)>,
    b: Seq<(Binary64, Binary64, Binary64)>,
    p: (Binary64, Binary64, Binary64),
    move_first: bool,
)
    ensures
        a.len() > 0 ==> polyline(a + b, move_first) == polyline(a, move_first) + polyline(b, false),
        polyline(seq![p], move_first) == seq![
            CommandModel::Moving {
                cmd: if move_first {
                    MoveModel::MoveTo
                } else {
                    MoveModel::LineTo
                },
                end: Point3D { x: p.0, y: p.1, z: p.2 },
                extra_axes: None,
                state: None,
            },
        ],
        polyline(Seq::empty(), move_first).len() == 0,
{
    if a.len() > 0 {
        assert(polyline(a + b, move_first) =~= polyline(a, move_first) + polyline(b, false));
    }
}

} // verus!
