//! The correction of raster passes that run in opposite directions, as a Python object.
use crate::binary64::Binary64;
use crate::ops::transform::bidir_scan_offset::{
    apply_bidir_scan_offset, corrected, passes, PassShift,
};
use crate::ops::transform::bidir_scan_offset::BidirScanOffsetSpec as CoreBidirScanOffsetSpec;
use crate::python::ops::container::PyOps;
use vstd::prelude::*;
use vstd::std_specs::cmp::PartialEqSpecImpl;

verus! {

/// Parameters of the correction.
#[derive(Clone, Copy, Debug)]
pub struct BidirScanOffsetSpec {
    /// Offset in millimeters along the reference direction of the scan, for passes that run
    /// against it.
    pub offset_mm: Binary64,
    /// Scan angle in degrees.
    pub scan_angle_deg: Binary64,
}

impl PartialEq for BidirScanOffsetSpec {
    fn eq(&self, other: &BidirScanOffsetSpec) -> (r: bool) {
        self.offset_mm.equals(other.offset_mm) && self.scan_angle_deg.equals(other.scan_angle_deg)
    }
}

impl PartialEqSpecImpl for BidirScanOffsetSpec {
    open spec fn obeys_eq_spec() -> bool {
        true
    }

    /// Both numbers are equal as IEEE numbers are.
    open spec fn eq_spec(&self, other: &BidirScanOffsetSpec) -> bool {
        self.offset_mm.same_number(other.offset_mm) && self.scan_angle_deg.same_number(
            other.scan_angle_deg,
        )
    }
}

impl BidirScanOffsetSpec {
    /// Parameters with the given offset and scan angle.
    pub fn new(offset_mm: Binary64, scan_angle_deg: Binary64) -> (r: BidirScanOffsetSpec)
        ensures
            r.offset_mm == offset_mm,
            r.scan_angle_deg == scan_angle_deg,
    {
        BidirScanOffsetSpec { offset_mm, scan_angle_deg }
    }

    /// The parameters for the correction itself.
    pub fn into_core(self) -> (r: CoreBidirScanOffsetSpec)
        ensures
            r.offset_mm == self.offset_mm,
            r.scan_angle_deg == self.scan_angle_deg,
    {
        CoreBidirScanOffsetSpec {
            offset_mm: self.offset_mm,
            scan_angle_deg: self.scan_angle_deg,
        }
    }
}

impl PyOps {
    /// Shifts the raster passes that run against the reference direction of the scan, given how
    /// the passes lie to that direction.
    pub fn apply_bidir_scan_offset(&mut self, offset_mm: Binary64, shifts: &Vec<PassShift>)
        requires
            old(self)@.commands.len() != 0 && offset_mm.rank() != 0 ==> shifts@.len() == passes(
                old(self)@.commands,
            ).len(),
        ensures
            final(self)@ == if old(self)@.commands.len() == 0 || offset_mm.rank() == 0 {
                old(self)@
            } else {
                old(self)@.cleared().extended(corrected(old(self)@.commands, shifts@))
            },
    {
        apply_bidir_scan_offset(&mut self.inner, offset_mm, shifts);
    }
}

/// Parameters are equal exactly if both numbers are: neither a NaN, and each of the rank of the
/// other.
pub proof fn law_equal_parameters(a: BidirScanOffsetSpec, b: BidirScanOffsetSpec)
    ensures
        vstd::std_specs::cmp::PartialEqSpec::eq_spec(&a, &b) <==> {
            &&& !a.offset_mm.is_nan() && !b.offset_mm.is_nan()
            &&& !a.scan_angle_deg.is_nan() && !b.scan_angle_deg.is_nan()
            &&& a.offset_mm.rank() == b.offset_mm.rank()
            &&& a.scan_angle_deg.rank() == b.scan_angle_deg.rank()
        },
{
}

} // verus!
