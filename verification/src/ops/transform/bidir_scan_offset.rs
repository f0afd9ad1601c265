//! Correction of the misalignment between raster passes that run in opposite directions.
//!
//! A pass is a travel move followed by a scan line, with at most state commands in between. A
//! pass that runs against the reference direction of the scan is replaced by one with shifted
//! ends; all other commands stay as they are.
use crate::binary64::Binary64;
use crate::ops::command::{
    moving, CommandCategory, CommandModel, CommandType, MoveModel, Point3D,
};
use crate::ops::container::{axes_of, lemma_extended_twice, Ops, OpsModel};
use crate::ops::transform::Phase;
use std::collections::hash_map::DefaultHasher;
use std::hash::{Hash, Hasher};
use vstd::endian::{endianness, Endian};
use vstd::prelude::*;
use vstd::std_specs::hash::DefaultHasherAdditionalSpecFns;
use vstd::std_specs::cmp::PartialEqSpecImpl;

verus! {

/// Parameters of the correction.
#[derive(Clone, Copy, Debug)]
pub struct BidirScanOffsetSpec {
    /// Offset in millimeters along the reference direction of the scan, for passes that run
    /// against it.
    pub offset_mm: Binary64,
    /// Scan angle in degrees.
    pub scan_angle_deg: Binary64,
}

impl PartialEq for BidirScanOffsetSpec {
    fn eq(&self, other: &BidirScanOffsetSpec) -> (r: bool) {
        self.offset_mm.equals(other.offset_mm) && self.scan_angle_deg.equals(other.scan_angle_deg)
    }
}

impl PartialEqSpecImpl for BidirScanOffsetSpec {
    open spec fn obeys_eq_spec() -> bool {
        true
    }

    /// Both numbers are equal as IEEE numbers are.
    open spec fn eq_spec(&self, other: &BidirScanOffsetSpec) -> bool {
        self.offset_mm.same_number(other.offset_mm) && self.scan_angle_deg.same_number(
            other.scan_angle_deg,
        )
    }
}

/// What a hasher has taken in once a string was hashed into it with [`std::hash::Hash`].
pub uninterp spec fn hashed_str(before: Seq<Seq<u8>>, text: Seq<char>) -> Seq<Seq<u8>>;

/// What a hasher has taken in once a 64-bit number was hashed into it with [`std::hash::Hash`],
/// on a machine with the given byte order.
pub uninterp spec fn hashed_u64(before: Seq<Seq<u8>>, number: u64, big_endian: bool) -> Seq<
    Seq<u8>,
>;

/// Calls [`std::hash::Hash::hash`] of a string. What the hasher has taken in afterwards depends
/// on what it had taken in before and on the string; how is left open.
#[verifier::external_body]
fn hash_str(hasher: &mut DefaultHasher, text: &str)
    ensures
        final(hasher)@ == hashed_str(old(hasher)@, text@),
{
    text.hash(hasher);
}

/// Calls [`std::hash::Hash::hash`] of a 64-bit number. What the hasher has taken in afterwards
/// depends on what it had taken in before, on the number and on the byte order of the machine;
/// how is left open.
#[verifier::external_body]
fn hash_u64(hasher: &mut DefaultHasher, number: u64)
    ensures
        final(hasher)@ == hashed_u64(old(hasher)@, number, endianness() == Endian::Big),
{
    number.hash(hasher);
}

impl BidirScanOffsetSpec {
    /// The phase in which the correction runs.
    pub fn phase(&self) -> (r: Phase)
        ensures
            r == Phase::PostProcessing,
    {
        Phase::PostProcessing
    }

    /// The name of the correction.
    pub fn name(&self) -> (r: &str)
        ensures
            r@ == "bidir_scan_offset"@,
    {
        "bidir_scan_offset"
    }

    /// A key under which results of this correction can be cached: the hash of its name and of
    /// the bit pattern of the offset. The scan angle does not enter.
    pub fn cache_key(&self) -> (r: u64)
        ensures
            r == DefaultHasher::spec_finish(
                hashed_u64(
                    hashed_str(Seq::empty(), "bidir_scan_offset"@),
                    self.offset_mm.bits,
                    endianness() == Endian::Big,
                ),
            ),
    {
        let mut h = DefaultHasher::new();
        hash_str(&mut h, self.name());
        hash_u64(&mut h, self.offset_mm.bits);
        h.finish()
    }

    /// Corrects a sequence with these parameters, given how its passes lie to the reference
    /// direction.
    pub fn apply(&self, ops: &mut Ops, shifts: &Vec<PassShift>)
        requires
            old(ops)@.commands.len() != 0 && self.offset_mm.rank() != 0 ==> shifts@.len()
                == passes(old(ops)@.commands).len(),
        ensures
            final(ops)@ == if old(ops)@.commands.len() == 0 || self.offset_mm.rank() == 0 {
                old(ops)@
            } else {
                old(ops)@.cleared().extended(corrected(old(ops)@.commands, shifts@))
            },
    {
        apply_bidir_scan_offset(ops, self.offset_mm, shifts);
    }
}

/// A raster pass: the indices of its travel move and of its scan line, and where they end.
#[derive(Clone, Copy, Debug)]
pub struct ScanPass {
    pub move_idx: usize,
    pub scan_idx: usize,
    pub move_end: Point3D,
    pub scan_end: Point3D,
}

/// How a pass lies to the reference direction: its length along that direction, and the plane
/// coordinates that its two ends have once shifted.
#[derive(Clone, Copy, Debug)]
pub struct PassShift {
    pub along_ref: Binary64,
    pub move_x: Binary64,
    pub move_y: Binary64,
    pub scan_x: Binary64,
    pub scan_y: Binary64,
}

/// Whether two commands make up a pass: a travel move and a later scan line, with nothing but
/// state commands in between, however many.
pub open spec fn is_pass(cs: Seq<CommandModel>, i: int, j: int) -> bool {
    &&& 0 <= i < j < cs.len()
    &&& cs[i] matches CommandModel::Moving { cmd: MoveModel::MoveTo, .. }
    &&& cs[j] matches CommandModel::Moving { cmd: MoveModel::ScanLine { .. }, .. }
    &&& forall|m: int| i < m < j ==> #[trigger] cs[m] is State
}

/// The first index from `j` on that does not hold a state command.
pub open spec fn skip_state(cs: Seq<CommandModel>, j: int) -> int
    decreases cs.len() - j,
{
    if 0 <= j < cs.len() && cs[j] is State {
        skip_state(cs, j + 1)
    } else {
        j
    }
}

/// Whether a pass starts at an index.
pub open spec fn pass_at(cs: Seq<CommandModel>, i: int) -> bool {
    let j = skip_state(cs, i + 1);
    0 <= i < cs.len() && cs[i].is_travel() && j < cs.len() && cs[j].is_scan()
}

/// The passes that start before index `n`, in order: the index of the travel move and that of
/// the scan line.
pub open spec fn passes_before(cs: Seq<CommandModel>, n: int) -> Seq<(int, int)>
    decreases n,
{
    if n <= 0 {
        Seq::empty()
    } else if pass_at(cs, n - 1) {
        passes_before(cs, n - 1).push((n - 1, skip_state(cs, n)))
    } else {
        passes_before(cs, n - 1)
    }
}

/// All passes, in order.
pub open spec fn passes(cs: Seq<CommandModel>) -> Seq<(int, int)> {
    passes_before(cs, cs.len() as int)
}

/// A moving command with other plane coordinates. It keeps its kind, its height and its extra
/// axes, and carries no machine state.
pub open spec fn relocated(c: CommandModel, x: Binary64, y: Binary64) -> CommandModel {
    moving(c->cmd, Point3D { x, y, z: c.end_point().z }, axes_of(c))
}

/// The commands with the first `n` passes corrected: both ends of a pass whose length along the
/// reference direction is negative are relocated.
pub open spec fn corrected_upto(cs: Seq<CommandModel>, shifts: Seq<PassShift>, n: int) -> Seq<
    CommandModel,
>
    decreases n,
{
    if n <= 0 {
        cs
    } else {
        let before = corrected_upto(cs, shifts, n - 1);
        let (i, j) = passes(cs)[n - 1];
        let s = shifts[n - 1];
        if s.along_ref.below_zero() {
            before.update(i, relocated(cs[i], s.move_x, s.move_y)).update(
                j,
                relocated(cs[j], s.scan_x, s.scan_y),
            )
        } else {
            before
        }
    }
}

/// The commands with every pass corrected.
pub open spec fn corrected(cs: Seq<CommandModel>, shifts: Seq<PassShift>) -> Seq<CommandModel> {
    corrected_upto(cs, shifts, passes(cs).len() as int)
}

proof fn lemma_skip_state(cs: Seq<CommandModel>, j: int)
    requires
        0 <= j <= cs.len(),
    ensures
        j <= skip_state(cs, j) <= cs.len(),
        forall|m: int| j <= m < skip_state(cs, j) ==> cs[m] is State,
        skip_state(cs, j) < cs.len() ==> !(cs[skip_state(cs, j)] is State),
    decreases cs.len() - j,
{
    if j < cs.len() && cs[j] is State {
        lemma_skip_state(cs, j + 1);
    }
}

/// Between the two commands of a pass no other pass starts.
proof fn lemma_no_pass_inside(cs: Seq<CommandModel>, i: int, m: int)
    requires
        pass_at(cs, i),
        i < m <= skip_state(cs, i + 1),
    ensures
        !pass_at(cs, m),
{
    lemma_skip_state(cs, i + 1);
}

/// The passes are real passes and follow one another without overlap.
pub proof fn lemma_passes_before(cs: Seq<CommandModel>, n: int)
    requires
        0 <= n <= cs.len(),
    ensures
        forall|p: int|
            0 <= p < passes_before(cs, n).len() ==> {
                let (i, j) = #[trigger] passes_before(cs, n)[p];
                0 <= i < n && pass_at(cs, i) && j == skip_state(cs, i + 1) && i < j < cs.len()
            },
        forall|p: int, q: int|
            0 <= p < q < passes_before(cs, n).len() ==> (#[trigger] passes_before(cs, n)[p]).1 < (
            #[trigger] passes_before(cs, n)[q]).0,
    decreases n,
{
    if n > 0 {
        lemma_passes_before(cs, n - 1);
        let prev = passes_before(cs, n - 1);
        let cur = passes_before(cs, n);
        if pass_at(cs, n - 1) {
            lemma_skip_state(cs, n);
            let last = (n - 1, skip_state(cs, n));
            assert(cur == prev.push(last));
            assert forall|p: int| 0 <= p < prev.len() implies (#[trigger] prev[p]).1 < n - 1 by {
                let (i, j) = prev[p];
                if j >= n - 1 {
                    lemma_no_pass_inside(cs, i, n - 1);
                }
            }
            assert forall|p: int| 0 <= p < cur.len() implies {
                let (i, j) = #[trigger] cur[p];
                0 <= i < n && pass_at(cs, i) && j == skip_state(cs, i + 1) && i < j < cs.len()
            } by {
                if p < prev.len() {
                    assert(cur[p] == prev[p]);
                } else {
                    assert(cur[p] == last);
                }
            }
            assert forall|p: int, q: int| 0 <= p < q < cur.len() implies (#[trigger] cur[p]).1 < (
            #[trigger] cur[q]).0 by {
                assert(cur[p] == prev[p]);
                if q < prev.len() {
                    assert(cur[q] == prev[q]);
                } else {
                    assert(cur[q] == last);
                }
            }
        } else {
            assert(cur == prev);
        }
    }
}

/// The passes before an index are the first of all passes.
proof fn lemma_passes_prefix(cs: Seq<CommandModel>, a: int, b: int)
    requires
        0 <= a <= b,
    ensures
        passes_before(cs, a).len() <= passes_before(cs, b).len(),
        forall|p: int|
            0 <= p < passes_before(cs, a).len() ==> passes_before(cs, a)[p] == passes_before(
                cs,
                b,
            )[p],
    decreases b,
{
    if a < b {
        lemma_passes_prefix(cs, a, b - 1);
    }
}

/// Every pass is listed.
pub proof fn lemma_pass_listed(cs: Seq<CommandModel>, i: int, n: int)
    requires
        pass_at(cs, i),
        i < n,
    ensures
        passes_before(cs, i).len() < passes_before(cs, n).len(),
        passes_before(cs, n)[passes_before(cs, i).len() as int] == (i, skip_state(cs, i + 1)),
{
    lemma_passes_prefix(cs, i + 1, n);
    assert(passes_before(cs, i + 1).last() == (i, skip_state(cs, i + 1)));
    assert(passes_before(cs, i + 1)[passes_before(cs, i).len() as int] == (
        i,
        skip_state(cs, i + 1),
    ));
}

/// Stepping over a run of indices where no pass starts adds no pass.
proof fn lemma_passes_same(cs: Seq<CommandModel>, a: int, b: int)
    requires
        0 <= a <= b,
        forall|m: int| a <= m < b ==> !#[trigger] pass_at(cs, m),
    ensures
        passes_before(cs, a) == passes_before(cs, b),
    decreases b - a,
{
    if a < b {
        lemma_passes_same(cs, a, b - 1);
        assert(!pass_at(cs, b - 1));
    }
}

/// What a corrected sequence holds at each index.
proof fn lemma_corrected_at(cs: Seq<CommandModel>, shifts: Seq<PassShift>, n: int)
    requires
        0 <= n <= passes(cs).len(),
    ensures
        corrected_upto(cs, shifts, n).len() == cs.len(),
        forall|k: int|
            0 <= k < cs.len() && (forall|p: int|
                0 <= p < n ==> (#[trigger] passes(cs)[p]).0 != k && passes(cs)[p].1 != k)
                ==> #[trigger] corrected_upto(cs, shifts, n)[k] == cs[k],
        forall|p: int|
            0 <= p < n ==> {
                let (i, j) = #[trigger] passes(cs)[p];
                let opposite = shifts[p].along_ref.below_zero();
                &&& corrected_upto(cs, shifts, n)[i] == if opposite {
                    relocated(cs[i], shifts[p].move_x, shifts[p].move_y)
                } else {
                    cs[i]
                }
                &&& corrected_upto(cs, shifts, n)[j] == if opposite {
                    relocated(cs[j], shifts[p].scan_x, shifts[p].scan_y)
                } else {
                    cs[j]
                }
            },
    decreases n,
{
    if n > 0 {
        lemma_passes_before(cs, cs.len() as int);
        lemma_corrected_at(cs, shifts, n - 1);
        let all = passes(cs);
        let before = corrected_upto(cs, shifts, n - 1);
        let (i, j) = all[n - 1];
        assert(i < j < cs.len());
        assert forall|p: int| 0 <= p < n - 1 implies (#[trigger] all[p]).0 < i && all[p].1 < i by {
            assert(all[p].1 < all[n - 1].0);
        }
        assert(before[i] == cs[i]);
        assert(before[j] == cs[j]);
    }
}

/// A pass has as many passes before it as its place in the list says.
proof fn lemma_ordinal(cs: Seq<CommandModel>, p: int)
    requires
        0 <= p < passes(cs).len(),
    ensures
        passes_before(cs, passes(cs)[p].0).len() == p,
{
    let n = cs.len() as int;
    lemma_passes_before(cs, n);
    let i = passes(cs)[p].0;
    lemma_pass_listed(cs, i, n);
    let q = passes_before(cs, i).len() as int;
    if p < q {
        assert(passes(cs)[p].1 < passes(cs)[q].0);
    } else if q < p {
        assert(passes(cs)[q].1 < passes(cs)[p].0);
    }
}

/// The commands between the two of a pass stay.
proof fn lemma_inside_kept(cs: Seq<CommandModel>, shifts: Seq<PassShift>, p: int)
    requires
        0 <= p < passes(cs).len(),
    ensures
        forall|k: int|
            passes(cs)[p].0 < k < passes(cs)[p].1 ==> #[trigger] corrected(cs, shifts)[k] == cs[k],
{
    let all = passes(cs);
    lemma_passes_before(cs, cs.len() as int);
    lemma_corrected_at(cs, shifts, all.len() as int);
    assert forall|k: int| all[p].0 < k < all[p].1 implies #[trigger] corrected(cs, shifts)[k]
        == cs[k] by {
        assert forall|q: int| 0 <= q < all.len() implies (#[trigger] all[q]).0 != k && all[q].1
            != k by {
            if q < p {
                assert(all[q].1 < all[p].0);
            } else if p < q {
                assert(all[p].1 < all[q].0);
            }
        }
    }
}

/// A command that is past all earlier passes and starts none stays.
proof fn lemma_outside_kept(cs: Seq<CommandModel>, shifts: Seq<PassShift>, k: int)
    requires
        0 <= k < cs.len(),
        !pass_at(cs, k),
        forall|p: int|
            0 <= p < passes_before(cs, k).len() ==> (#[trigger] passes_before(cs, k)[p]).1 < k,
    ensures
        corrected(cs, shifts)[k] == cs[k],
{
    let all = passes(cs);
    let n = cs.len() as int;
    lemma_passes_before(cs, n);
    lemma_corrected_at(cs, shifts, all.len() as int);
    lemma_passes_prefix(cs, k, n);
    assert forall|q: int| 0 <= q < all.len() implies (#[trigger] all[q]).0 != k && all[q].1
        != k by {
        if q < passes_before(cs, k).len() {
            assert(passes_before(cs, k)[q] == all[q]);
        } else if all[q].0 < k {
            lemma_ordinal(cs, q);
            lemma_pass_listed(cs, all[q].0, k);
        }
    }
}

/// Finds all passes.
pub fn scan_passes(ops: &Ops) -> (r: Vec<ScanPass>)
    ensures
        r@.len() == passes(ops@.commands).len(),
        forall|p: int|
            0 <= p < r@.len() ==> {
                let (i, j) = passes(ops@.commands)[p];
                &&& (#[trigger] r@[p]).move_idx == i
                &&& r@[p].scan_idx == j
                &&& r@[p].move_end == ops@.commands[i].end_point()
                &&& r@[p].scan_end == ops@.commands[j].end_point()
            },
{
    let mut r: Vec<ScanPass> = Vec::new();
    let ghost cs = ops@.commands;
    let n: usize = ops.len();
    let mut idx: usize = 0;
    while idx < n
        invariant
            idx <= n,
            n == cs.len(),
            cs == ops@.commands,
            r@.len() == passes_before(cs, idx as int).len(),
            forall|p: int|
                0 <= p < r@.len() ==> {
                    let (i, j) = passes_before(cs, idx as int)[p];
                    &&& (#[trigger] r@[p]).move_idx == i
                    &&& r@[p].scan_idx == j
                    &&& r@[p].move_end == cs[i].end_point()
                    &&& r@[p].scan_end == cs[j].end_point()
                },
        decreases n - idx,
    {
        if let Some(j) = pass_end(ops, idx) {
            r.push(
                ScanPass {
                    move_idx: idx,
                    scan_idx: j,
                    move_end: ops.endpoint(idx),
                    scan_end: ops.endpoint(j),
                },
            );
        }
        idx += 1;
    }
    r
}

/// The index of the scan line of the pass that starts at an index, if one does.
pub fn pass_end(ops: &Ops, idx: usize) -> (r: Option<usize>)
    requires
        idx < ops@.commands.len(),
    ensures
        r is Some == pass_at(ops@.commands, idx as int),
        r matches Some(j) ==> j == skip_state(ops@.commands, idx + 1) && idx < j
            < ops@.commands.len(),
        r matches Some(j) ==> is_pass(ops@.commands, idx as int, j as int),
        r is None ==> forall|j: int| !#[trigger] is_pass(ops@.commands, idx as int, j),
{
    if ops.command_type(idx) != CommandType::MoveTo {
        assert(!ops@.commands[idx as int].is_travel());
        return None;
    }
    let n: usize = ops.len();
    let mut j: usize = idx + 1;
    while j < n && ops.category(j) == CommandCategory::State
        invariant
            idx < j <= n,
            n == ops@.commands.len(),
            skip_state(ops@.commands, idx + 1) == skip_state(ops@.commands, j as int),
        decreases n - j,
    {
        j += 1;
    }
    proof {
        assert forall|k: int| #[trigger] is_pass(ops@.commands, idx as int, k) implies pass_at(
            ops@.commands,
            idx as int,
        ) by {
            lemma_skip_reaches(ops@.commands, idx + 1, k);
        }
        lemma_skip_state(ops@.commands, idx + 1);
    }
    if j < n && ops.is_scanline(j) {
        Some(j)
    } else {
        None
    }
}

/// Shifts the passes that run against the reference direction of the scan.
///
/// `shifts` gives, for each pass in order, its length along the reference direction and its
/// shifted ends. A pass is shifted where that length is negative. An empty sequence and an
/// offset of zero leave everything as it is.
pub fn apply_bidir_scan_offset(ops: &mut Ops, offset_mm: Binary64, shifts: &Vec<PassShift>)
    requires
        old(ops)@.commands.len() != 0 && offset_mm.rank() != 0 ==> shifts@.len() == passes(
            old(ops)@.commands,
        ).len(),
    ensures
        final(ops)@ == if old(ops)@.commands.len() == 0 || offset_mm.rank() == 0 {
            old(ops)@
        } else {
            old(ops)@.cleared().extended(corrected(old(ops)@.commands, shifts@))
        },
{
    if ops.is_empty() || offset_mm.is_zero() {
        return;
    }
    let source = ops.copy();
    ops.clear();
    let n: usize = source.len();
    let ghost cs = source@.commands;
    let ghost m = ops@;
    let ghost out = corrected(cs, shifts@);
    let mut idx: usize = 0;
    let mut pass: usize = 0;
    proof {
        lemma_passes_before(cs, cs.len() as int);
        lemma_corrected_at(cs, shifts@, passes(cs).len() as int);
        assert(ops@.commands =~= m.commands + out.take(0));
        assert(out.take(0) =~= Seq::empty());
    }
    while idx < n
        invariant
            idx <= n,
            n == cs.len(),
            cs == source@.commands,
            out == corrected(cs, shifts@),
            out.len() == cs.len(),
            shifts@.len() == passes(cs).len(),
            pass == passes_before(cs, idx as int).len(),
            forall|p: int|
                0 <= p < passes_before(cs, idx as int).len() ==> (#[trigger] passes_before(
                    cs,
                    idx as int,
                )[p]).1 < idx,
            ops@ == m.extended(out.take(idx as int)),
        decreases n - idx,
    {
        let ghost done = out.take(idx as int);
        match pass_end(&source, idx) {
            Some(j) => {
                proof {
                    lemma_pass_listed(cs, idx as int, cs.len() as int);
                    lemma_corrected_at(cs, shifts@, passes(cs).len() as int);
                    lemma_inside_kept(cs, shifts@, pass as int);
                    assert forall|x: int| idx + 1 <= x < j + 1 implies !#[trigger] pass_at(
                        cs,
                        x,
                    ) by {
                        lemma_no_pass_inside(cs, idx as int, x);
                    }
                    lemma_passes_same(cs, idx + 1, j + 1);
                }
                let shift = shifts[pass];
                let move_end = source.endpoint(idx);
                let scan_end = source.endpoint(j);
                if shift.along_ref.is_below_zero() {
                    ops.move_to(shift.move_x, shift.move_y, move_end.z, source.extra_axes(idx));
                    proof {
                        lemma_extended_twice(m, done, seq![out[idx as int]]);
                    }
                    ops.transfer_range_from(&source, idx + 1, j);
                    proof {
                        lemma_extended_twice(
                            m,
                            done + seq![out[idx as int]],
                            cs.subrange(idx + 1, j as int),
                        );
                    }
                    let power_values = source.scanline_data(j);
                    ops.scan_to(
                        shift.scan_x,
                        shift.scan_y,
                        scan_end.z,
                        power_values,
                        source.extra_axes(j),
                    );
                    proof {
                        let most = done + seq![out[idx as int]] + cs.subrange(idx + 1, j as int);
                        lemma_extended_twice(m, most, seq![out[j as int]]);
                        assert(most + seq![out[j as int]] =~= out.take(j + 1));
                    }
                } else {
                    ops.transfer_range_from(&source, idx, j + 1);
                    proof {
                        lemma_extended_twice(m, done, cs.subrange(idx as int, j + 1));
                        assert(done + cs.subrange(idx as int, j + 1) =~= out.take(j + 1));
                    }
                }
                assert(pass < shifts.len());
                pass += 1;
                idx = j + 1;
            },
            None => {
                ops.transfer_command_from(&source, idx);
                proof {
                    lemma_outside_kept(cs, shifts@, idx as int);
                    lemma_extended_twice(m, done, seq![cs[idx as int]]);
                    assert(done + seq![cs[idx as int]] =~= out.take(idx + 1));
                }
                idx += 1;
            },
        }
    }
    proof {
        assert(out.take(idx as int) =~= out);
    }
}

/// The correction keeps the number of commands and, at each index, the kind of command, the
/// shape of the move, its height and its extra axes. Only moving commands change.
pub proof fn law_shape_kept(cs: Seq<CommandModel>, shifts: Seq<PassShift>)
    requires
        shifts.len() == passes(cs).len(),
    ensures
        corrected(cs, shifts).len() == cs.len(),
        forall|k: int|
            0 <= k < cs.len() ==> {
                let c = #[trigger] corrected(cs, shifts)[k];
                &&& c.kind() == cs[k].kind()
                &&& axes_of(c) == axes_of(cs[k])
                &&& cs[k] is Moving ==> c is Moving && c->cmd == cs[k]->cmd && c.end_point().z
                    == cs[k].end_point().z
                &&& !(cs[k] is Moving) ==> c == cs[k]
            },
{
    let all = passes(cs);
    lemma_passes_before(cs, cs.len() as int);
    lemma_corrected_at(cs, shifts, all.len() as int);
    assert forall|k: int| 0 <= k < cs.len() implies {
        let c = #[trigger] corrected(cs, shifts)[k];
        &&& c.kind() == cs[k].kind()
        &&& axes_of(c) == axes_of(cs[k])
        &&& cs[k] is Moving ==> c is Moving && c->cmd == cs[k]->cmd && c.end_point().z
            == cs[k].end_point().z
        &&& !(cs[k] is Moving) ==> c == cs[k]
    } by {
        if exists|p: int| 0 <= p < all.len() && (#[trigger] all[p]).0 == k {
            let p = choose|p: int| 0 <= p < all.len() && (#[trigger] all[p]).0 == k;
            assert(pass_at(cs, all[p].0));
        } else if exists|p: int| 0 <= p < all.len() && (#[trigger] all[p]).1 == k {
            let p = choose|p: int| 0 <= p < all.len() && (#[trigger] all[p]).1 == k;
            assert(pass_at(cs, all[p].0));
        }
    }
}

/// Passes that run with the reference direction, or have no length along it, stay as they are;
/// so does every command that is not one of the two of a pass.
pub proof fn law_forward_untouched(cs: Seq<CommandModel>, shifts: Seq<PassShift>)
    requires
        shifts.len() == passes(cs).len(),
    ensures
        forall|p: int|
            0 <= p < passes(cs).len() && !shifts[p].along_ref.below_zero() ==> {
                let (i, j) = #[trigger] passes(cs)[p];
                corrected(cs, shifts)[i] == cs[i] && corrected(cs, shifts)[j] == cs[j]
            },
        forall|k: int|
            0 <= k < cs.len() && (forall|p: int|
                0 <= p < passes(cs).len() ==> (#[trigger] passes(cs)[p]).0 != k && passes(cs)[p].1
                    != k) ==> #[trigger] corrected(cs, shifts)[k] == cs[k],
{
    lemma_corrected_at(cs, shifts, passes(cs).len() as int);
}

/// A pass that runs against the reference direction gets the shifted ends, and nothing else of
/// it changes but that it carries no machine state.
pub proof fn law_opposite_shifted(cs: Seq<CommandModel>, shifts: Seq<PassShift>, p: int)
    requires
        shifts.len() == passes(cs).len(),
        0 <= p < passes(cs).len(),
        shifts[p].along_ref.below_zero(),
    ensures
        ({
            let (i, j) = passes(cs)[p];
            &&& corrected(cs, shifts)[i] == relocated(cs[i], shifts[p].move_x, shifts[p].move_y)
            &&& corrected(cs, shifts)[j] == relocated(cs[j], shifts[p].scan_x, shifts[p].scan_y)
        }),
{
    lemma_corrected_at(cs, shifts, passes(cs).len() as int);
}

/// The correction changes no pass into something else and makes no new one: the passes of the
/// result are at the same indices.
pub proof fn law_passes_kept(cs: Seq<CommandModel>, shifts: Seq<PassShift>)
    requires
        shifts.len() == passes(cs).len(),
    ensures
        passes(corrected(cs, shifts)) == passes(cs),
{
    law_shape_kept(cs, shifts);
    lemma_same_passes(cs, corrected(cs, shifts), cs.len() as int);
}

/// Of two corrections that find the same passes to run against the reference direction, the
/// second alone decides.
pub proof fn law_last_correction_decides(
    cs: Seq<CommandModel>,
    a: Seq<PassShift>,
    b: Seq<PassShift>,
)
    requires
        a.len() == passes(cs).len(),
        b.len() == passes(cs).len(),
        forall|p: int|
            0 <= p < passes(cs).len() ==> (#[trigger] a[p]).along_ref.below_zero()
                == b[p].along_ref.below_zero(),
    ensures
        corrected(corrected(cs, a), b) == corrected(cs, b),
{
    let all = passes(cs);
    let n = all.len() as int;
    let once = corrected(cs, a);
    law_passes_kept(cs, a);
    lemma_passes_before(cs, cs.len() as int);
    lemma_corrected_at(cs, a, n);
    lemma_corrected_at(cs, b, n);
    lemma_corrected_at(once, b, n);
    assert forall|k: int| 0 <= k < cs.len() implies #[trigger] corrected(once, b)[k] == corrected(
        cs,
        b,
    )[k] by {
        if exists|p: int| 0 <= p < n && ((#[trigger] all[p]).0 == k || all[p].1 == k) {
            let p = choose|p: int| 0 <= p < n && ((#[trigger] all[p]).0 == k || all[p].1 == k);
            assert(a[p].along_ref.below_zero() == b[p].along_ref.below_zero());
            assert(pass_at(cs, all[p].0));
        } else {
            assert forall|p: int| 0 <= p < n implies (#[trigger] all[p]).0 != k && all[p].1
                != k by {}
            assert(once[k] == cs[k]);
        }
    }
    assert(corrected(once, b) =~= corrected(cs, b));
}

/// Correcting a sequence twice corrects its commands twice.
pub proof fn law_corrected_twice(m: OpsModel, a: Seq<PassShift>, b: Seq<PassShift>)
    ensures
        ({
            let once = m.cleared().extended(corrected(m.commands, a));
            let twice = once.cleared().extended(corrected(once.commands, b));
            &&& once.commands == corrected(m.commands, a)
            &&& twice.commands == corrected(corrected(m.commands, a), b)
        }),
{
    let once = m.cleared().extended(corrected(m.commands, a));
    assert(once.commands =~= corrected(m.commands, a));
    let twice = once.cleared().extended(corrected(once.commands, b));
    assert(twice.commands =~= corrected(once.commands, b));
}

/// Whether shifts name, for each pass that runs against the reference direction, the plane
/// coordinates that its ends have.
pub open spec fn names_own_ends(cs: Seq<CommandModel>, shifts: Seq<PassShift>) -> bool {
    forall|p: int|
        0 <= p < passes(cs).len() && shifts[p].along_ref.below_zero() ==> {
            let (i, j) = #[trigger] passes(cs)[p];
            &&& shifts[p].move_x == cs[i].end_point().x
            &&& shifts[p].move_y == cs[i].end_point().y
            &&& shifts[p].scan_x == cs[j].end_point().x
            &&& shifts[p].scan_y == cs[j].end_point().y
        }
}

/// A moving command that carries no machine state, and is the same otherwise.
pub open spec fn stateless(c: CommandModel) -> CommandModel {
    moving(c->cmd, c.end_point(), axes_of(c))
}

/// A second correction undoes the first, if it finds the same passes to run against the
/// reference direction and shifts them back to where they were, as the opposite offset does but
/// for rounding. Every command is then as before the first, but that the two commands of each
/// such pass carry no machine state.
pub proof fn law_correction_undone(cs: Seq<CommandModel>, a: Seq<PassShift>, b: Seq<PassShift>)
    requires
        a.len() == passes(cs).len(),
        b.len() == passes(cs).len(),
        forall|p: int|
            0 <= p < passes(cs).len() ==> (#[trigger] a[p]).along_ref.below_zero()
                == b[p].along_ref.below_zero(),
        names_own_ends(cs, b),
    ensures
        ({
            let back = corrected(corrected(cs, a), b);
            &&& back.len() == cs.len()
            &&& forall|p: int|
                0 <= p < passes(cs).len() && b[p].along_ref.below_zero() ==> {
                    let (i, j) = #[trigger] passes(cs)[p];
                    back[i] == stateless(cs[i]) && back[j] == stateless(cs[j])
                }
            &&& forall|k: int|
                0 <= k < cs.len() && (forall|p: int|
                    0 <= p < passes(cs).len() && b[p].along_ref.below_zero() ==> (
                    #[trigger] passes(cs)[p]).0 != k && passes(cs)[p].1 != k)
                    ==> #[trigger] back[k] == cs[k]
            &&& forall|k: int|
                0 <= k < cs.len() && (cs[k] is Moving ==> cs[k]->state is None)
                    ==> #[trigger] back[k] == cs[k]
        }),
{
    let all = passes(cs);
    let n = all.len() as int;
    let back = corrected(corrected(cs, a), b);
    law_last_correction_decides(cs, a, b);
    lemma_passes_before(cs, cs.len() as int);
    lemma_corrected_at(cs, b, n);
    assert forall|p: int| 0 <= p < n && b[p].along_ref.below_zero() implies {
        let (i, j) = #[trigger] all[p];
        back[i] == stateless(cs[i]) && back[j] == stateless(cs[j])
    } by {
        assert(pass_at(cs, all[p].0));
    }
    assert forall|k: int|
        0 <= k < cs.len() && (forall|p: int|
            0 <= p < n && b[p].along_ref.below_zero() ==> (#[trigger] all[p]).0 != k && all[p].1
                != k) implies #[trigger] back[k] == cs[k] by {
        if exists|p: int| 0 <= p < n && ((#[trigger] all[p]).0 == k || all[p].1 == k) {
            let p = choose|p: int| 0 <= p < n && ((#[trigger] all[p]).0 == k || all[p].1 == k);
            assert(!b[p].along_ref.below_zero());
        } else {
            assert forall|p: int| 0 <= p < n implies (#[trigger] all[p]).0 != k && all[p].1
                != k by {}
        }
    }
    assert forall|k: int|
        0 <= k < cs.len() && (cs[k] is Moving ==> cs[k]->state is None) implies #[trigger] back[k]
        == cs[k] by {
        if exists|p: int|
            0 <= p < n && b[p].along_ref.below_zero() && ((#[trigger] all[p]).0 == k || all[p].1
                == k) {
            let p = choose|p: int|
                0 <= p < n && b[p].along_ref.below_zero() && ((#[trigger] all[p]).0 == k
                    || all[p].1 == k);
            assert(pass_at(cs, all[p].0));
            assert(stateless(cs[k]) == cs[k]);
        } else {
            assert forall|p: int| 0 <= p < n && b[p].along_ref.below_zero() implies (
            #[trigger] all[p]).0 != k && all[p].1 != k by {}
        }
    }
}

/// Where the kinds of commands agree, so do the passes.
proof fn lemma_same_passes(a: Seq<CommandModel>, b: Seq<CommandModel>, n: int)
    requires
        a.len() == b.len(),
        0 <= n <= a.len(),
        forall|k: int| 0 <= k < a.len() ==> (#[trigger] b[k]).kind() == a[k].kind(),
    ensures
        passes_before(a, n) == passes_before(b, n),
    decreases n,
{
    if n > 0 {
        lemma_same_passes(a, b, n - 1);
        lemma_same_skip(a, b, n);
        lemma_skip_state(a, n);
        assert(b[n - 1].kind() == a[n - 1].kind());
        if skip_state(a, n) < a.len() {
            assert(b[skip_state(a, n)].kind() == a[skip_state(a, n)].kind());
        }
    }
}

proof fn lemma_same_skip(a: Seq<CommandModel>, b: Seq<CommandModel>, j: int)
    requires
        a.len() == b.len(),
        0 <= j <= a.len(),
        forall|k: int| 0 <= k < a.len() ==> (#[trigger] b[k]).kind() == a[k].kind(),
    ensures
        skip_state(a, j) == skip_state(b, j),
    decreases a.len() - j,
{
    if j < a.len() {
        assert(b[j].kind() == a[j].kind());
        assert(a[j] is State == (a[j].kind().class() == CommandCategory::State));
        assert(b[j] is State == (b[j].kind().class() == CommandCategory::State));
        if a[j] is State {
            lemma_same_skip(a, b, j + 1);
        }
    }
}

/// A search that skips state commands reaches the first other command.
proof fn lemma_skip_reaches(cs: Seq<CommandModel>, from: int, j: int)
    requires
        0 <= from <= j < cs.len(),
        forall|m: int| from <= m < j ==> #[trigger] cs[m] is State,
        !(cs[j] is State),
    ensures
        skip_state(cs, from) == j,
    decreases j - from,
{
    if from < j {
        assert(cs[from] is State);
        lemma_skip_reaches(cs, from + 1, j);
    }
}

/// The passes are exactly the pairs of a travel move and a later scan line with nothing but
/// state commands in between, however many of them.
pub proof fn law_passes_exact(cs: Seq<CommandModel>, i: int, j: int)
    ensures
        passes(cs).contains((i, j)) <==> {
            &&& 0 <= i < j < cs.len()
            &&& cs[i] matches CommandModel::Moving { cmd: MoveModel::MoveTo, .. }
            &&& cs[j] matches CommandModel::Moving { cmd: MoveModel::ScanLine { .. }, .. }
            &&& forall|m: int| i < m < j ==> #[trigger] cs[m] is State
        },
{
    let n = cs.len() as int;
    lemma_passes_before(cs, n);
    if passes(cs).contains((i, j)) {
        let p = choose|p: int| 0 <= p < passes(cs).len() && passes(cs)[p] == (i, j);
        assert(pass_at(cs, passes(cs)[p].0));
        lemma_skip_state(cs, i + 1);
    }
    if is_pass(cs, i, j) {
        lemma_skip_reaches(cs, i + 1, j);
        lemma_pass_listed(cs, i, n);
        assert(passes(cs)[passes_before(cs, i).len() as int] == (i, j));
    }
}

/// The passes are listed as they follow one another, each once and none inside another.
pub proof fn law_passes_in_order(cs: Seq<CommandModel>)
    ensures
        forall|p: int, q: int|
            0 <= p < q < passes(cs).len() ==> (#[trigger] passes(cs)[p]).0 < passes(cs)[p].1
                && passes(cs)[p].1 < (#[trigger] passes(cs)[q]).0,
{
    lemma_passes_before(cs, cs.len() as int);
}

/// What a correction makes of the commands: both commands of a pass that runs against the
/// reference direction get the plane coordinates handed in for them and lose their machine
/// state, and keep kind, power values, height and extra axes; every other command stays.
pub proof fn law_correction_by_command(cs: Seq<CommandModel>, shifts: Seq<PassShift>)
    requires
        shifts.len() == passes(cs).len(),
    ensures
        corrected(cs, shifts).len() == cs.len(),
        forall|p: int|
            0 <= p < passes(cs).len() && shifts[p].along_ref.below_zero() ==> {
                let (i, j) = #[trigger] passes(cs)[p];
                let s = shifts[p];
                &&& corrected(cs, shifts)[i] == (CommandModel::Moving {
                    cmd: cs[i]->cmd,
                    end: Point3D { x: s.move_x, y: s.move_y, z: cs[i]->end.z },
                    extra_axes: cs[i]->extra_axes,
                    state: None,
                })
                &&& corrected(cs, shifts)[j] == (CommandModel::Moving {
                    cmd: cs[j]->cmd,
                    end: Point3D { x: s.scan_x, y: s.scan_y, z: cs[j]->end.z },
                    extra_axes: cs[j]->extra_axes,
                    state: None,
                })
            },
        forall|k: int|
            0 <= k < cs.len() && (forall|p: int|
                0 <= p < passes(cs).len() && shifts[p].along_ref.below_zero() ==> (
                #[trigger] passes(cs)[p]).0 != k && passes(cs)[p].1 != k)
                ==> #[trigger] corrected(cs, shifts)[k] == cs[k],
{
    let all = passes(cs);
    let n = all.len() as int;
    lemma_passes_before(cs, cs.len() as int);
    lemma_corrected_at(cs, shifts, n);
    assert forall|p: int| 0 <= p < n && shifts[p].along_ref.below_zero() implies {
        let (i, j) = #[trigger] all[p];
        cs[i] is Moving && cs[j] is Moving
    } by {
        assert(pass_at(cs, all[p].0));
    }
    assert forall|k: int|
        0 <= k < cs.len() && (forall|p: int|
            0 <= p < n && shifts[p].along_ref.below_zero() ==> (#[trigger] all[p]).0 != k
                && all[p].1 != k) implies #[trigger] corrected(cs, shifts)[k] == cs[k] by {
        if exists|p: int| 0 <= p < n && ((#[trigger] all[p]).0 == k || all[p].1 == k) {
            let p = choose|p: int| 0 <= p < n && ((#[trigger] all[p]).0 == k || all[p].1 == k);
            assert(!shifts[p].along_ref.below_zero());
        } else {
            assert forall|p: int| 0 <= p < n implies (#[trigger] all[p]).0 != k && all[p].1
                != k by {}
        }
    }
}

/// Parameters are equal exactly if both numbers are: neither a NaN, and each of the rank of the
/// other.
pub proof fn law_equal_parameters(a: BidirScanOffsetSpec, b: BidirScanOffsetSpec)
    ensures
        vstd::std_specs::cmp::PartialEqSpec::eq_spec(&a, &b) <==> {
            &&& !a.offset_mm.is_nan() && !b.offset_mm.is_nan()
            &&& !a.scan_angle_deg.is_nan() && !b.scan_angle_deg.is_nan()
            &&& a.offset_mm.rank() == b.offset_mm.rank()
            &&& a.scan_angle_deg.rank() == b.scan_angle_deg.rank()
        },
{
}

} // verus!
