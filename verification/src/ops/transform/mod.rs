//! Transformers: corrections that are applied to a whole sequence, one after the other in the
//! order of their phases.
use crate::error::{fails, ErrorKind, PyError};
use vstd::prelude::*;

pub mod bidir_scan_offset;

verus! {

/// The phase in which a transformer runs. The phases run in this order.
#[derive(Clone, Copy, Debug, PartialEq, Eq, Structural)]
pub enum Phase {
    GeometryRefinement,
    PathInterruption,
    PostProcessing,
}

/// The place of a phase in the order of the phases.
pub open spec fn phase_rank(p: Phase) -> int {
    match p {
        Phase::GeometryRefinement => 0,
        Phase::PathInterruption => 1,
        Phase::PostProcessing => 2,
    }
}

/// The indices, in order, of the first `n` transformers that run in a phase.
pub open spec fn in_phase(phases: Seq<Phase>, phase: Phase, n: int) -> Seq<usize>
    decreases n,
{
    if n <= 0 {
        Seq::empty()
    } else if phases[n - 1] == phase {
        in_phase(phases, phase, n - 1).push((n - 1) as usize)
    } else {
        in_phase(phases, phase, n - 1)
    }
}

/// The order in which transformers run: phase by phase, and within a phase as they are given.
pub open spec fn run_order(phases: Seq<Phase>) -> Seq<usize> {
    let n = phases.len() as int;
    in_phase(phases, Phase::GeometryRefinement, n) + in_phase(phases, Phase::PathInterruption, n)
        + in_phase(phases, Phase::PostProcessing, n)
}

fn push_phase(order: &mut Vec<usize>, phases: &Vec<Phase>, phase: Phase)
    ensures
        final(order)@ == old(order)@ + in_phase(phases@, phase, phases@.len() as int),
{
    let mut i: usize = 0;
    proof {
        assert(order@ =~= old(order)@ + in_phase(phases@, phase, 0));
    }
    while i < phases.len()
        invariant
            i <= phases.len(),
            order@ == old(order)@ + in_phase(phases@, phase, i as int),
        decreases phases.len() - i,
    {
        if phases[i] == phase {
            order.push(i);
            proof {
                assert(order@ =~= old(order)@ + in_phase(phases@, phase, i + 1));
            }
        }
        i += 1;
    }
}

/// The order in which transformers with the given phases run.
pub fn order_by_phase(phases: &Vec<Phase>) -> (r: Vec<usize>)
    ensures
        r@ == run_order(phases@),
{
    let mut order: Vec<usize> = Vec::new();
    push_phase(&mut order, phases, Phase::GeometryRefinement);
    push_phase(&mut order, phases, Phase::PathInterruption);
    push_phase(&mut order, phases, Phase::PostProcessing);
    proof {
        assert(order@ =~= run_order(phases@));
    }
    order
}

/// Which transformer runs next, once `done` of them have run: none when all have. If the caller
/// has cancelled by then, the run ends with a runtime error instead.
pub fn next_transformer(order: &Vec<usize>, done: usize, cancelled: bool) -> (r: Result<
    Option<usize>,
    PyError,
>)
    ensures
        if done >= order@.len() {
            r == Ok::<Option<usize>, PyError>(None)
        } else if cancelled {
            fails(r, ErrorKind::Runtime, "apply_transformers cancelled"@)
        } else {
            r == Ok::<Option<usize>, PyError>(Some(order@[done as int]))
        },
{
    if done >= order.len() {
        Ok(None)
    } else if cancelled {
        Err(PyError::new(ErrorKind::Runtime, "apply_transformers cancelled"))
    } else {
        Ok(Some(order[done]))
    }
}

/// The transformers of one phase are those given for it, each once and as they are given.
proof fn lemma_in_phase(phases: Seq<Phase>, phase: Phase, n: int)
    requires
        0 <= n <= phases.len() <= usize::MAX,
    ensures
        forall|k: int|
            0 <= k < in_phase(phases, phase, n).len() ==> #[trigger] in_phase(
                phases,
                phase,
                n,
            )[k] < n && phases[in_phase(phases, phase, n)[k] as int] == phase,
        forall|j: int, k: int|
            0 <= j < k < in_phase(phases, phase, n).len() ==> #[trigger] in_phase(
                phases,
                phase,
                n,
            )[j] < #[trigger] in_phase(phases, phase, n)[k],
        forall|i: int|
            0 <= i < n && #[trigger] phases[i] == phase ==> in_phase(phases, phase, n).contains(
                i as usize,
            ),
    decreases n,
{
    if n > 0 {
        lemma_in_phase(phases, phase, n - 1);
        let prev = in_phase(phases, phase, n - 1);
        let cur = in_phase(phases, phase, n);
        assert forall|i: int| 0 <= i < n && #[trigger] phases[i] == phase implies cur.contains(
            i as usize,
        ) by {
            if i < n - 1 {
                let k = choose|k: int| 0 <= k < prev.len() && prev[k] == i as usize;
                assert(prev.contains(i as usize));
                assert(cur[k] == i as usize);
            } else {
                assert(cur[prev.len() as int] == i as usize);
            }
        }
    }
}

/// Every transformer runs exactly once; none runs before one of an earlier phase, and those of
/// one phase run as they are given.
pub proof fn law_run_order(phases: Seq<Phase>)
    requires
        phases.len() <= usize::MAX,
    ensures
        forall|k: int|
            0 <= k < run_order(phases).len() ==> #[trigger] run_order(phases)[k] < phases.len(),
        forall|i: usize| i < phases.len() ==> #[trigger] run_order(phases).contains(i),
        forall|j: int, k: int|
            0 <= j < k < run_order(phases).len() ==> {
                let a = #[trigger] run_order(phases)[j];
                let b = #[trigger] run_order(phases)[k];
                ||| phase_rank(phases[a as int]) < phase_rank(phases[b as int])
                ||| phases[a as int] == phases[b as int] && a < b
            },
{
    let n = phases.len() as int;
    let g = in_phase(phases, Phase::GeometryRefinement, n);
    let p = in_phase(phases, Phase::PathInterruption, n);
    let q = in_phase(phases, Phase::PostProcessing, n);
    lemma_in_phase(phases, Phase::GeometryRefinement, n);
    lemma_in_phase(phases, Phase::PathInterruption, n);
    lemma_in_phase(phases, Phase::PostProcessing, n);
    let order = run_order(phases);
    assert(order == g + p + q);
    assert forall|k: int| 0 <= k < order.len() implies {
        &&& #[trigger] order[k] < n
        &&& k < g.len() ==> order[k] == g[k] && phases[order[k] as int]
            == Phase::GeometryRefinement
        &&& g.len() <= k < g.len() + p.len() ==> order[k] == p[k - g.len()]
            && phases[order[k] as int] == Phase::PathInterruption
        &&& g.len() + p.len() <= k ==> order[k] == q[k - g.len() - p.len()]
            && phases[order[k] as int] == Phase::PostProcessing
    } by {
        if k < g.len() {
            assert(order[k] == g[k]);
        } else if k < g.len() + p.len() {
            assert(order[k] == p[k - g.len()]);
        } else {
            assert(order[k] == q[k - g.len() - p.len()]);
        }
    }
    assert forall|i: usize| i < n implies #[trigger] order.contains(i) by {
        match phases[i as int] {
            Phase::GeometryRefinement => {
                let k = choose|k: int| 0 <= k < g.len() && g[k] == i;
                assert(g.contains(i));
                assert(order[k] == i);
            },
            Phase::PathInterruption => {
                let k = choose|k: int| 0 <= k < p.len() && p[k] == i;
                assert(p.contains(i));
                assert(order[g.len() + k] == i);
            },
            Phase::PostProcessing => {
                let k = choose|k: int| 0 <= k < q.len() && q[k] == i;
                assert(q.contains(i));
                assert(order[g.len() + p.len() + k] == i);
            },
        }
    }
}

/// A transformer that refines the geometry has only such ones before it, and one that
/// post-processes only such ones behind it; those that interrupt paths run in between.
pub proof fn law_phases_in_turn(phases: Seq<Phase>, j: int, k: int)
    requires
        phases.len() <= usize::MAX,
        0 <= j < k < run_order(phases).len(),
    ensures
        ({
            let first = phases[run_order(phases)[j] as int];
            let second = phases[run_order(phases)[k] as int];
            &&& second == Phase::GeometryRefinement ==> first == Phase::GeometryRefinement
            &&& first == Phase::PostProcessing ==> second == Phase::PostProcessing
            &&& first == second ==> run_order(phases)[j] < run_order(phases)[k]
        }),
        run_order(phases).no_duplicates(),
{
    law_run_order(phases);
}

} // verus!
