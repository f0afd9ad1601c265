//! Looking up commands by execution time, and times by command.
use crate::binary64::Binary64;
use vstd::prelude::*;

verus! {

/// The largest index among the first `n` whose time is at most `t`; zero if there is none.
pub open spec fn index_at(times: Seq<Binary64>, t: Binary64, n: int) -> int
    decreases n,
{
    if n <= 0 {
        0
    } else if times[n - 1].at_most(t) {
        n - 1
    } else {
        index_at(times, t, n - 1)
    }
}

/// The command that is in effect at a time, given the time at which each command ends: the last
/// one that has ended by then, or the first if none has. Without commands it is zero.
pub fn find_index_at_time(times: &Vec<Binary64>, t: Binary64) -> (r: usize)
    ensures
        r == index_at(times@, t, times@.len() as int),
{
    let mut n: usize = times.len();
    while n > 0 && !times[n - 1].is_at_most(t)
        invariant
            n <= times@.len(),
            index_at(times@, t, times@.len() as int) == index_at(times@, t, n as int),
        decreases n,
    {
        n -= 1;
    }
    if n > 0 {
        n - 1
    } else {
        0
    }
}

/// The time at which a command ends, given those of all commands. An index past the last command
/// means the last; without commands the time is zero.
pub fn get_cumulative_time_at(times: &Vec<Binary64>, idx: usize) -> (r: Binary64)
    ensures
        r == if times@.len() == 0 {
            Binary64 { bits: 0 }
        } else if idx < times@.len() {
            times@[idx as int]
        } else {
            times@.last()
        },
{
    if times.len() == 0 {
        Binary64::zero()
    } else if idx < times.len() {
        times[idx]
    } else {
        times[times.len() - 1]
    }
}

/// The command in effect at a time is there, has ended by then unless none has, and no later
/// one has.
pub proof fn law_index_at(times: Seq<Binary64>, t: Binary64, n: int)
    requires
        0 <= n <= times.len(),
    ensures
        n > 0 ==> 0 <= index_at(times, t, n) < n,
        n == 0 ==> index_at(times, t, n) == 0,
        forall|k: int|
            index_at(times, t, n) < k < n ==> !(#[trigger] times[k]).at_most(t),
        (exists|k: int| 0 <= k < n && (#[trigger] times[k]).at_most(t)) ==> times[index_at(
            times,
            t,
            n,
        )].at_most(t),
    decreases n,
{
    if n > 0 && !times[n - 1].at_most(t) {
        law_index_at(times, t, n - 1);
    }
}

/// A later time never gives an earlier command.
pub proof fn law_later_time_later_command(
    times: Seq<Binary64>,
    t: Binary64,
    u: Binary64,
    n: int,
)
    requires
        0 <= n <= times.len(),
        t.at_most(u),
    ensures
        index_at(times, t, n) <= index_at(times, u, n),
    decreases n,
{
    law_index_at(times, t, n);
    law_index_at(times, u, n);
    if n > 0 {
        law_later_time_later_command(times, t, u, n - 1);
        law_index_at(times, t, n - 1);
    }
}

/// At the time at which a command ends, that command or a later one is in effect.
pub proof fn law_command_at_its_own_time(times: Seq<Binary64>, k: int, n: int)
    requires
        0 <= k < n <= times.len(),
        !times[k].is_nan(),
    ensures
        index_at(times, times[k], n) >= k,
    decreases n,
{
    if k < n - 1 {
        law_command_at_its_own_time(times, k, n - 1);
    }
}

} // verus!
