//! The user execution loop's decisions: which tasks one pass over the main
//! list runs, how long to sleep between tasks, and how the
//! coordinated-omission cadence accounting evolves. The surrounding process
//! invokes the task functions and owns the clock.

use vstd::prelude::*;

use crate::metrics::SwanlingCoordinatedOmissionMitigation;
use crate::scheduler::firsts;
use crate::swanling::SwanlingUser;
use crate::swanling::WeightedSwanlingTasks;
use crate::util;

verus! {

/// The on-start invocations of one user: each entry of its allocated
/// on-start list, once, in order — their count is exactly the list's length.
pub fn on_start_invocations(user: &SwanlingUser) -> (r: Vec<usize>)
    ensures
        r@ == firsts(user.weighted_on_start_tasks@),
        r@.len() == user.weighted_on_start_tasks@.len(),
{
    invocation_list(&user.weighted_on_start_tasks)
}

/// The on-stop invocations of one user: each entry of its allocated on-stop
/// list, once, in order — their count is exactly the list's length.
pub fn on_stop_invocations(user: &SwanlingUser) -> (r: Vec<usize>)
    ensures
        r@ == firsts(user.weighted_on_stop_tasks@),
        r@.len() == user.weighted_on_stop_tasks@.len(),
{
    invocation_list(&user.weighted_on_stop_tasks)
}

/// The task indices of one allocated list, in order.
fn invocation_list(list: &WeightedSwanlingTasks) -> (r: Vec<usize>)
    ensures
        r@ == firsts(list@),
        r@.len() == list@.len(),
{
    let mut r: Vec<usize> = Vec::new();
    let mut i: usize = 0;
    while i < list.len()
        invariant
            i <= list@.len(),
            r@ == firsts(list@).take(i as int),
        decreases list@.len() - i,
    {
        r.push(list[i].0);
        i = i + 1;
        proof {
            assert(r@ =~= firsts(list@).take(i as int));
        }
    }
    proof {
        assert(firsts(list@).take(list@.len() as int) =~= firsts(list@));
    }
    r
}

/// The tasks one pass over the main list runs when the task at `blocking`
/// holds the pass until the run times out: every entry up to and including
/// the first blocking one, or the whole list when none blocks.
pub fn simulate_pass(list: &WeightedSwanlingTasks, blocking: Option<usize>) -> (r: Vec<usize>)
    ensures
        r@ == spec_pass(firsts(list@), blocking),
{
    let mut r: Vec<usize> = Vec::new();
    let mut i: usize = 0;
    while i < list.len()
        invariant
            i <= list@.len(),
            r@ == firsts(list@).take(i as int),
            blocking matches Some(b) ==> forall|j: int|
                0 <= j < i ==> #[trigger] firsts(list@)[j] != b,
        decreases list@.len() - i,
    {
        let idx = list[i].0;
        r.push(idx);
        i = i + 1;
        proof {
            assert(r@ =~= firsts(list@).take(i as int));
        }
        match blocking {
            Some(b) => {
                if idx == b {
                    proof {
                        lemma_spec_pass_found(firsts(list@), b, i - 1);
                    }
                    return r;
                }
            },
            None => {},
        }
    }
    proof {
        assert(firsts(list@).take(list@.len() as int) =~= firsts(list@));
        match blocking {
            Some(b) => {
                assert(!firsts(list@).contains(b)) by {
                    if firsts(list@).contains(b) {
                        let j = choose|j: int|
                            0 <= j < firsts(list@).len() && firsts(list@)[j] == b;
                    }
                }
            },
            None => {},
        }
    }
    r
}

/// What one pass runs: the whole list, or its prefix up to and including the
/// first entry the blocking task index appears at.
pub open spec fn spec_pass(list: Seq<usize>, blocking: Option<usize>) -> Seq<usize> {
    match blocking {
        None => list,
        Some(b) => if list.contains(b) {
            let j = choose|j: int| 0 <= j < list.len() && list[j] == b && (forall|k: int|
                0 <= k < j ==> list[k] != b);
            list.take(j + 1)
        } else {
            list
        },
    }
}

/// The first position a value appears at witnesses the chosen one.
proof fn lemma_spec_pass_found(list: Seq<usize>, b: usize, i: int)
    requires
        0 <= i < list.len(),
        list[i] == b,
        forall|k: int| 0 <= k < i ==> list[k] != b,
    ensures
        spec_pass(list, Some(b)) == list.take(i + 1),
{
    assert(list.contains(b));
    let j = choose|j: int| 0 <= j < list.len() && list[j] == b && (forall|k: int|
        0 <= k < j ==> list[k] != b);
    assert(j == i) by {
        if j < i {
            assert(list[j] != b);
        } else if j > i {
            assert(list[i] != b);
        }
    }
}

/// The milliseconds a user sleeps after one task: nothing when no maximum is
/// configured, a uniformly random value in the configured window, both ends
/// included, otherwise. With both bounds zero there is no sleep between
/// tasks.
pub fn wait_time_ms(min_wait: usize, max_wait: usize) -> (r: usize)
    ensures
        max_wait == 0 ==> r == 0,
        0 < max_wait && min_wait <= max_wait ==> min_wait <= r <= max_wait,
        0 < max_wait < min_wait ==> r == max_wait,
{
    if max_wait == 0 {
        0
    } else if min_wait < max_wait {
        if max_wait < usize::MAX {
            util::random_in_range(min_wait, max_wait + 1)
        } else {
            util::random_in_range(min_wait, max_wait)
        }
    } else {
        max_wait
    }
}

/// Updates a user's coordinated-omission cadence accounting at the top of a
/// full pass over the main list: the first observed pass seeds the expected
/// cadence; later passes update it by the configured strategy; and a pass
/// that took more than twice the expected cadence arms the omitted-period
/// marker carried by the next emitted request metric.
pub fn update_request_cadence(user: &mut SwanlingUser, observed_pass_ms: u64, strategy: SwanlingCoordinatedOmissionMitigation)
    requires
        old(user).passes < u64::MAX,
        old(user).total_pass_ms + observed_pass_ms <= u64::MAX,
    ensures
        final(user).passes == old(user).passes + 1,
        final(user).total_pass_ms == old(user).total_pass_ms + observed_pass_ms,
        strategy is Disabled ==> final(user).request_cadence_ms == 0 && !(final(user).omitted_period_armed),
        strategy !is Disabled ==> final(user).request_cadence_ms == (if old(user).passes == 0 {
            observed_pass_ms
        } else {
            match strategy {
                SwanlingCoordinatedOmissionMitigation::Average => (
                (old(user).total_pass_ms + observed_pass_ms) as u64 / (old(user).passes + 1) as u64),
                SwanlingCoordinatedOmissionMitigation::Minimum => if observed_pass_ms < old(user).request_cadence_ms {
                    observed_pass_ms
                } else {
                    old(user).request_cadence_ms
                },
                SwanlingCoordinatedOmissionMitigation::Maximum => if observed_pass_ms > old(user).request_cadence_ms {
                    observed_pass_ms
                } else {
                    old(user).request_cadence_ms
                },
                SwanlingCoordinatedOmissionMitigation::Disabled => 0,
            }
        }),
        strategy !is Disabled ==> final(user).omitted_period_armed == (old(user).passes > 0
            && old(user).request_cadence_ms > 0 && observed_pass_ms > 2 * old(user).request_cadence_ms),
        final(user).weighted_tasks == old(user).weighted_tasks,
        final(user).task_sets_index == old(user).task_sets_index,
        final(user).cumulative_sleep_ms == old(user).cumulative_sleep_ms,
{
    let first = user.passes == 0;
    let previous_cadence = user.request_cadence_ms;
    user.total_pass_ms = user.total_pass_ms + observed_pass_ms;
    user.passes = user.passes + 1;
    match strategy {
        SwanlingCoordinatedOmissionMitigation::Disabled => {
            user.request_cadence_ms = 0;
            user.omitted_period_armed = false;
        },
        _ => {
            if first {
                user.request_cadence_ms = observed_pass_ms;
                user.omitted_period_armed = false;
            } else {
                user.request_cadence_ms = match strategy {
                    SwanlingCoordinatedOmissionMitigation::Average => user.total_pass_ms
                        / user.passes,
                    SwanlingCoordinatedOmissionMitigation::Minimum => if observed_pass_ms
                        < previous_cadence {
                        observed_pass_ms
                    } else {
                        previous_cadence
                    },
                    SwanlingCoordinatedOmissionMitigation::Maximum => if observed_pass_ms
                        > previous_cadence {
                        observed_pass_ms
                    } else {
                        previous_cadence
                    },
                    SwanlingCoordinatedOmissionMitigation::Disabled => 0,
                };
                user.omitted_period_armed = previous_cadence > 0 && (observed_pass_ms as u128
                    > 2 * previous_cadence as u128);
            }
        },
    }
}

} // verus!
