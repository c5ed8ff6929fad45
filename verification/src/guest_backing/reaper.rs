//! Frees deferred backings once their processes have exited.
//!
//! A nonblocking wait on the referenced process object proves that the address
//! space has been torn down. The reaper runs on the PASSIVE_LEVEL control
//! worker and before new allocations; it never waits for a live process and
//! issues no GPU commands.

use crate::guest_backing::effects::{free_backing, then_do, Counter, Effect};
use crate::guest_backing::DeferredBacking;
use crate::status::wait_satisfied;
use vstd::prelude::*;

verus! {

/// Whether a wait for the process may end with `status`.
pub open spec fn may_answer<F: Fn(usize) -> u32>(wait: F, process: usize, status: u32) -> bool {
    call_ensures(wait, (process,), status)
}

/// Whether a wait may find the process gone.
pub open spec fn may_be_gone<F: Fn(usize) -> u32>(wait: F, process: usize) -> bool {
    may_answer(wait, process, crate::status::STATUS_SUCCESS)
}

/// Whether a wait may find the process alive.
pub open spec fn may_be_alive<F: Fn(usize) -> u32>(wait: F, process: usize) -> bool {
    exists|status: u32|
        status != crate::status::STATUS_SUCCESS && #[trigger] may_answer(wait, process, status)
}

/// Whether waits may find the processes of the first `count` backings alive.
pub open spec fn alive_before<F: Fn(usize) -> u32>(
    wait: F,
    pending: Seq<DeferredBacking>,
    count: int,
) -> bool {
    forall|j: int| 0 <= j < count ==> may_be_alive(wait, (#[trigger] pending[j]).process)
}

/// Whether a scan may stop at index `i`: all processes before are found alive,
/// the one at `i` is found gone.
pub open spec fn stops_at<F: Fn(usize) -> u32>(
    wait: F,
    pending: Seq<DeferredBacking>,
    i: int,
) -> bool {
    &&& 0 <= i < pending.len()
    &&& alive_before(wait, pending, i)
    &&& may_be_gone(wait, pending[i].process)
}

/// The queue without the backing at index `i`, whose place the last one takes.
pub open spec fn without(pending: Seq<DeferredBacking>, i: int) -> Seq<DeferredBacking> {
    pending.update(i, pending.last()).drop_last()
}

/// Takes the first backing out of the queue whose process is found gone.
pub fn take_exited<F: Fn(usize) -> u32>(
    pending: &mut Vec<DeferredBacking>,
    wait: &F,
) -> (taken: Option<DeferredBacking>)
    requires
        forall|i: int|
            0 <= i < old(pending)@.len() ==> call_requires(
                *wait,
                ((#[trigger] old(pending)@[i]).process,),
            ),
    ensures
        match taken {
            Some(backing) => exists|i: int|
                {
                    &&& #[trigger] stops_at(*wait, old(pending)@, i)
                    &&& backing == old(pending)@[i]
                    &&& final(pending)@ == without(old(pending)@, i)
                },
            None => {
                &&& alive_before(*wait, old(pending)@, old(pending)@.len() as int)
                &&& final(pending)@ == old(pending)@
            },
        },
{
    let mut i: usize = 0;
    while i < pending.len()
        invariant
            pending@ == old(pending)@,
            i <= pending@.len(),
            alive_before(*wait, pending@, i as int),
            forall|j: int|
                0 <= j < pending@.len() ==> call_requires(
                    *wait,
                    ((#[trigger] pending@[j]).process,),
                ),
        decreases pending@.len() - i,
    {
        let process: usize = pending[i].process;
        let status: u32 = wait(process);
        assert(may_answer(*wait, process, status));
        if wait_satisfied(status) {
            assert(stops_at(*wait, old(pending)@, i as int));
            return Some(pending.swap_remove(i));
        }
        i = i + 1;
    }
    None
}

/// What retires a backing whose process has exited.
pub open spec fn retire_effects(backing: DeferredBacking) -> Seq<Effect> {
    crate::guest_backing::effects::free_effects(backing.allocation, backing.mdl) + seq![
        Effect::DereferenceProcess { process: backing.process },
        Effect::Count(Counter::Reaped),
        Effect::Count(Counter::Freed),
    ]
}

/// Retires a backing whose process has exited.
pub fn retire(backing: DeferredBacking) -> (effects: Vec<Effect>)
    ensures
        effects@ == retire_effects(backing),
{
    then_do(
        free_backing(backing.allocation, backing.mdl),
        vec![
            Effect::DereferenceProcess { process: backing.process },
            Effect::Count(Counter::Reaped),
            Effect::Count(Counter::Freed),
        ],
    )
}

/// What retires several backings, one after the other.
pub open spec fn retire_all_effects(retired: Seq<DeferredBacking>) -> Seq<Effect>
    decreases retired.len(),
{
    if retired.len() == 0 {
        Seq::empty()
    } else {
        retire_all_effects(retired.drop_last()) + retire_effects(retired.last())
    }
}

/// Whether scans may take `retired` out of `before`, in this order, and leave
/// `after`.
pub open spec fn taken_one_by_one<F: Fn(usize) -> u32>(
    wait: F,
    before: Seq<DeferredBacking>,
    retired: Seq<DeferredBacking>,
    after: Seq<DeferredBacking>,
) -> bool
    decreases retired.len(),
{
    if retired.len() == 0 {
        after == before
    } else {
        exists|middle: Seq<DeferredBacking>, i: int|
            {
                &&& taken_one_by_one(wait, before, retired.drop_last(), middle)
                &&& #[trigger] stops_at(wait, middle, i)
                &&& retired.last() == middle[i]
                &&& after == without(middle, i)
            }
    }
}

/// Whether a reaping may retire `retired` and leave `after`: it ends with a scan
/// that finds every process alive.
pub open spec fn reaped<F: Fn(usize) -> u32>(
    wait: F,
    before: Seq<DeferredBacking>,
    retired: Seq<DeferredBacking>,
    after: Seq<DeferredBacking>,
) -> bool {
    &&& taken_one_by_one(wait, before, retired, after)
    &&& alive_before(wait, after, after.len() as int)
}

/// Retires backings until a scan finds no exited process.
pub fn reap_exited_backings<F: Fn(usize) -> u32>(
    pending: &mut Vec<DeferredBacking>,
    wait: &F,
) -> (effects: Vec<Effect>)
    requires
        forall|i: int|
            0 <= i < old(pending)@.len() ==> call_requires(
                *wait,
                ((#[trigger] old(pending)@[i]).process,),
            ),
    ensures
        exists|retired: Seq<DeferredBacking>|
            {
                &&& #[trigger] reaped(*wait, old(pending)@, retired, final(pending)@)
                &&& effects@ == retire_all_effects(retired)
            },
{
    let mut effects: Vec<Effect> = Vec::new();
    let ghost mut retired: Seq<DeferredBacking> = Seq::empty();
    loop
        invariant
            forall|i: int|
                0 <= i < pending@.len() ==> call_requires(
                    *wait,
                    ((#[trigger] pending@[i]).process,),
                ),
            taken_one_by_one(*wait, old(pending)@, retired, pending@),
            effects@ == retire_all_effects(retired),
        decreases pending@.len(),
    {
        let ghost middle = pending@;
        match take_exited(pending, wait) {
            None => {
                assert(reaped(*wait, old(pending)@, retired, pending@));
                return effects;
            },
            Some(backing) => {
                proof {
                    let i = choose|i: int|
                        {
                            &&& #[trigger] stops_at(*wait, middle, i)
                            &&& backing == middle[i]
                            &&& pending@ == without(middle, i)
                        };
                    let more = retired.push(backing);
                    assert(more.drop_last() =~= retired);
                    assert(taken_one_by_one(*wait, old(pending)@, more.drop_last(), middle));
                    assert(stops_at(*wait, middle, i));
                    assert(taken_one_by_one(*wait, old(pending)@, more, pending@));
                    retired = more;
                }
                effects = then_do(effects, retire(backing));
            },
        }
    }
}

} // verus!
