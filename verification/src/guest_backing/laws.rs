//! What holds of backings over their whole life.

use vstd::multiset::Multiset;
use vstd::prelude::*;

verus! {

use crate::guest_backing::allocation::{AllocEvent, Allocation, ContiguousBlock, PageList};
use crate::guest_backing::effects::{Counter, Effect, Note};
use crate::guest_backing::{BackingModel, DeferredBacking, GuestBacking, MapOutcome, MemEntry};
use crate::guest_backing_layout::CHUNK_SIZE;
use crate::status::BackingError;

/// Something that must be given back.
pub enum Resource {
    /// A contiguous block, by address.
    Block(usize),
    /// An MDL that was allocated on its own.
    Mdl(usize),
    /// The pages of an MDL that was allocated with them.
    Pages(usize),
    /// The MDL of those pages.
    PagesMdl(usize),
    /// A reference on a process object.
    Process(usize),
}

/// What an effect gives back.
pub open spec fn given_back_by(effect: Effect) -> Multiset<Resource> {
    match effect {
        Effect::FreeContiguous { address } => Multiset::singleton(Resource::Block(address)),
        Effect::FreeMdl { mdl } => Multiset::singleton(Resource::Mdl(mdl)),
        Effect::FreePages { mdl } => Multiset::singleton(Resource::Pages(mdl)),
        Effect::FreePool { mdl } => Multiset::singleton(Resource::PagesMdl(mdl)),
        Effect::DereferenceProcess { process } => Multiset::singleton(Resource::Process(process)),
        _ => Multiset::empty(),
    }
}

/// What a list of effects gives back.
pub open spec fn given_back(effects: Seq<Effect>) -> Multiset<Resource>
    decreases effects.len(),
{
    if effects.len() == 0 {
        Multiset::empty()
    } else {
        given_back(effects.drop_last()).add(given_back_by(effects.last()))
    }
}

/// The memory and the MDL of a backing.
pub open spec fn memory(allocation: Option<usize>, mdl: usize) -> Multiset<Resource> {
    match allocation {
        Some(address) => Multiset::singleton(Resource::Block(address)).add(
            Multiset::singleton(Resource::Mdl(mdl)),
        ),
        None => Multiset::singleton(Resource::Pages(mdl)).add(
            Multiset::singleton(Resource::PagesMdl(mdl)),
        ),
    }
}

/// What a backing holds: its memory, and a reference on the process that it is
/// mapped into.
pub open spec fn held(backing: BackingModel) -> Multiset<Resource> {
    match backing.mapping {
        None => memory(backing.allocation, backing.mdl),
        Some((_, process)) => memory(backing.allocation, backing.mdl).insert(
            Resource::Process(process),
        ),
    }
}

/// What a deferred backing holds.
pub open spec fn held_deferred(backing: DeferredBacking) -> Multiset<Resource> {
    memory(backing.allocation, backing.mdl).insert(Resource::Process(backing.process))
}

/// What a queue of deferred backings holds.
pub open spec fn held_pending(pending: Seq<DeferredBacking>) -> Multiset<Resource>
    decreases pending.len(),
{
    if pending.len() == 0 {
        Multiset::empty()
    } else {
        held_pending(pending.drop_last()).add(held_deferred(pending.last()))
    }
}

/// What an allocation under way holds.
pub open spec fn held_allocating(state: Allocation) -> Multiset<Resource> {
    match state {
        Allocation::Describe { block, .. } => Multiset::singleton(Resource::Block(block.address)),
        Allocation::Ready(backing) => held(backing@),
        _ => Multiset::empty(),
    }
}

/// What the kernel hands out with an answer.
pub open spec fn handed_out(event: AllocEvent) -> Multiset<Resource> {
    match event {
        AllocEvent::Block(Some(block)) => Multiset::singleton(Resource::Block(block.address)),
        AllocEvent::Mdl(Some(mdl)) => Multiset::singleton(Resource::Mdl(mdl)),
        AllocEvent::Pages(Some(list)) => memory(None, list.mdl),
        _ => Multiset::empty(),
    }
}

proof fn lemma_given_back_push(effects: Seq<Effect>, effect: Effect)
    ensures
        given_back(effects.push(effect)) == given_back(effects).add(given_back_by(effect)),
{
    assert(effects.push(effect).drop_last() =~= effects);
}

/// Short lists give back what their effects give back.
proof fn lemma_given_back_list(a: Effect, b: Effect, c: Effect)
    ensures
        given_back(seq![a]) == given_back_by(a),
        given_back(seq![a, b]) == given_back_by(a).add(given_back_by(b)),
        given_back(seq![a, b, c]) == given_back_by(a).add(given_back_by(b)).add(given_back_by(c)),
{
    let none = Seq::<Effect>::empty();
    lemma_given_back_push(none, a);
    lemma_given_back_push(seq![a], b);
    lemma_given_back_push(seq![a, b], c);
    assert(none.push(a) =~= seq![a]);
    assert(seq![a].push(b) =~= seq![a, b]);
    assert(seq![a, b].push(c) =~= seq![a, b, c]);
    assert(given_back(none).add(given_back_by(a)) =~= given_back_by(a));
}

proof fn lemma_given_back_concat(first: Seq<Effect>, second: Seq<Effect>)
    ensures
        given_back(first + second) == given_back(first).add(given_back(second)),
    decreases second.len(),
{
    if second.len() == 0 {
        assert(first + second =~= first);
        assert(given_back(first).add(given_back(second)) =~= given_back(first));
    } else {
        lemma_given_back_concat(first, second.drop_last());
        assert((first + second).drop_last() =~= first + second.drop_last());
        assert(given_back(first + second) =~= given_back(first).add(given_back(second)));
    }
}

/// Freeing a backing gives back its memory, no more and no less.
proof fn lemma_free_gives_memory_back(allocation: Option<usize>, mdl: usize)
    ensures
        given_back(crate::guest_backing::effects::free_effects(allocation, mdl)) == memory(
            allocation,
            mdl,
        ),
{
    let done = Effect::Count(Counter::Freed);
    match allocation {
        Some(address) => {
            lemma_given_back_list(Effect::FreeContiguous { address }, Effect::FreeMdl { mdl }, done);
        },
        None => {
            lemma_given_back_list(Effect::FreePages { mdl }, Effect::FreePool { mdl }, done);
        },
    }
}

/// Records and totals give nothing back.
proof fn lemma_notes_give_nothing_back(effects: Seq<Effect>)
    requires
        forall|i: int|
            0 <= i < effects.len() ==> given_back_by(#[trigger] effects[i])
                == Multiset::<Resource>::empty(),
    ensures
        given_back(effects) == Multiset::<Resource>::empty(),
    decreases effects.len(),
{
    if effects.len() > 0 {
        lemma_notes_give_nothing_back(effects.drop_last());
        assert(given_back(effects) =~= Multiset::empty());
    }
}

proof fn lemma_abandon_gives_memory_back(allocation: Option<usize>, mdl: usize)
    ensures
        given_back(crate::guest_backing::allocation::abandon_effects(allocation, mdl)) == memory(
            allocation,
            mdl,
        ),
{
    let free = crate::guest_backing::effects::free_effects(allocation, mdl);
    lemma_free_gives_memory_back(allocation, mdl);
    lemma_given_back_push(free, Effect::Count(Counter::Freed));
    assert(given_back(free).add(Multiset::empty()) =~= given_back(free));
}

/// No step of an allocation loses anything: what was held or handed out is
/// afterwards either held or given back. In particular a failed allocation
/// leaves nothing behind, and a finished one has given nothing back.
pub proof fn law_allocation_loses_nothing(
    state: Allocation,
    event: AllocEvent,
    pid: usize,
    reserved: bool,
    effects: Seq<Effect>,
    next: Allocation,
)
    requires
        state.awaits(event),
        state.follows(event, pid, reserved, effects, next),
    ensures
        held_allocating(next).add(given_back(effects)) == held_allocating(state).add(
            handed_out(event),
        ),
{
    match (state, event) {
        (Allocation::Describe { block, .. }, AllocEvent::Mdl(None)) => {
            let tail = effects.subrange(1, effects.len() as int);
            let free = Effect::FreeContiguous { address: block.address };
            lemma_notes_give_nothing_back(tail);
            lemma_given_back_list(free, free, free);
            lemma_given_back_concat(seq![free], tail);
            assert(effects =~= seq![free] + tail);
        },
        (Allocation::Describe { block, .. }, AllocEvent::Mdl(Some(mdl))) => {
            if reserved {
                lemma_notes_give_nothing_back(effects);
            } else {
                let built = seq![Effect::BuildMdl { mdl }];
                lemma_notes_give_nothing_back(built);
                lemma_abandon_gives_memory_back(Some(block.address), mdl);
                lemma_given_back_concat(
                    built,
                    crate::guest_backing::allocation::abandon_effects(Some(block.address), mdl),
                );
            }
        },
        (Allocation::Chunked { size }, AllocEvent::Pages(Some(list))) => {
            if !list.described(size) || !reserved || !list.segmented(size) {
                lemma_abandon_gives_memory_back(None, list.mdl);
            } else {
                lemma_notes_give_nothing_back(effects);
            }
        },
        _ => {
            lemma_notes_give_nothing_back(effects);
        },
    }
    assert(held_allocating(next).add(given_back(effects)) =~= held_allocating(state).add(
        handed_out(event),
    ));
}

/// How many answers an allocation can still wait for.
pub open spec fn answers_left(state: Allocation) -> nat {
    match state {
        Allocation::Contiguous { .. } => 2,
        Allocation::Describe { .. } => 1,
        Allocation::Chunked { .. } => 1,
        _ => 0,
    }
}

/// Every allocation ends: each answer brings it closer to success or failure.
pub proof fn law_allocation_ends(
    state: Allocation,
    event: AllocEvent,
    pid: usize,
    reserved: bool,
    effects: Seq<Effect>,
    next: Allocation,
)
    requires
        state.awaits(event),
        state.follows(event, pid, reserved, effects, next),
    ensures
        answers_left(next) < answers_left(state),
{
}

/// The aligned part of a contiguous block lies inside the requested bytes, as
/// far from the start in physical as in virtual memory.
pub proof fn law_aligned_part_lies_in_the_block(size: u64, block: ContiguousBlock, mdl: usize)
    requires
        crate::guest_backing::size_ok(size as int),
        (Allocation::Contiguous { size }).awaits(AllocEvent::Block(Some(block))),
    ensures
        ({
            let backing = crate::guest_backing::allocation::contiguous_model(size, block, mdl);
            let offset = crate::guest_backing::allocation::alignment_gap(block.physical as int);
            let requested = size + crate::guest_backing::allocation::ALIGN;
            &&& backing.physical == block.physical + offset
            &&& 0 <= offset
            &&& offset + backing.size <= requested
            &&& block.address + offset + size <= block.address + requested <= usize::MAX
        }),
{
}

/// The segments advertised for pages are those pages: page `k` lies in segment
/// `k / per`, `k % per` pages from its start, and ends inside it.
pub proof fn law_segments_are_the_pages(size: u64, list: PageList, k: int)
    requires
        crate::guest_backing::size_ok(size as int),
        list.segmented(size),
        0 <= k < list.pages@.len(),
    ensures
        ({
            let per = CHUNK_SIZE as int / list.page_size as int;
            let entries = crate::guest_backing::allocation::chunked_model(size, list).entries;
            let entry = entries[k / per];
            &&& 0 <= k / per < entries.len()
            &&& list.pages@[k] * list.page_size == entry.addr + (k % per) * list.page_size
            &&& (k % per) * list.page_size + list.page_size <= entry.length
        }),
{
    let page_size = list.page_size as int;
    let pages = list.pages@;
    let per = CHUNK_SIZE as int / page_size;
    let count = size as int / CHUNK_SIZE as int;
    let entries = crate::guest_backing::allocation::chunked_model(size, list).entries;
    crate::guest_backing_layout::lemma_page_count(pages.len() as int, size as int, page_size);
    let c = k / per;
    let j = k % per;
    vstd::arithmetic::div_mod::lemma_fundamental_div_mod(k, per);
    assert(0 <= c < count) by (nonlinear_arith)
        requires
            c == k / per,
            0 <= k < count * per,
            per > 0,
    ;
    assert(c * per + j == k) by (nonlinear_arith)
        requires
            k == per * c + j,
    ;
    assert(0 <= j < per);
    assert(crate::guest_backing_layout::chunk_ok(pages, c * per, per, page_size));
    assert(pages[c * per + j] == pages[c * per] + j);
    assert((pages[c * per] + j) * page_size == pages[c * per] * page_size + j * page_size)
        by (nonlinear_arith);
    assert(j * page_size + page_size <= per * page_size) by (nonlinear_arith)
        requires
            0 <= j < per,
            page_size > 0,
    ;
}

/// A mapping changes nothing about what the device is told of a backing.
pub proof fn law_mapping_keeps_the_layout(backing: BackingModel, mapping: Option<(usize, usize)>)
    ensures
        backing.with_mapping(mapping).wf() == backing.wf(),
        backing.with_mapping(mapping).entries == backing.entries,
{
}

/// A backing is mapped at most once at a time: while it is mapped every further
/// attempt is refused, whatever the memory manager did, and changes nothing.
pub proof fn law_mapped_at_most_once(backing: BackingModel, outcome: MapOutcome, process: usize)
    requires
        backing.mapping is Some,
    ensures
        backing.map_result(outcome, process) == Err::<(usize, Effect), BackingError>(
            BackingError::AlreadyCommitted,
        ),
        backing.after_map(outcome, process) == backing,
{
}

/// Unmapping undoes mapping, for the process that mapped and for no other.
pub proof fn law_unmap_undoes_map(
    backing: BackingModel,
    address: usize,
    process: usize,
    other_address: usize,
    other_process: usize,
)
    requires
        backing.mapping is None,
    ensures
        ({
            let mapped = backing.after_map(MapOutcome::Mapped(address), process);
            &&& mapped.mapped_by(address, process)
            &&& mapped.with_mapping(None) == backing
            &&& mapped.mapped_by(other_address, other_process) ==> other_address == address
                && other_process == process
        }),
{
}

/// Mapping takes one reference on the process, unmapping gives it back.
pub proof fn law_mapping_owns_one_reference(
    backing: BackingModel,
    address: usize,
    process: usize,
)
    requires
        backing.mapping is None,
    ensures
        backing.map_result(MapOutcome::Mapped(address), process) == Ok::<
            (usize, Effect),
            BackingError,
        >((address, Effect::ReferenceProcess { process })),
        ({
            let mapped = backing.after_map(MapOutcome::Mapped(address), process);
            &&& held(mapped) == held(backing).insert(Resource::Process(process))
            &&& held(backing).add(given_back(mapped.unmap_effects(address, process))) == held(
                mapped,
            )
        }),
{
    let mapped = backing.after_map(MapOutcome::Mapped(address), process);
    let unmap = Effect::UnmapPages { mdl: backing.mdl, address };
    let let_go = Effect::DereferenceProcess { process };
    lemma_given_back_list(unmap, let_go, let_go);
    assert(held(backing).add(given_back(mapped.unmap_effects(address, process))) =~= held(mapped));
}

/// RAM is never freed with a live mapping: a release that cannot remove the
/// mapping gives nothing back, and one that can removes it first.
pub proof fn law_no_free_under_a_live_mapping(
    backing: BackingModel,
    address: usize,
    mapped_by: usize,
    process: usize,
    irql: u8,
    queued: bool,
)
    requires
        backing.mapping == Some((address, mapped_by)),
    ensures
        ({
            let effects = crate::guest_backing::release_effects(backing, process, irql, queued);
            if crate::guest_backing::freed_at_once(backing, process, irql) {
                effects[0] == (Effect::UnmapPages { mdl: backing.mdl, address })
            } else {
                given_back(effects) == Multiset::<Resource>::empty()
            }
        }),
{
    let effects = crate::guest_backing::release_effects(backing, process, irql, queued);
    if !crate::guest_backing::freed_at_once(backing, process, irql) {
        lemma_notes_give_nothing_back(effects);
    }
}

/// A release loses nothing either: what the backing held is given back or waits
/// in the queue. The one exception is a live mapping without room in the queue,
/// where the memory is retained on purpose.
pub proof fn law_release_loses_nothing(
    backing: BackingModel,
    process: usize,
    irql: u8,
    queued: bool,
    pending: Seq<DeferredBacking>,
)
    requires
        queued || crate::guest_backing::freed_at_once(backing, process, irql),
    ensures
        given_back(
            crate::guest_backing::release_effects(backing, process, irql, queued),
        ).add(
            held_pending(
                crate::guest_backing::release_queue(backing, process, irql, queued, pending),
            ),
        ) == held(backing).add(held_pending(pending)),
{
    let effects = crate::guest_backing::release_effects(backing, process, irql, queued);
    let queue = crate::guest_backing::release_queue(backing, process, irql, queued, pending);
    let freed = crate::guest_backing::free_effects_and_count(backing);
    let free = crate::guest_backing::effects::free_effects(backing.allocation, backing.mdl);
    lemma_free_gives_memory_back(backing.allocation, backing.mdl);
    lemma_given_back_push(free, Effect::Count(Counter::Freed));
    match backing.mapping {
        None => {},
        Some((address, mapped_by)) => {
            if crate::guest_backing::can_unmap(mapped_by, process, irql) {
                let unmap = Effect::UnmapPages { mdl: backing.mdl, address };
                let let_go = Effect::DereferenceProcess { process: mapped_by };
                let total = Effect::Count(Counter::DropUnmap);
                lemma_given_back_list(unmap, let_go, total);
                lemma_given_back_concat(seq![unmap, let_go, total], freed);
            } else {
                lemma_notes_give_nothing_back(effects);
                assert(pending.push(backing.deferred(mapped_by)).drop_last() =~= pending);
            }
        },
    }
    assert(given_back(effects).add(held_pending(queue)) =~= held(backing).add(
        held_pending(pending),
    ));
}

/// Retiring a deferred backing gives back all that it held.
pub proof fn law_retiring_gives_all_back(backing: DeferredBacking)
    ensures
        given_back(crate::guest_backing::reaper::retire_effects(backing)) == held_deferred(backing),
{
    let free = crate::guest_backing::effects::free_effects(backing.allocation, backing.mdl);
    let let_go = Effect::DereferenceProcess { process: backing.process };
    let reaped = Effect::Count(Counter::Reaped);
    let freed = Effect::Count(Counter::Freed);
    lemma_free_gives_memory_back(backing.allocation, backing.mdl);
    lemma_given_back_list(let_go, reaped, freed);
    lemma_given_back_concat(free, seq![let_go, reaped, freed]);
    assert(given_back(crate::guest_backing::reaper::retire_effects(backing)) =~= held_deferred(
        backing,
    ));
}

/// Replacing one deferred backing in a queue.
proof fn lemma_held_update(pending: Seq<DeferredBacking>, i: int, backing: DeferredBacking)
    requires
        0 <= i < pending.len(),
    ensures
        held_pending(pending.update(i, backing)).add(held_deferred(pending[i])) == held_pending(
            pending,
        ).add(held_deferred(backing)),
    decreases pending.len(),
{
    let changed = pending.update(i, backing);
    if i == pending.len() - 1 {
        assert(changed.drop_last() =~= pending.drop_last());
    } else {
        lemma_held_update(pending.drop_last(), i, backing);
        assert(changed.drop_last() =~= pending.drop_last().update(i, backing));
        let before = held_pending(pending.drop_last());
        let after = held_pending(changed.drop_last());
        assert(after.add(held_deferred(pending[i])) == before.add(held_deferred(backing)));
        assert(held_pending(changed).add(held_deferred(pending[i])) =~= after.add(
            held_deferred(pending[i]),
        ).add(held_deferred(pending.last())));
        assert(held_pending(pending).add(held_deferred(backing)) =~= before.add(
            held_deferred(backing),
        ).add(held_deferred(pending.last())));
    }
    assert(held_pending(changed).add(held_deferred(pending[i])) =~= held_pending(pending).add(
        held_deferred(backing),
    ));
}

/// Taking one deferred backing out of a queue.
proof fn lemma_held_without(pending: Seq<DeferredBacking>, i: int)
    requires
        0 <= i < pending.len(),
    ensures
        held_pending(crate::guest_backing::reaper::without(pending, i)).add(
            held_deferred(pending[i]),
        ) == held_pending(pending),
{
    let last = pending.last();
    let changed = pending.update(i, last);
    lemma_held_update(pending, i, last);
    assert(changed.last() == last);
    let rest = held_pending(changed.drop_last());
    assert(held_pending(changed) == rest.add(held_deferred(last)));
    let x = rest.add(held_deferred(pending[i]));
    let y = held_pending(pending);
    assert(x.add(held_deferred(last)) =~= y.add(held_deferred(last)));
    assert forall|r: Resource| x.count(r) == y.count(r) by {
        assert(x.add(held_deferred(last)).count(r) == x.count(r) + held_deferred(last).count(r));
        assert(y.add(held_deferred(last)).count(r) == y.count(r) + held_deferred(last).count(r));
    }
    assert(x =~= y);
}

/// Reaping loses nothing: what the queue held is given back or still queued.
pub proof fn law_reaping_loses_nothing<F: Fn(usize) -> u32>(
    wait: F,
    before: Seq<DeferredBacking>,
    retired: Seq<DeferredBacking>,
    after: Seq<DeferredBacking>,
)
    requires
        crate::guest_backing::reaper::taken_one_by_one(wait, before, retired, after),
    ensures
        given_back(crate::guest_backing::reaper::retire_all_effects(retired)).add(
            held_pending(after),
        ) == held_pending(before),
    decreases retired.len(),
{
    let effects = crate::guest_backing::reaper::retire_all_effects(retired);
    if retired.len() > 0 {
        let (middle, i) = choose|middle: Seq<DeferredBacking>, i: int|
            {
                &&& crate::guest_backing::reaper::taken_one_by_one(
                    wait,
                    before,
                    retired.drop_last(),
                    middle,
                )
                &&& #[trigger] crate::guest_backing::reaper::stops_at(wait, middle, i)
                &&& retired.last() == middle[i]
                &&& after == crate::guest_backing::reaper::without(middle, i)
            };
        law_reaping_loses_nothing(wait, before, retired.drop_last(), middle);
        law_retiring_gives_all_back(retired.last());
        lemma_held_without(middle, i);
        lemma_given_back_concat(
            crate::guest_backing::reaper::retire_all_effects(retired.drop_last()),
            crate::guest_backing::reaper::retire_effects(retired.last()),
        );
    }
    assert(given_back(effects).add(held_pending(after)) =~= held_pending(before));
}

/// Taking one backing out of a queue leaves all others in it.
proof fn lemma_without_keeps_others(pending: Seq<DeferredBacking>, i: int)
    requires
        0 <= i < pending.len(),
    ensures
        crate::guest_backing::reaper::without(pending, i).to_multiset().insert(pending[i])
            == pending.to_multiset(),
{
    broadcast use vstd::seq_lib::group_to_multiset_ensures;

    let last = pending.last();
    let changed = pending.update(i, last);
    let rest = changed.drop_last();
    assert(changed.remove(i) =~= pending.remove(i));
    assert(changed =~= rest.push(last));
    assert(changed[i] == last);
    assert(rest.to_multiset() =~= changed.to_multiset().remove(last));
    assert(pending.contains(pending[i]));
    assert(rest.to_multiset().insert(pending[i]) =~= pending.to_multiset());
}

/// Where a process is found gone exactly if it has exited, reaping sorts the
/// queue: the retired backings are those of exited processes, the ones left are
/// those of live processes, and every backing is one or the other, once.
pub proof fn law_reaping_separates<F: Fn(usize) -> u32>(
    wait: F,
    exited: spec_fn(usize) -> bool,
    before: Seq<DeferredBacking>,
    retired: Seq<DeferredBacking>,
    after: Seq<DeferredBacking>,
)
    requires
        crate::guest_backing::reaper::reaped(wait, before, retired, after),
        forall|process: usize, status: u32| #[trigger]
            crate::guest_backing::reaper::may_answer(wait, process, status) ==> (status
                == crate::status::STATUS_SUCCESS <==> exited(process)),
    ensures
        forall|i: int| 0 <= i < retired.len() ==> exited((#[trigger] retired[i]).process),
        forall|i: int| 0 <= i < after.len() ==> !exited((#[trigger] after[i]).process),
        retired.to_multiset().add(after.to_multiset()) == before.to_multiset(),
{
    lemma_taken_have_exited(wait, exited, before, retired, after);
    assert forall|i: int| 0 <= i < after.len() implies !exited((#[trigger] after[i]).process) by {
        assert(crate::guest_backing::reaper::may_be_alive(wait, after[i].process));
    }
}

proof fn lemma_taken_have_exited<F: Fn(usize) -> u32>(
    wait: F,
    exited: spec_fn(usize) -> bool,
    before: Seq<DeferredBacking>,
    retired: Seq<DeferredBacking>,
    after: Seq<DeferredBacking>,
)
    requires
        crate::guest_backing::reaper::taken_one_by_one(wait, before, retired, after),
        forall|process: usize, status: u32| #[trigger]
            crate::guest_backing::reaper::may_answer(wait, process, status) ==> (status
                == crate::status::STATUS_SUCCESS <==> exited(process)),
    ensures
        forall|i: int| 0 <= i < retired.len() ==> exited((#[trigger] retired[i]).process),
        retired.to_multiset().add(after.to_multiset()) == before.to_multiset(),
    decreases retired.len(),
{
    broadcast use vstd::seq_lib::group_to_multiset_ensures;

    if retired.len() == 0 {
        assert(retired.to_multiset() =~= Multiset::empty());
    } else {
        let earlier = retired.drop_last();
        let (middle, i) = choose|middle: Seq<DeferredBacking>, i: int|
            {
                &&& crate::guest_backing::reaper::taken_one_by_one(wait, before, earlier, middle)
                &&& #[trigger] crate::guest_backing::reaper::stops_at(wait, middle, i)
                &&& retired.last() == middle[i]
                &&& after == crate::guest_backing::reaper::without(middle, i)
            };
        lemma_taken_have_exited(wait, exited, before, earlier, middle);
        lemma_without_keeps_others(middle, i);
        assert(retired =~= earlier.push(retired.last()));
        assert forall|k: int| 0 <= k < retired.len() implies exited(
            (#[trigger] retired[k]).process,
        ) by {
            if k < earlier.len() {
                assert(retired[k] == earlier[k]);
            }
        }
    }
    assert(retired.to_multiset().add(after.to_multiset()) =~= before.to_multiset());
}

/// The sizes that a backing can have: the positive multiples of 64 KiB that
/// stay below 4 GiB with another 64 KiB added.
pub proof fn law_backing_sizes(size: int)
    ensures
        crate::guest_backing::size_ok(size) <==> 0 < size && size % 65536 == 0 && size + 65536
            <= 0xffff_ffff,
{
}

/// The view of a backing is its fields.
pub proof fn law_backing_view(backing: GuestBacking)
    ensures
        backing@.allocation == backing.allocation,
        backing@.physical == backing.physical,
        backing@.size == backing.size,
        backing@.mdl == backing.mdl,
        backing@.entries == backing.entries@,
        backing@.mapping == backing.mapping,
{
}

/// The bytes of two lists of segments add up, and one segment has its length.
pub proof fn law_lengths_add_up(first: Seq<MemEntry>, second: Seq<MemEntry>, entry: MemEntry)
    ensures
        crate::guest_backing::total_length(first + second) == crate::guest_backing::total_length(
            first,
        ) + crate::guest_backing::total_length(second),
        crate::guest_backing::total_length(seq![entry]) == entry.length,
    decreases second.len(),
{
    assert(seq![entry].drop_last() =~= Seq::empty());
    assert(crate::guest_backing::total_length(seq![entry].drop_last()) == 0);
    if second.len() == 0 {
        assert(first + second =~= first);
    } else {
        law_lengths_add_up(first, second.drop_last(), entry);
        assert((first + second).drop_last() =~= first + second.drop_last());
    }
}

/// A contiguous block goes back before the MDL over it; pages go back while
/// their MDL still lists them, then the MDL goes. Nothing else is done.
pub proof fn law_memory_goes_back_before_its_mdl(allocation: Option<usize>, mdl: usize)
    ensures
        ({
            let effects = crate::guest_backing::effects::free_effects(allocation, mdl);
            &&& effects.len() == 2
            &&& allocation matches Some(address) ==> {
                &&& effects[0] == (Effect::FreeContiguous { address })
                &&& effects[1] == (Effect::FreeMdl { mdl })
            }
            &&& allocation is None ==> {
                &&& effects[0] == (Effect::FreePages { mdl })
                &&& effects[1] == (Effect::FreePool { mdl })
            }
            &&& given_back(effects) == memory(allocation, mdl)
        }),
{
    lemma_free_gives_memory_back(allocation, mdl);
}

/// A failure is recorded by its stage and by numbers that agree with the size
/// and the process id modulo 2^32; a success by one more in the total and by
/// its size.
pub proof fn law_outcomes_are_recorded(stage: u32, size: u64, pid: usize, done: u32)
    ensures
        ({
            let failure = crate::guest_backing::effects::failure_effects(stage, size, pid);
            &&& failure.len() == 3
            &&& failure[0] == Effect::Record(Note::FailStage, stage)
            &&& failure[1] matches Effect::Record(note, low) && note == Note::FailSize && (size
                - low) % 0x1_0000_0000 == 0
            &&& failure[2] matches Effect::Record(note, low) && note == Note::FailPid && (pid
                - low) % 0x1_0000_0000 == 0
        }),
        ({
            let success = crate::guest_backing::effects::success_effects(done);
            &&& success.len() == 2
            &&& success[0] == Effect::Count(Counter::AllocOk)
            &&& success[1] == Effect::Record(Note::LastOkSize, done)
        }),
{
}

/// Mapping an unmapped backing does what the memory manager did: an address is
/// taken up with one reference on the process, a lack of room and an exception
/// are passed on and change nothing. Only the mapping ever changes.
pub proof fn law_map_reports_the_outcome(
    backing: BackingModel,
    process: usize,
    address: usize,
    code: u32,
)
    requires
        backing.mapping is None,
    ensures
        backing.map_result(MapOutcome::Mapped(address), process) == Ok::<
            (usize, Effect),
            BackingError,
        >((address, Effect::ReferenceProcess { process })),
        backing.map_result(MapOutcome::NoAddress, process) == Err::<(usize, Effect), BackingError>(
            BackingError::NoMemory,
        ),
        backing.map_result(MapOutcome::Raised(code), process) == Err::<
            (usize, Effect),
            BackingError,
        >(BackingError::Exception(code)),
        backing.after_map(MapOutcome::NoAddress, process) == backing,
        backing.after_map(MapOutcome::Raised(code), process) == backing,
        ({
            let mapped = backing.after_map(MapOutcome::Mapped(address), process);
            &&& mapped.mapping == Some((address, process))
            &&& mapped.allocation == backing.allocation
            &&& mapped.physical == backing.physical
            &&& mapped.size == backing.size
            &&& mapped.mdl == backing.mdl
            &&& mapped.entries == backing.entries
        }),
{
}

/// A change of the mapping changes nothing else, and the mapping belongs to the
/// one process and address that it was made for.
pub proof fn law_only_the_mapping_changes(
    backing: BackingModel,
    mapping: Option<(usize, usize)>,
    address: usize,
    process: usize,
)
    ensures
        backing.with_mapping(mapping).mapping == mapping,
        backing.with_mapping(mapping).allocation == backing.allocation,
        backing.with_mapping(mapping).physical == backing.physical,
        backing.with_mapping(mapping).size == backing.size,
        backing.with_mapping(mapping).mdl == backing.mdl,
        backing.with_mapping(mapping).entries == backing.entries,
        backing.mapped_by(address, process) <==> backing.mapping == Some((address, process)),
        backing.deferred(process).allocation == backing.allocation,
        backing.deferred(process).mdl == backing.mdl,
        backing.deferred(process).process == process,
{
}

/// The user mappings of an MDL, by MDL and address, that are left after the
/// effects.
pub open spec fn mappings_left(live: Set<(usize, usize)>, effects: Seq<Effect>) -> Set<
    (usize, usize),
>
    decreases effects.len(),
{
    if effects.len() == 0 {
        live
    } else {
        let before = mappings_left(live, effects.drop_last());
        match effects.last() {
            Effect::UnmapPages { mdl, address } => before.remove((mdl, address)),
            _ => before,
        }
    }
}

/// The user mappings that a backing accounts for.
pub open spec fn user_mappings(backing: BackingModel) -> Set<(usize, usize)> {
    match backing.mapping {
        None => Set::empty(),
        Some((address, _)) => Set::empty().insert((backing.mdl, address)),
    }
}

/// Whether the effect gives memory or an MDL back.
pub open spec fn frees_memory(effect: Effect) -> bool {
    ||| effect is FreeContiguous
    ||| effect is FreeMdl
    ||| effect is FreePages
    ||| effect is FreePool
}

/// A mapping that effects remove stays removed.
proof fn lemma_mappings_only_shrink(
    live: Set<(usize, usize)>,
    effects: Seq<Effect>,
    i: int,
    mdl: usize,
    address: usize,
)
    requires
        0 <= i < effects.len(),
        effects[i] == (Effect::UnmapPages { mdl, address }),
    ensures
        !mappings_left(live, effects).contains((mdl, address)),
    decreases effects.len(),
{
    if i < effects.len() - 1 {
        lemma_mappings_only_shrink(live, effects.drop_last(), i, mdl, address);
    }
}

/// Effects never add a mapping.
proof fn lemma_mappings_are_not_added(live: Set<(usize, usize)>, effects: Seq<Effect>)
    ensures
        mappings_left(live, effects).subset_of(live),
    decreases effects.len(),
{
    if effects.len() > 0 {
        lemma_mappings_are_not_added(live, effects.drop_last());
    }
}

/// Unmapping, of a contiguous or of a chunked backing, first removes the user
/// mapping of its MDL, once, then lets go of the process, and does nothing more:
/// where the backing counts as unmapped no user mapping is left.
pub proof fn law_unmap_removes_the_mapping(backing: BackingModel, address: usize, process: usize)
    requires
        backing.mapping == Some((address, process)),
    ensures
        ({
            let effects = backing.unmap_effects(address, process);
            &&& effects.len() == 2
            &&& effects[0] == (Effect::UnmapPages { mdl: backing.mdl, address })
            &&& effects[1] == (Effect::DereferenceProcess { process })
            &&& mappings_left(user_mappings(backing), effects) == user_mappings(
                backing.with_mapping(None),
            )
            &&& mappings_left(user_mappings(backing), effects) == Set::<(usize, usize)>::empty()
        }),
{
    let effects = backing.unmap_effects(address, process);
    let live = user_mappings(backing);
    lemma_mappings_only_shrink(live, effects, 0, backing.mdl, address);
    lemma_mappings_are_not_added(live, effects);
    assert(mappings_left(live, effects) =~= Set::empty());
}

/// The process that mapped a backing, and no other, removes the mapping and
/// gives everything back at once, exactly at IRQL 0 and 1.
pub proof fn law_mapping_process_frees_below_dispatch(
    backing: BackingModel,
    address: usize,
    mapped_by: usize,
    process: usize,
    irql: u8,
    queued: bool,
    pending: Seq<DeferredBacking>,
)
    requires
        backing.mapping == Some((address, mapped_by)),
    ensures
        process == mapped_by && (irql == 0 || irql == 1) <==> {
            let effects = crate::guest_backing::release_effects(backing, process, irql, queued);
            &&& effects.len() > 0
            &&& effects[0] == (Effect::UnmapPages { mdl: backing.mdl, address })
            &&& given_back(effects) == held(backing)
            &&& crate::guest_backing::release_queue(backing, process, irql, queued, pending)
                == pending
        },
        process == mapped_by && (irql == 0 || irql == 1) <==> crate::guest_backing::freed_at_once(
            backing,
            process,
            irql,
        ),
{
    let effects = crate::guest_backing::release_effects(backing, process, irql, queued);
    if process == mapped_by && (irql == 0 || irql == 1) {
        let none = Seq::<DeferredBacking>::empty();
        law_release_loses_nothing(backing, process, irql, queued, none);
        assert(given_back(effects).add(held_pending(none)) =~= given_back(effects));
        assert(held(backing).add(held_pending(none)) =~= held(backing));
    }
}

/// What a release does, step by step, for every backing, process and IRQL.
pub proof fn law_release_steps(
    backing: BackingModel,
    process: usize,
    irql: u8,
    queued: bool,
    pending: Seq<DeferredBacking>,
)
    ensures
        ({
            let effects = crate::guest_backing::release_effects(backing, process, irql, queued);
            let queue = crate::guest_backing::release_queue(
                backing,
                process,
                irql,
                queued,
                pending,
            );
            let free = match backing.allocation {
                Some(address) => seq![
                    Effect::FreeContiguous { address },
                    Effect::FreeMdl { mdl: backing.mdl },
                    Effect::Count(Counter::Freed),
                ],
                None => seq![
                    Effect::FreePages { mdl: backing.mdl },
                    Effect::FreePool { mdl: backing.mdl },
                    Effect::Count(Counter::Freed),
                ],
            };
            match backing.mapping {
                None => {
                    &&& effects =~= free
                    &&& queue == pending
                    &&& crate::guest_backing::freed_at_once(backing, process, irql)
                },
                Some((address, mapped_by)) => if mapped_by == process && irql < 2 {
                    &&& effects.len() == 6
                    &&& effects[0] == (Effect::UnmapPages { mdl: backing.mdl, address })
                    &&& effects[1] == (Effect::DereferenceProcess { process })
                    &&& effects[2] == Effect::Count(Counter::DropUnmap)
                    &&& effects.subrange(3, 6) =~= free
                    &&& queue == pending
                } else if queued {
                    &&& effects.len() == 1
                    &&& effects[0] == Effect::Count(Counter::Deferred)
                    &&& queue.len() == pending.len() + 1
                    &&& queue.drop_last() =~= pending
                    &&& queue.last().allocation == backing.allocation
                    &&& queue.last().mdl == backing.mdl
                    &&& queue.last().process == mapped_by
                } else {
                    &&& effects.len() == 2
                    &&& effects[0] == Effect::Count(Counter::RetainedMapped)
                    &&& effects[1] == Effect::Record(Note::LastRetainedSize, backing.size)
                    &&& queue == pending
                },
            }
        }),
{
    let queue = crate::guest_backing::release_queue(backing, process, irql, queued, pending);
    if queue != pending {
        assert(queue.drop_last() =~= pending);
    }
}

/// Whenever a release frees memory, the user mapping has been removed earlier
/// in the same release, and none is left at its end.
pub proof fn law_memory_outlives_the_mapping(
    backing: BackingModel,
    address: usize,
    mapped_by: usize,
    process: usize,
    irql: u8,
    queued: bool,
    n: int,
)
    requires
        backing.mapping == Some((address, mapped_by)),
        0 <= n < crate::guest_backing::release_effects(backing, process, irql, queued).len(),
        frees_memory(crate::guest_backing::release_effects(backing, process, irql, queued)[n]),
    ensures
        ({
            let effects = crate::guest_backing::release_effects(backing, process, irql, queued);
            &&& !mappings_left(user_mappings(backing), effects.take(n)).contains(
                (backing.mdl, address),
            )
            &&& mappings_left(user_mappings(backing), effects) == Set::<(usize, usize)>::empty()
        }),
{
    let effects = crate::guest_backing::release_effects(backing, process, irql, queued);
    let live = user_mappings(backing);
    law_release_steps(backing, process, irql, queued, Seq::empty());
    assert(effects[0] == (Effect::UnmapPages { mdl: backing.mdl, address }));
    assert(n > 0);
    assert(effects.take(n)[0] == effects[0]);
    lemma_mappings_only_shrink(live, effects.take(n), 0, backing.mdl, address);
    lemma_mappings_only_shrink(live, effects, 0, backing.mdl, address);
    lemma_mappings_are_not_added(live, effects);
    assert(mappings_left(live, effects) =~= Set::empty());
}

/// A retired backing gives its memory back, lets go of its process, and counts
/// as reaped and as freed, in this order.
pub proof fn law_retire_steps(backing: DeferredBacking)
    ensures
        ({
            let effects = crate::guest_backing::reaper::retire_effects(backing);
            &&& effects.len() == 5
            &&& backing.allocation matches Some(address) ==> {
                &&& effects[0] == (Effect::FreeContiguous { address })
                &&& effects[1] == (Effect::FreeMdl { mdl: backing.mdl })
            }
            &&& backing.allocation is None ==> {
                &&& effects[0] == (Effect::FreePages { mdl: backing.mdl })
                &&& effects[1] == (Effect::FreePool { mdl: backing.mdl })
            }
            &&& effects[2] == (Effect::DereferenceProcess { process: backing.process })
            &&& effects[3] == Effect::Count(Counter::Reaped)
            &&& effects[4] == Effect::Count(Counter::Freed)
        }),
{
}

/// Retiring two lists of backings is retiring the first, then the second; one
/// backing is retired by its own steps.
pub proof fn law_retiring_goes_one_by_one(
    first: Seq<DeferredBacking>,
    second: Seq<DeferredBacking>,
    backing: DeferredBacking,
)
    ensures
        crate::guest_backing::reaper::retire_all_effects(first + second)
            == crate::guest_backing::reaper::retire_all_effects(first)
            + crate::guest_backing::reaper::retire_all_effects(second),
        crate::guest_backing::reaper::retire_all_effects(seq![backing])
            == crate::guest_backing::reaper::retire_effects(backing),
    decreases second.len(),
{
    let one = seq![backing];
    assert(one.drop_last() =~= Seq::empty());
    assert(crate::guest_backing::reaper::retire_all_effects(one.drop_last()) =~= Seq::empty());
    assert(crate::guest_backing::reaper::retire_all_effects(one)
        =~= crate::guest_backing::reaper::retire_effects(backing));
    let all = crate::guest_backing::reaper::retire_all_effects(first + second);
    if second.len() == 0 {
        assert(first + second =~= first);
    } else {
        law_retiring_goes_one_by_one(first, second.drop_last(), backing);
        assert((first + second).drop_last() =~= first + second.drop_last());
    }
    assert(all =~= crate::guest_backing::reaper::retire_all_effects(first)
        + crate::guest_backing::reaper::retire_all_effects(second));
}

/// Taking a backing out of the queue moves the last one into its place and no
/// other.
pub proof fn law_taking_moves_only_the_last(pending: Seq<DeferredBacking>, i: int, j: int)
    requires
        0 <= i < pending.len(),
        0 <= j < pending.len() - 1,
    ensures
        ({
            let rest = crate::guest_backing::reaper::without(pending, i);
            &&& rest.len() == pending.len() - 1
            &&& j != i ==> rest[j] == pending[j]
            &&& j == i ==> rest[j] == pending[pending.len() - 1]
        }),
{
}

/// A scan stops at the first process whose wait is satisfied (status zero), and
/// goes on past every other status; the answers are those of the wait itself.
pub proof fn law_scan_stops_at_the_first_exit<F: Fn(usize) -> u32>(
    wait: F,
    pending: Seq<DeferredBacking>,
    i: int,
)
    ensures
        crate::guest_backing::reaper::stops_at(wait, pending, i) <==> {
            &&& 0 <= i < pending.len()
            &&& call_ensures(wait, (pending[i].process,), 0u32)
            &&& forall|j: int|
                0 <= j < i ==> exists|status: u32|
                    status > 0 && #[trigger] call_ensures(
                        wait,
                        ((#[trigger] pending[j]).process,),
                        status,
                    )
        },
        crate::guest_backing::reaper::alive_before(wait, pending, i) <==> forall|j: int|
            0 <= j < i ==> exists|status: u32|
                status > 0 && #[trigger] call_ensures(
                    wait,
                    ((#[trigger] pending[j]).process,),
                    status,
                ),
{
    assert forall|p: usize|
        crate::guest_backing::reaper::may_be_alive(wait, p) <==> exists|status: u32|
            status > 0 && #[trigger] call_ensures(wait, (p,), status) by {
        if crate::guest_backing::reaper::may_be_alive(wait, p) {
            let status = choose|status: u32|
                status != 0 && #[trigger] crate::guest_backing::reaper::may_answer(
                    wait,
                    p,
                    status,
                );
            assert(call_ensures(wait, (p,), status));
        }
        if exists|status: u32| status > 0 && #[trigger] call_ensures(wait, (p,), status) {
            let status = choose|status: u32|
                status > 0 && #[trigger] call_ensures(wait, (p,), status);
            assert(crate::guest_backing::reaper::may_answer(wait, p, status));
        }
    }
    assert(crate::guest_backing::reaper::alive_before(wait, pending, i) <==> forall|j: int|
        0 <= j < i ==> exists|status: u32|
            status > 0 && #[trigger] call_ensures(
                wait,
                ((#[trigger] pending[j]).process,),
                status,
            )) by {
        if crate::guest_backing::reaper::alive_before(wait, pending, i) {
            assert forall|j: int| 0 <= j < i implies exists|status: u32|
                status > 0 && #[trigger] call_ensures(
                    wait,
                    ((#[trigger] pending[j]).process,),
                    status,
                ) by {
                assert(crate::guest_backing::reaper::may_be_alive(wait, pending[j].process));
            }
        }
        if forall|j: int|
            0 <= j < i ==> exists|status: u32|
                status > 0 && #[trigger] call_ensures(
                    wait,
                    ((#[trigger] pending[j]).process,),
                    status,
                ) {
            assert forall|j: int| 0 <= j < i implies crate::guest_backing::reaper::may_be_alive(
                wait,
                (#[trigger] pending[j]).process,
            ) by {}
        }
    }
}

/// Reaping starts with the first exited process of the queue as it is, and goes
/// on with the rest in the same way; with none retired the queue is as before.
pub proof fn law_reaping_starts_at_the_front<F: Fn(usize) -> u32>(
    wait: F,
    before: Seq<DeferredBacking>,
    retired: Seq<DeferredBacking>,
    after: Seq<DeferredBacking>,
)
    requires
        crate::guest_backing::reaper::taken_one_by_one(wait, before, retired, after),
    ensures
        retired.len() == 0 ==> after == before,
        retired.len() > 0 ==> exists|i: int|
            {
                &&& #[trigger] crate::guest_backing::reaper::stops_at(wait, before, i)
                &&& retired[0] == before[i]
                &&& crate::guest_backing::reaper::taken_one_by_one(
                    wait,
                    crate::guest_backing::reaper::without(before, i),
                    retired.drop_first(),
                    after,
                )
            },
    decreases retired.len(),
{
    if retired.len() > 0 {
        let earlier = retired.drop_last();
        let (middle, m) = choose|middle: Seq<DeferredBacking>, m: int|
            {
                &&& crate::guest_backing::reaper::taken_one_by_one(wait, before, earlier, middle)
                &&& #[trigger] crate::guest_backing::reaper::stops_at(wait, middle, m)
                &&& retired.last() == middle[m]
                &&& after == crate::guest_backing::reaper::without(middle, m)
            };
        law_reaping_starts_at_the_front(wait, before, earlier, middle);
        if earlier.len() == 0 {
            assert(middle == before);
            let rest = retired.drop_first();
            assert(rest.len() == 0);
            assert(crate::guest_backing::reaper::taken_one_by_one(wait, after, rest, after));
            assert(crate::guest_backing::reaper::stops_at(wait, before, m));
        } else {
            let i = choose|i: int|
                {
                    &&& #[trigger] crate::guest_backing::reaper::stops_at(wait, before, i)
                    &&& earlier[0] == before[i]
                    &&& crate::guest_backing::reaper::taken_one_by_one(
                        wait,
                        crate::guest_backing::reaper::without(before, i),
                        earlier.drop_first(),
                        middle,
                    )
                };
            let rest = retired.drop_first();
            assert(rest.drop_last() =~= earlier.drop_first());
            assert(rest.last() == retired.last());
            assert(crate::guest_backing::reaper::stops_at(wait, middle, m));
            assert(crate::guest_backing::reaper::taken_one_by_one(
                wait,
                crate::guest_backing::reaper::without(before, i),
                rest,
                after,
            ));
            assert(crate::guest_backing::reaper::stops_at(wait, before, i));
        }
    }
}

} // verus!
