//! What each answer of the kernel leads to.

use vstd::prelude::*;

verus! {

use crate::guest_backing::allocation::{
    AllocEvent, Allocation, ContiguousBlock, PageList, Request,
};
use crate::guest_backing::effects::{Counter, Effect, Note};
use crate::guest_backing::{BackingModel, GuestBacking};
use crate::status::BackingError;

/// The gap before a 64 KiB boundary is less than 64 KiB and ends on it.
pub proof fn law_gap_ends_on_a_boundary(physical: int)
    ensures
        0 <= crate::guest_backing::allocation::alignment_gap(physical) < 65536,
        (physical + crate::guest_backing::allocation::alignment_gap(physical)) % 65536 == 0,
{
}

/// The block is asked for with 64 KiB to spare, the pages in whole segments, and
/// both below 2^40; the MDL is asked for at the start of the aligned part. A
/// finished allocation asks for nothing.
pub proof fn law_requests(size: u64, block: ContiguousBlock, offset: usize)
    requires
        0 < size <= 0xfffe_ffff,
        block.address + offset <= usize::MAX,
    ensures
        (Allocation::Contiguous { size }).wanted() matches Some(request) && request matches
            Request::Contiguous { bytes, highest } && bytes == size + 65536 && highest
            == 0xff_ffff_ffff,
        (Allocation::Describe { size, block, offset }).wanted() matches Some(request) && request
            matches Request::Mdl { address, length } && address == block.address + offset
            && length == size,
        (Allocation::Chunked { size }).wanted() matches Some(request) && request matches
            Request::Pages { lowest, highest, chunk, bytes } && lowest == 0 && highest
            == 0xff_ffff_ffff && chunk == 65536 && bytes == size,
{
}

/// A finished or failed allocation waits for nothing.
pub proof fn law_ended_allocations_ask_nothing(backing: GuestBacking, error: BackingError)
    ensures
        Allocation::Ready(backing).wanted() is None,
        Allocation::Failed(error).wanted() is None,
{
}

/// Every state that waits has a size of a backing, and takes every answer to
/// its request: any refusal, any MDL, any page list, and any block that lies,
/// with its 64 KiB to spare, inside the address space and has a 64 KiB boundary
/// at or above its physical start.
pub proof fn law_every_answer_is_taken(
    size: u64,
    block: ContiguousBlock,
    offset: usize,
    mdl: Option<usize>,
    list: Option<PageList>,
)
    ensures
        (Allocation::Contiguous { size }).wf() <==> 0 < size <= 0xfffe_ffff && size % 65536 == 0,
        (Allocation::Chunked { size }).wf() <==> 0 < size <= 0xfffe_ffff && size % 65536 == 0,
        (Allocation::Contiguous { size }).awaits(AllocEvent::Block(None)),
        (Allocation::Contiguous { size }).awaits(AllocEvent::Block(Some(block)))
            <==> block.physical <= 0xffff_ffff_ffff_0000 && block.address + size + 65536
            <= usize::MAX,
        (Allocation::Describe { size, block, offset }).awaits(AllocEvent::Mdl(mdl)),
        (Allocation::Chunked { size }).awaits(AllocEvent::Pages(list)),
{
}

/// A finished backing has an allowed size, segments on 64 KiB boundaries that
/// add up to it, and its address is that of the first one.
pub proof fn law_finished_backings_are_sound(backing: GuestBacking, i: int)
    requires
        Allocation::Ready(backing).wf(),
        0 <= i < backing.entries@.len(),
    ensures
        0 < backing.size <= 0xfffe_ffff,
        backing.size % 65536 == 0,
        backing.entries@[0].addr == backing.physical,
        crate::guest_backing::total_length(backing.entries@) == backing.size,
        backing.entries@[i].addr % 65536 == 0,
        backing.entries@[i].length > 0,
        backing.entries@[i].padding == 0,
        backing.allocation is Some ==> backing.entries@.len() == 1,
        backing.allocation is None ==> backing.entries@[i].length == 65536,
{
    assert(backing@.entries[i] == backing.entries@[i]);
}

/// Every block, aligned or not, is cleared before it is shared: taking it clears
/// exactly the bytes that the MDL request then describes, which start on the
/// first 64 KiB boundary of the block.
pub proof fn law_every_block_is_cleared(
    size: u64,
    block: ContiguousBlock,
    pid: usize,
    reserved: bool,
    effects: Seq<Effect>,
    next: Allocation,
)
    requires
        (Allocation::Contiguous { size }).wf(),
        (Allocation::Contiguous { size }).awaits(AllocEvent::Block(Some(block))),
        (Allocation::Contiguous { size }).follows(
            AllocEvent::Block(Some(block)),
            pid,
            reserved,
            effects,
            next,
        ),
    ensures
        effects.len() == 1,
        effects[0] matches Effect::ZeroBytes { address, bytes } && {
            &&& bytes == size
            &&& block.address <= address < block.address + 65536
            &&& (block.physical + (address - block.address)) % 65536 == 0
            &&& next.wanted() matches Some(request) && request matches Request::Mdl {
                address: described,
                length,
            } && described == address && length == size
        },
        next matches Allocation::Describe { size: kept, block: same, offset } && kept == size && same
            == block && 0 <= offset < 65536 && (block.physical + offset) % 65536 == 0,
{
    law_gap_ends_on_a_boundary(block.physical as int);
}

/// Without a block the failure is counted and recorded as stage 1, and pages of
/// the same size are tried.
pub proof fn law_without_a_block_pages_are_tried(
    size: u64,
    pid: usize,
    reserved: bool,
    effects: Seq<Effect>,
    next: Allocation,
)
    requires
        (Allocation::Contiguous { size }).wf(),
        (Allocation::Contiguous { size }).follows(
            AllocEvent::Block(None),
            pid,
            reserved,
            effects,
            next,
        ),
    ensures
        next == (Allocation::Chunked { size }),
        effects =~= seq![
            Effect::Count(Counter::ContigFail),
            Effect::Record(Note::FailStage, 1),
            Effect::Record(Note::FailSize, size as u32),
            Effect::Record(Note::FailPid, (pid as int % 0x1_0000_0000) as u32),
        ],
{
}

/// Without an MDL the block goes back, the failure is counted and recorded as
/// stage 2, and the allocation ends for want of memory.
pub proof fn law_without_an_mdl_the_block_goes_back(
    size: u64,
    block: ContiguousBlock,
    offset: usize,
    pid: usize,
    reserved: bool,
    effects: Seq<Effect>,
    next: Allocation,
)
    requires
        (Allocation::Describe { size, block, offset }).wf(),
        (Allocation::Describe { size, block, offset }).follows(
            AllocEvent::Mdl(None),
            pid,
            reserved,
            effects,
            next,
        ),
    ensures
        next == Allocation::Failed(BackingError::NoMemory),
        effects =~= seq![
            Effect::FreeContiguous { address: block.address },
            Effect::Count(Counter::MdlFail),
            Effect::Record(Note::FailStage, 2),
            Effect::Record(Note::FailSize, size as u32),
            Effect::Record(Note::FailPid, (pid as int % 0x1_0000_0000) as u32),
        ],
{
}

/// With an MDL the backing is finished if its entry can be kept: one unmapped
/// segment of the asked size, on the first 64 KiB boundary of the block. Else
/// block and MDL go back.
pub proof fn law_an_mdl_finishes_the_block(
    size: u64,
    block: ContiguousBlock,
    offset: usize,
    mdl: usize,
    pid: usize,
    reserved: bool,
    effects: Seq<Effect>,
    next: Allocation,
)
    requires
        (Allocation::Describe { size, block, offset }).wf(),
        (Allocation::Describe { size, block, offset }).follows(
            AllocEvent::Mdl(Some(mdl)),
            pid,
            reserved,
            effects,
            next,
        ),
    ensures
        reserved ==> {
            &&& effects =~= seq![
                Effect::BuildMdl { mdl },
                Effect::Count(Counter::AllocOk),
                Effect::Record(Note::LastOkSize, size as u32),
            ]
            &&& next matches Allocation::Ready(backing) && {
                &&& backing.allocation == Some(block.address)
                &&& backing.mdl == mdl
                &&& backing.mapping is None
                &&& backing.size == size
                &&& backing.physical % 65536 == 0
                &&& block.physical <= backing.physical < block.physical + 65536
                &&& backing.physical - block.physical == offset
                &&& backing.entries@.len() == 1
                &&& backing.entries@[0].addr == backing.physical
                &&& backing.entries@[0].length == size
                &&& backing.entries@[0].padding == 0
            }
        },
        !reserved ==> {
            &&& effects =~= seq![
                Effect::BuildMdl { mdl },
                Effect::FreeContiguous { address: block.address },
                Effect::FreeMdl { mdl },
                Effect::Count(Counter::Freed),
            ]
            &&& next == Allocation::Failed(BackingError::Reserve)
        },
{
    law_gap_ends_on_a_boundary(block.physical as int);
    if reserved {
        assert(next is Ready);
        match next {
            Allocation::Ready(backing) => {
                assert(backing@.entries == backing.entries@);
            },
            _ => {},
        }
    }
}

/// Without pages the failure is counted and recorded as stage 3, and the
/// allocation ends for want of memory.
pub proof fn law_without_pages_the_allocation_ends(
    size: u64,
    pid: usize,
    reserved: bool,
    effects: Seq<Effect>,
    next: Allocation,
)
    requires
        (Allocation::Chunked { size }).wf(),
        (Allocation::Chunked { size }).follows(
            AllocEvent::Pages(None),
            pid,
            reserved,
            effects,
            next,
        ),
    ensures
        next == Allocation::Failed(BackingError::NoMemory),
        effects =~= seq![
            Effect::Count(Counter::ChunkFail),
            Effect::Record(Note::FailStage, 3),
            Effect::Record(Note::FailSize, size as u32),
            Effect::Record(Note::FailPid, (pid as int % 0x1_0000_0000) as u32),
        ],
{
}

/// Pages finish the backing exactly if their MDL describes the asked size from
/// a page start on, the entries can be kept, and the pages are whole segments.
/// Else they go back, and the error tells which of these failed first.
pub proof fn law_pages_finish_the_backing(
    size: u64,
    list: PageList,
    pid: usize,
    reserved: bool,
    effects: Seq<Effect>,
    next: Allocation,
)
    requires
        (Allocation::Chunked { size }).wf(),
        (Allocation::Chunked { size }).follows(
            AllocEvent::Pages(Some(list)),
            pid,
            reserved,
            effects,
            next,
        ),
    ensures
        ({
            let described = list.byte_count == size && list.byte_offset == 0;
            let segmented = crate::guest_backing_layout::chunks_ok(
                list.pages@,
                size as int,
                list.page_size as int,
            );
            &&& next is Ready <==> described && reserved && segmented
            &&& next is Ready || next is Failed
            &&& described && !reserved ==> next == Allocation::Failed(BackingError::Reserve)
            &&& !described || (reserved && !segmented) ==> next == Allocation::Failed(
                BackingError::InvalidDeviceState,
            )
        }),
        next is Failed ==> effects =~= seq![
            Effect::FreePages { mdl: list.mdl },
            Effect::FreePool { mdl: list.mdl },
            Effect::Count(Counter::Freed),
        ],
        next matches Allocation::Ready(backing) ==> {
            &&& backing.allocation is None
            &&& backing.mdl == list.mdl
            &&& backing.mapping is None
            &&& backing.size == size
            &&& backing.entries@.len() * 65536 == size
            &&& backing.entries@.len() > 0
            &&& backing.physical == backing.entries@[0].addr
            &&& effects =~= seq![
                Effect::Count(Counter::ChunkOk),
                Effect::Record(Note::LastChunkEntries, backing.entries@.len() as u32),
                Effect::Count(Counter::AllocOk),
                Effect::Record(Note::LastOkSize, size as u32),
            ]
        },
{
    if next is Ready {
        crate::guest_backing_layout::lemma_page_count(
            list.pages@.len() as int,
            size as int,
            list.page_size as int,
        );
        match next {
            Allocation::Ready(backing) => {
                assert(backing@.entries == backing.entries@);
                let per = 65536int / list.page_size as int;
                assert(0 * per == 0);
            },
            _ => {},
        }
    }
}

/// The segments of a finished chunked backing are its pages, in order: each is
/// 64 KiB long, and page `k` lies `k % per` pages into segment `k / per`.
pub proof fn law_finished_segments_are_the_pages(
    size: u64,
    list: PageList,
    pid: usize,
    reserved: bool,
    effects: Seq<Effect>,
    next: Allocation,
    k: int,
)
    requires
        (Allocation::Chunked { size }).wf(),
        (Allocation::Chunked { size }).follows(
            AllocEvent::Pages(Some(list)),
            pid,
            reserved,
            effects,
            next,
        ),
        0 <= k < list.pages@.len(),
    ensures
        next matches Allocation::Ready(backing) ==> {
            let per = 65536int / list.page_size as int;
            let entry = backing.entries@[k / per];
            &&& per * list.page_size == 65536
            &&& 0 <= k / per < backing.entries@.len()
            &&& entry.length == 65536
            &&& entry.padding == 0
            &&& entry.addr % 65536 == 0
            &&& list.pages@[k] * list.page_size == entry.addr + (k % per) * list.page_size
        },
{
    if next is Ready {
        crate::guest_backing_layout::lemma_page_count(
            list.pages@.len() as int,
            size as int,
            list.page_size as int,
        );
        crate::guest_backing::laws::law_segments_are_the_pages(size, list, k);
        let model: BackingModel = crate::guest_backing::allocation::chunked_model(size, list);
        let per = 65536int / list.page_size as int;
        let c = k / per;
        assert(crate::guest_backing_layout::chunk_ok(
            list.pages@,
            c * per,
            per,
            list.page_size as int,
        ));
        match next {
            Allocation::Ready(backing) => {
                assert(backing@.entries == backing.entries@);
                assert(backing.entries@ == model.entries);
            },
            _ => {},
        }
    }
}

} // verus!
