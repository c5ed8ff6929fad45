//! How a backing is allocated: first as one contiguous block, else as 64 KiB
//! chunks of pages.
//!
//! The caller makes the request that the current state names, hands the answer
//! to `step`, and carries out the effects before it goes on to the next state.

use crate::guest_backing::effects::{
    free_backing, record_alloc_failure, record_success, then_do, Counter, Effect, Note,
};
use crate::guest_backing::{GuestBacking, MemEntry};
use crate::guest_backing_layout::{valid_chunks, CHUNK_SIZE};
use crate::status::BackingError;
use vstd::prelude::*;

verus! {

/// Alignment of a contiguous backing: works with 4, 16 and 64 KiB host pages.
pub const ALIGN: u64 = 65536;

/// Highest physical address that a backing may have.
pub const HIGHEST: u64 = 0xFF_FFFF_FFFF;

/// A contiguous block: where it is mapped and its physical address.
#[derive(Clone, Copy, PartialEq, Eq, Structural, Debug)]
pub struct ContiguousBlock {
    pub address: usize,
    pub physical: u64,
}

/// Pages allocated together with the MDL that describes them.
pub struct PageList {
    pub mdl: usize,
    pub byte_count: u32,
    pub byte_offset: u32,
    pub page_size: usize,
    /// Frame numbers, in order.
    pub pages: Vec<u64>,
}

/// Where an allocation stands.
pub enum Allocation {
    /// Waits for a contiguous block.
    Contiguous { size: u64 },
    /// Waits for an MDL over the aligned part of the block.
    Describe { size: u64, block: ContiguousBlock, offset: usize },
    /// Waits for pages.
    Chunked { size: u64 },
    Ready(GuestBacking),
    Failed(BackingError),
}

/// The answer to a request; `None` when the kernel refused it.
pub enum AllocEvent {
    Block(Option<ContiguousBlock>),
    Mdl(Option<usize>),
    Pages(Option<PageList>),
}

/// What an allocation asks of the kernel.
#[derive(Clone, Copy, PartialEq, Eq, Structural, Debug)]
pub enum Request {
    /// Physically contiguous memory up to the address `highest`.
    Contiguous { bytes: u64, highest: u64 },
    /// An MDL for nonpaged memory.
    Mdl { address: usize, length: u32 },
    /// Zeroed pages in contiguous chunks of `chunk` bytes, all of them or none,
    /// without waiting.
    Pages { lowest: u64, highest: u64, chunk: u64, bytes: u64 },
}

/// One step of an allocation.
pub struct AllocStep {
    pub effects: Vec<Effect>,
    pub next: Allocation,
}

/// Bytes from `physical` up to the next 64 KiB boundary.
pub open spec fn alignment_gap(physical: int) -> int {
    (ALIGN - physical % ALIGN as int) % ALIGN as int
}

/// Bytes from `physical` up to the next 64 KiB boundary.
pub fn align_offset(physical: u64) -> (offset: usize)
    ensures
        offset == alignment_gap(physical as int),
        (physical + offset) % ALIGN as int == 0,
{
    assert(physical & 65535 == physical % 65536) by (bit_vector);
    let short: u64 = ALIGN - (physical & (ALIGN - 1));
    assert(short & 65535 == short % 65536) by (bit_vector);
    (short & (ALIGN - 1)) as usize
}

/// The segments of `count` chunks of pages.
pub open spec fn chunk_entries(pages: Seq<u64>, page_size: int, count: nat) -> Seq<MemEntry> {
    Seq::new(
        count,
        |c: int|
            MemEntry {
                addr: (pages[c * (CHUNK_SIZE as int / page_size)] * page_size) as u64,
                length: CHUNK_SIZE as u32,
                padding: 0,
            },
    )
}

impl PageList {
    /// Whether the MDL describes exactly `size` bytes from a page start on.
    pub open spec fn described(self, size: u64) -> bool {
        self.byte_count == size && self.byte_offset == 0
    }

    /// Whether the pages form whole segments.
    pub open spec fn segmented(self, size: u64) -> bool {
        crate::guest_backing_layout::chunks_ok(self.pages@, size as int, self.page_size as int)
    }
}

/// The backing that is made of a contiguous block.
pub open spec fn contiguous_model(
    size: u64,
    block: ContiguousBlock,
    mdl: usize,
) -> crate::guest_backing::BackingModel {
    let physical = (block.physical + alignment_gap(block.physical as int)) as u64;
    crate::guest_backing::BackingModel {
        allocation: Some(block.address),
        physical,
        size: size as u32,
        mdl,
        entries: seq![MemEntry { addr: physical, length: size as u32, padding: 0 }],
        mapping: None,
    }
}

/// The backing that is made of pages.
pub open spec fn chunked_model(size: u64, list: PageList) -> crate::guest_backing::BackingModel {
    crate::guest_backing::BackingModel {
        allocation: None,
        physical: (list.pages@[0] * list.page_size) as u64,
        size: size as u32,
        mdl: list.mdl,
        entries: chunk_entries(
            list.pages@,
            list.page_size as int,
            (size as int / CHUNK_SIZE as int) as nat,
        ),
        mapping: None,
    }
}

/// Whether `next` is the finished backing `model`.
pub open spec fn ready(next: Allocation, model: crate::guest_backing::BackingModel) -> bool {
    next matches Allocation::Ready(backing) && backing@ == model
}

/// Freeing a backing that could not be finished, with its total.
pub open spec fn abandon_effects(allocation: Option<usize>, mdl: usize) -> Seq<Effect> {
    crate::guest_backing::effects::free_effects(allocation, mdl).push(
        Effect::Count(Counter::Freed),
    )
}

fn abandon(allocation: Option<usize>, mdl: usize) -> (effects: Vec<Effect>)
    ensures
        effects@ == abandon_effects(allocation, mdl),
{
    then_do(free_backing(allocation, mdl), vec![Effect::Count(Counter::Freed)])
}

impl Allocation {
    /// The sizes are those of a backing, and the aligned part of the block lies
    /// inside it.
    pub open spec fn wf(self) -> bool {
        match self {
            Allocation::Contiguous { size } => crate::guest_backing::size_ok(size as int),
            Allocation::Describe { size, block, offset } => {
                &&& crate::guest_backing::size_ok(size as int)
                &&& offset == alignment_gap(block.physical as int)
                &&& block.physical + offset <= u64::MAX
                &&& block.address + offset + size <= usize::MAX
            },
            Allocation::Chunked { size } => crate::guest_backing::size_ok(size as int),
            Allocation::Ready(backing) => backing@.wf(),
            Allocation::Failed(_) => true,
        }
    }

    /// Whether `event` answers the request of this state. A block that the
    /// kernel hands out lies inside the address spaces.
    pub open spec fn awaits(self, event: AllocEvent) -> bool {
        match (self, event) {
            (Allocation::Contiguous { size }, AllocEvent::Block(answer)) => {
                answer matches Some(block) ==> {
                    &&& block.physical + alignment_gap(block.physical as int) <= u64::MAX
                    &&& block.address + size + ALIGN <= usize::MAX
                }
            },
            (Allocation::Describe { .. }, AllocEvent::Mdl(_)) => true,
            (Allocation::Chunked { .. }, AllocEvent::Pages(_)) => true,
            _ => false,
        }
    }

    /// What follows an answer, state and effects. `reserved` tells whether the
    /// memory of the entry list could be had.
    pub open spec fn follows(
        self,
        event: AllocEvent,
        pid: usize,
        reserved: bool,
        effects: Seq<Effect>,
        next: Allocation,
    ) -> bool {
        match (self, event) {
            (Allocation::Contiguous { size }, AllocEvent::Block(None)) => {
                &&& effects =~= seq![Effect::Count(Counter::ContigFail)]
                    + crate::guest_backing::effects::failure_effects(1, size, pid)
                &&& next == (Allocation::Chunked { size })
            },
            (Allocation::Contiguous { size }, AllocEvent::Block(Some(block))) => {
                let offset = alignment_gap(block.physical as int) as usize;
                &&& effects =~= seq![
                    Effect::ZeroBytes { address: (block.address + offset) as usize, bytes: size },
                ]
                &&& next == (Allocation::Describe { size, block, offset })
            },
            (Allocation::Describe { size, block, .. }, AllocEvent::Mdl(None)) => {
                &&& effects =~= seq![
                    Effect::FreeContiguous { address: block.address },
                    Effect::Count(Counter::MdlFail),
                ] + crate::guest_backing::effects::failure_effects(2, size, pid)
                &&& next == Allocation::Failed(BackingError::NoMemory)
            },
            (Allocation::Describe { size, block, .. }, AllocEvent::Mdl(Some(mdl))) => if reserved {
                &&& effects =~= seq![Effect::BuildMdl { mdl }]
                    + crate::guest_backing::effects::success_effects(size as u32)
                &&& ready(next, contiguous_model(size, block, mdl))
            } else {
                &&& effects =~= seq![Effect::BuildMdl { mdl }] + abandon_effects(
                    Some(block.address),
                    mdl,
                )
                &&& next == Allocation::Failed(BackingError::Reserve)
            },
            (Allocation::Chunked { size }, AllocEvent::Pages(None)) => {
                &&& effects =~= seq![Effect::Count(Counter::ChunkFail)]
                    + crate::guest_backing::effects::failure_effects(3, size, pid)
                &&& next == Allocation::Failed(BackingError::NoMemory)
            },
            (Allocation::Chunked { size }, AllocEvent::Pages(Some(list))) => if !list.described(
                size,
            ) {
                &&& effects =~= abandon_effects(None, list.mdl)
                &&& next == Allocation::Failed(BackingError::InvalidDeviceState)
            } else if !reserved {
                &&& effects =~= abandon_effects(None, list.mdl)
                &&& next == Allocation::Failed(BackingError::Reserve)
            } else if !list.segmented(size) {
                &&& effects =~= abandon_effects(None, list.mdl)
                &&& next == Allocation::Failed(BackingError::InvalidDeviceState)
            } else {
                &&& effects =~= seq![
                    Effect::Count(Counter::ChunkOk),
                    Effect::Record(
                        Note::LastChunkEntries,
                        (size as int / CHUNK_SIZE as int) as u32,
                    ),
                ] + crate::guest_backing::effects::success_effects(size as u32)
                &&& ready(next, chunked_model(size, list))
            },
            _ => false,
        }
    }

    /// What the state waits for.
    pub open spec fn wanted(self) -> Option<Request> {
        match self {
            Allocation::Contiguous { size } => Some(
                Request::Contiguous { bytes: (size + ALIGN) as u64, highest: HIGHEST },
            ),
            Allocation::Describe { size, block, offset } => Some(
                Request::Mdl { address: (block.address + offset) as usize, length: size as u32 },
            ),
            Allocation::Chunked { size } => Some(
                Request::Pages { lowest: 0, highest: HIGHEST, chunk: ALIGN, bytes: size },
            ),
            _ => None,
        }
    }

    /// The request that the state waits for.
    pub fn request(&self) -> (request: Option<Request>)
        requires
            self.wf(),
        ensures
            request == (match *self {
                Allocation::Contiguous { size } => Some(
                    Request::Contiguous { bytes: (size + ALIGN) as u64, highest: HIGHEST },
                ),
                Allocation::Describe { size, block, offset } => Some(
                    Request::Mdl { address: (block.address + offset) as usize, length: size as u32 },
                ),
                Allocation::Chunked { size } => Some(
                    Request::Pages { lowest: 0, highest: HIGHEST, chunk: ALIGN, bytes: size },
                ),
                _ => None,
            }),
            request == self.wanted(),
    {
        match self {
            Allocation::Contiguous { size } => Some(
                Request::Contiguous { bytes: *size + ALIGN, highest: HIGHEST },
            ),
            Allocation::Describe { size, block, offset } => Some(
                Request::Mdl { address: block.address + *offset, length: *size as u32 },
            ),
            Allocation::Chunked { size } => Some(
                Request::Pages { lowest: 0, highest: HIGHEST, chunk: ALIGN, bytes: *size },
            ),
            _ => None,
        }
    }
}

impl GuestBacking {
    /// Starts an allocation of `size` bytes. A 64 KiB-aligned start works with
    /// 4/16/64 KiB host pages. The BO size is negotiated separately; callers
    /// must provide a matching multiple.
    pub fn new(size: u64) -> (step: AllocStep)
        ensures
            step.effects@ == seq![Effect::ReapExited],
            step.next == (if crate::guest_backing::size_ok(size as int) {
                Allocation::Contiguous { size }
            } else {
                Allocation::Failed(BackingError::InvalidParameter)
            }),
            step.next.wf(),
            step.next == (if 0 < size <= 0xfffe_ffff && size % 65536 == 0 {
                Allocation::Contiguous { size }
            } else {
                Allocation::Failed(BackingError::InvalidParameter)
            }),
    {
        assert(size & 65535 == size % 65536) by (bit_vector);
        let effects: Vec<Effect> = vec![Effect::ReapExited];
        if size == 0 || size > u32::MAX as u64 - ALIGN || size & (ALIGN - 1) != 0 {
            return AllocStep { effects, next: Allocation::Failed(BackingError::InvalidParameter) };
        }
        AllocStep { effects, next: Allocation::Contiguous { size } }
    }
}

/// `Vec::try_reserve_exact` makes room for `additional` more elements, or tells
/// that it could not; either way the elements stay as they are. A success means
/// a capacity that holds them all. It does nothing where the capacity is already
/// sufficient, so asking for no more elements succeeds. Whether the allocator
/// has the memory for more is left unsaid.
#[verifier::external_body]
fn try_reserve_exact(entries: &mut Vec<MemEntry>, additional: usize) -> (reserved: bool)
    ensures
        final(entries)@ == old(entries)@,
        reserved ==> old(entries)@.len() + additional <= usize::MAX,
        additional == 0 ==> reserved,
{
    entries.try_reserve_exact(additional).is_ok()
}

/// An empty entry list with room for `count` entries, if there is memory. Room
/// for none is always there.
fn reserve_entries(count: usize) -> (entries: Option<Vec<MemEntry>>)
    ensures
        entries matches Some(list) ==> list@.len() == 0,
        count == 0 ==> entries is Some,
{
    let mut list: Vec<MemEntry> = Vec::new();
    if try_reserve_exact(&mut list, count) {
        Some(list)
    } else {
        None
    }
}

/// Equal segments add up.
proof fn lemma_total_of_equal_lengths(entries: Seq<MemEntry>, length: u32)
    requires
        forall|i: int| 0 <= i < entries.len() ==> (#[trigger] entries[i]).length == length,
    ensures
        crate::guest_backing::total_length(entries) == entries.len() * length,
    decreases entries.len(),
{
    if entries.len() > 0 {
        lemma_total_of_equal_lengths(entries.drop_last(), length);
        assert((entries.len() - 1) * length + length == entries.len() * length)
            by (nonlinear_arith);
    }
}

proof fn lemma_contiguous_wf(size: u64, block: ContiguousBlock, mdl: usize)
    requires
        crate::guest_backing::size_ok(size as int),
        block.physical + alignment_gap(block.physical as int) <= u64::MAX,
    ensures
        contiguous_model(size, block, mdl).wf(),
{
    let model = contiguous_model(size, block, mdl);
    lemma_total_of_equal_lengths(model.entries, size as u32);
    assert(model.entries.len() * model.size == model.size) by (nonlinear_arith)
        requires
            model.entries.len() == 1,
    ;
    assert((block.physical + alignment_gap(block.physical as int)) % ALIGN as int == 0);
}

proof fn lemma_chunked_wf(size: u64, list: PageList)
    requires
        crate::guest_backing::size_ok(size as int),
        list.segmented(size),
    ensures
        chunked_model(size, list).wf(),
{
    let model = chunked_model(size, list);
    let page_size = list.page_size as int;
    let per = CHUNK_SIZE as int / page_size;
    crate::guest_backing_layout::lemma_page_count(
        list.pages@.len() as int,
        size as int,
        page_size,
    );
    lemma_total_of_equal_lengths(model.entries, CHUNK_SIZE as u32);
    assert forall|c: int| 0 <= c < model.entries.len() implies (
    #[trigger] model.entries[c]).addr % CHUNK_SIZE as u64 == 0 by {
        assert(crate::guest_backing_layout::chunk_ok(list.pages@, c * per, per, page_size));
    }
    assert(0 * per == 0);
}

/// Appends the segments of the chunks of `pages`.
fn push_chunks(entries: &mut Vec<MemEntry>, pages: &[u64], size: u64, page_size: usize)
    requires
        old(entries)@.len() == 0,
        crate::guest_backing::size_ok(size as int),
        crate::guest_backing_layout::chunks_ok(pages@, size as int, page_size as int),
    ensures
        final(entries)@ == chunk_entries(
            pages@,
            page_size as int,
            (size as int / CHUNK_SIZE as int) as nat,
        ),
{
    let per: usize = CHUNK_SIZE / page_size;
    let count: usize = (size / CHUNK_SIZE as u64) as usize;
    proof {
        crate::guest_backing_layout::lemma_page_count(
            pages@.len() as int,
            size as int,
            page_size as int,
        );
    }
    let mut chunk: usize = 0;
    let mut first: usize = 0;
    while chunk < count
        invariant
            chunk <= count,
            first == chunk * per,
            per > 0,
            pages@.len() == count * per,
            per == CHUNK_SIZE as int / page_size as int,
            count == size as int / CHUNK_SIZE as int,
            crate::guest_backing_layout::chunks_ok(pages@, size as int, page_size as int),
            entries@ == chunk_entries(pages@, page_size as int, chunk as nat),
        decreases count - chunk,
    {
        assert(first + per <= pages@.len()) by (nonlinear_arith)
            requires
                first == chunk * per,
                chunk < count,
                pages@.len() == count * per,
        ;
        assert((chunk + 1) * per == chunk * per + per) by (nonlinear_arith);
        assert(crate::guest_backing_layout::chunk_ok(
            pages@,
            chunk as int * per,
            per as int,
            page_size as int,
        ));
        assert(pages@[first as int] * (page_size as u64) == pages@[first as int] * page_size);
        let addr: u64 = pages[first] * page_size as u64;
        entries.push(MemEntry { addr, length: CHUNK_SIZE as u32, padding: 0 });
        assert(entries@ =~= chunk_entries(pages@, page_size as int, (chunk + 1) as nat));
        first = first + per;
        chunk = chunk + 1;
    }
}

/// A finished contiguous backing, or its end for want of an entry list.
fn finish_contiguous(
    size: u64,
    block: ContiguousBlock,
    offset: usize,
    mdl: usize,
    reserved: Option<Vec<MemEntry>>,
) -> (step: AllocStep)
    requires
        (Allocation::Describe { size, block, offset }).wf(),
        reserved matches Some(list) ==> list@.len() == 0,
    ensures
        (Allocation::Describe { size, block, offset }).follows(
            AllocEvent::Mdl(Some(mdl)),
            0,
            reserved is Some,
            step.effects@,
            step.next,
        ),
        step.next.wf(),
{
    let built: Vec<Effect> = vec![Effect::BuildMdl { mdl }];
    match reserved {
        None => AllocStep {
            effects: then_do(built, abandon(Some(block.address), mdl)),
            next: Allocation::Failed(BackingError::Reserve),
        },
        Some(list) => {
            let mut entries: Vec<MemEntry> = list;
            let physical: u64 = block.physical + offset as u64;
            entries.push(MemEntry { addr: physical, length: size as u32, padding: 0 });
            proof {
                lemma_contiguous_wf(size, block, mdl);
                assert(entries@ =~= contiguous_model(size, block, mdl).entries);
            }
            AllocStep {
                effects: then_do(built, record_success(size as u32)),
                next: Allocation::Ready(
                    GuestBacking {
                        allocation: Some(block.address),
                        physical,
                        size: size as u32,
                        mdl,
                        entries,
                        mapping: None,
                    },
                ),
            }
        },
    }
}

/// A finished chunked backing, or its end for want of an entry list or for
/// pages that are no segments.
fn finish_chunked(size: u64, list: PageList, reserved: Option<Vec<MemEntry>>) -> (step: AllocStep)
    requires
        crate::guest_backing::size_ok(size as int),
        reserved matches Some(entries) ==> entries@.len() == 0,
    ensures
        (Allocation::Chunked { size }).follows(
            AllocEvent::Pages(Some(list)),
            0,
            reserved is Some,
            step.effects@,
            step.next,
        ),
        step.next.wf(),
{
    if list.byte_count as u64 != size || list.byte_offset != 0 {
        return AllocStep {
            effects: abandon(None, list.mdl),
            next: Allocation::Failed(BackingError::InvalidDeviceState),
        };
    }
    let mut entries: Vec<MemEntry> = match reserved {
        None => {
            return AllocStep {
                effects: abandon(None, list.mdl),
                next: Allocation::Failed(BackingError::Reserve),
            };
        },
        Some(entries) => entries,
    };
    if !valid_chunks(list.pages.as_slice(), size as usize, list.page_size) {
        return AllocStep {
            effects: abandon(None, list.mdl),
            next: Allocation::Failed(BackingError::InvalidDeviceState),
        };
    }
    push_chunks(&mut entries, list.pages.as_slice(), size, list.page_size);
    proof {
        lemma_chunked_wf(size, list);
        crate::guest_backing_layout::lemma_page_count(
            list.pages@.len() as int,
            size as int,
            list.page_size as int,
        );
        assert(0 * (CHUNK_SIZE as int / list.page_size as int) == 0);
    }
    let physical: u64 = entries[0].addr;
    let chunks: Vec<Effect> = vec![
        Effect::Count(Counter::ChunkOk),
        Effect::Record(Note::LastChunkEntries, entries.len() as u32),
    ];
    AllocStep {
        effects: then_do(chunks, record_success(size as u32)),
        next: Allocation::Ready(
            GuestBacking {
                allocation: None,
                physical,
                size: size as u32,
                mdl: list.mdl,
                entries,
                mapping: None,
            },
        ),
    }
}

impl Allocation {
    /// Goes on with an answer, given the entry list that was `reserved` for it,
    /// if any. `pid` is the process on whose behalf a failure is recorded.
    pub fn settle(
        self,
        event: AllocEvent,
        pid: usize,
        reserved: Option<Vec<MemEntry>>,
    ) -> (step: AllocStep)
        requires
            self.wf(),
            self.awaits(event),
            reserved matches Some(list) ==> list@.len() == 0,
        ensures
            self.follows(event, pid, reserved is Some, step.effects@, step.next),
            step.next.wf(),
    {
        match (self, event) {
            (Allocation::Contiguous { size }, AllocEvent::Block(None)) => AllocStep {
                effects: then_do(
                    vec![Effect::Count(Counter::ContigFail)],
                    record_alloc_failure(1, size, pid),
                ),
                next: Allocation::Chunked { size },
            },
            (Allocation::Contiguous { size }, AllocEvent::Block(Some(block))) => {
                let offset: usize = align_offset(block.physical);
                AllocStep {
                    effects: vec![Effect::ZeroBytes { address: block.address + offset, bytes: size }],
                    next: Allocation::Describe { size, block, offset },
                }
            },
            (Allocation::Describe { size, block, .. }, AllocEvent::Mdl(None)) => AllocStep {
                effects: then_do(
                    vec![
                        Effect::FreeContiguous { address: block.address },
                        Effect::Count(Counter::MdlFail),
                    ],
                    record_alloc_failure(2, size, pid),
                ),
                next: Allocation::Failed(BackingError::NoMemory),
            },
            (
                Allocation::Describe { size, block, offset },
                AllocEvent::Mdl(Some(mdl)),
            ) => finish_contiguous(size, block, offset, mdl, reserved),
            (Allocation::Chunked { size }, AllocEvent::Pages(None)) => AllocStep {
                effects: then_do(
                    vec![Effect::Count(Counter::ChunkFail)],
                    record_alloc_failure(3, size, pid),
                ),
                next: Allocation::Failed(BackingError::NoMemory),
            },
            (Allocation::Chunked { size }, AllocEvent::Pages(Some(list))) => finish_chunked(
                size,
                list,
                reserved,
            ),
            (state, _) => AllocStep { effects: Vec::new(), next: state },
        }
    }

    /// The number of entries that going on with `event` takes.
    fn entries_needed(&self, event: &AllocEvent) -> (count: Option<usize>)
        requires
            self.wf(),
            self.awaits(*event),
        ensures
            count == (match (*self, *event) {
                (Allocation::Describe { .. }, AllocEvent::Mdl(Some(_))) => Some(1usize),
                (Allocation::Chunked { size }, AllocEvent::Pages(Some(list))) => if list.described(
                    size,
                ) {
                    Some((size as int / CHUNK_SIZE as int) as usize)
                } else {
                    None
                },
                _ => None,
            }),
    {
        match (self, event) {
            (Allocation::Describe { .. }, AllocEvent::Mdl(Some(_))) => Some(1),
            (Allocation::Chunked { size }, AllocEvent::Pages(Some(list))) => {
                if list.byte_count as u64 != *size || list.byte_offset != 0 {
                    None
                } else {
                    Some((*size / CHUNK_SIZE as u64) as usize)
                }
            },
            _ => None,
        }
    }

    /// Goes on with an answer, reserving the entry list where one is needed.
    pub fn step(self, event: AllocEvent, pid: usize) -> (step: AllocStep)
        requires
            self.wf(),
            self.awaits(event),
        ensures
            exists|reserved: bool| #[trigger]
                self.follows(event, pid, reserved, step.effects@, step.next),
            step.next.wf(),
    {
        let reserved: Option<Vec<MemEntry>> = match self.entries_needed(&event) {
            Some(count) => reserve_entries(count),
            None => None,
        };
        self.settle(event, pid, reserved)
    }
}

} // verus!
