//! Windows-owned contiguous backing for guest-allocated DRM BOs.
//! The current pseudo-unprotected VM shares ordinary guest RAM with the host.
//! Keep pages and the MDL alive until RESOURCE_UNREF and allocation teardown.
//!
//! The types and functions here decide; the caller makes the kernel calls and
//! carries out the effects, in order.

use crate::guest_backing::effects::{free_backing, then_do, Counter, Effect, Note};
use crate::guest_backing_layout::CHUNK_SIZE;
use crate::status::BackingError;
use vstd::prelude::*;

pub mod allocation;
pub mod allocation_laws;
pub mod effects;
pub mod laws;
pub mod reaper;

verus! {

/// Highest IRQL at which a user mapping may be removed.
pub const APC_LEVEL: u8 = 1;

/// One segment of guest memory, as the device is told of it.
#[derive(Clone, Copy, PartialEq, Eq, Structural, Debug)]
pub struct MemEntry {
    pub addr: u64,
    pub length: u32,
    pub padding: u32,
}

/// A backing and its user mapping.
pub struct GuestBacking {
    /// Address of the contiguous block. `None` means that pages and MDL were
    /// allocated together, with free routines of their own.
    pub allocation: Option<usize>,
    pub physical: u64,
    pub size: u32,
    pub mdl: usize,
    pub entries: Vec<MemEntry>,
    /// User address and referenced process object of the mapping.
    pub mapping: Option<(usize, usize)>,
}

/// What a backing holds.
pub struct BackingModel {
    pub allocation: Option<usize>,
    pub physical: u64,
    pub size: u32,
    pub mdl: usize,
    pub entries: Seq<MemEntry>,
    pub mapping: Option<(usize, usize)>,
}

/// A backing that waits for its process to exit. The mapping owns a referenced
/// process object, not a reusable PID.
#[derive(Clone, Copy, PartialEq, Eq, Structural, Debug)]
pub struct DeferredBacking {
    pub allocation: Option<usize>,
    pub mdl: usize,
    pub process: usize,
}

/// How an attempt to map the pages into the current process ended.
#[derive(Clone, Copy, PartialEq, Eq, Structural, Debug)]
pub enum MapOutcome {
    /// The user address of the pages.
    Mapped(usize),
    /// The memory manager found no room.
    NoAddress,
    /// The memory manager raised an exception with this code.
    Raised(u32),
}

impl View for GuestBacking {
    type V = BackingModel;

    open spec fn view(&self) -> BackingModel {
        BackingModel {
            allocation: self.allocation,
            physical: self.physical,
            size: self.size,
            mdl: self.mdl,
            entries: self.entries@,
            mapping: self.mapping,
        }
    }
}

/// Bytes described by a list of segments.
pub open spec fn total_length(entries: Seq<MemEntry>) -> int
    decreases entries.len(),
{
    if entries.len() == 0 {
        0
    } else {
        total_length(entries.drop_last()) + entries.last().length
    }
}

/// A size that a backing can have: a positive multiple of 64 KiB that leaves
/// room for alignment below 4 GiB.
pub open spec fn size_ok(size: int) -> bool {
    &&& 0 < size <= u32::MAX - CHUNK_SIZE
    &&& size % CHUNK_SIZE as int == 0
}

impl BackingModel {
    /// The segments start on 64 KiB boundaries, together they are exactly the
    /// backing, and the first one is where it starts. A contiguous block is one
    /// segment; pages are advertised by segments of 64 KiB.
    pub open spec fn wf(self) -> bool {
        &&& size_ok(self.size as int)
        &&& self.entries.len() > 0
        &&& self.entries[0].addr == self.physical
        &&& total_length(self.entries) == self.size
        &&& forall|i: int|
            0 <= i < self.entries.len() ==> {
                &&& (#[trigger] self.entries[i]).addr % CHUNK_SIZE as u64 == 0
                &&& self.entries[i].length > 0
                &&& self.entries[i].padding == 0
            }
        &&& self.allocation is Some ==> self.entries.len() == 1
        &&& self.allocation is None ==> forall|i: int|
            0 <= i < self.entries.len() ==> (#[trigger] self.entries[i]).length == CHUNK_SIZE
    }

    /// The backing with another mapping.
    pub open spec fn with_mapping(self, mapping: Option<(usize, usize)>) -> BackingModel {
        BackingModel { mapping, ..self }
    }

    /// What an attempt to map the backing comes to: the user address and the
    /// reference kept on the process.
    pub open spec fn map_result(self, outcome: MapOutcome, process: usize) -> Result<
        (usize, Effect),
        BackingError,
    > {
        if self.mapping is Some {
            Err(BackingError::AlreadyCommitted)
        } else {
            match outcome {
                MapOutcome::Mapped(address) => Ok((address, Effect::ReferenceProcess { process })),
                MapOutcome::NoAddress => Err(BackingError::NoMemory),
                MapOutcome::Raised(code) => Err(BackingError::Exception(code)),
            }
        }
    }

    /// The backing after an attempt to map it.
    pub open spec fn after_map(self, outcome: MapOutcome, process: usize) -> BackingModel {
        match self.map_result(outcome, process) {
            Ok((address, _)) => self.with_mapping(Some((address, process))),
            Err(_) => self,
        }
    }

    /// Whether `process` mapped the backing at `address`.
    pub open spec fn mapped_by(self, address: usize, process: usize) -> bool {
        self.mapping == Some((address, process))
    }

    /// What removes the mapping.
    pub open spec fn unmap_effects(self, address: usize, process: usize) -> Seq<Effect> {
        seq![
            Effect::UnmapPages { mdl: self.mdl, address },
            Effect::DereferenceProcess { process },
        ]
    }

    /// What remains to be freed once the process of the mapping has exited.
    pub open spec fn deferred(self, process: usize) -> DeferredBacking {
        DeferredBacking { allocation: self.allocation, mdl: self.mdl, process }
    }
}

/// Whether a mapping can be removed here and now.
pub open spec fn can_unmap(mapped_by: usize, process: usize, irql: u8) -> bool {
    mapped_by == process && irql <= APC_LEVEL
}

/// Whether releasing a backing gives its memory back at once.
pub open spec fn freed_at_once(backing: BackingModel, process: usize, irql: u8) -> bool {
    match backing.mapping {
        None => true,
        Some((_, mapped_by)) => can_unmap(mapped_by, process, irql),
    }
}

/// What is done on release. `queued` tells whether there was room to defer.
pub open spec fn release_effects(
    backing: BackingModel,
    process: usize,
    irql: u8,
    queued: bool,
) -> Seq<Effect> {
    let freed = free_effects_and_count(backing);
    match backing.mapping {
        None => freed,
        Some((address, mapped_by)) => if can_unmap(mapped_by, process, irql) {
            seq![
                Effect::UnmapPages { mdl: backing.mdl, address },
                Effect::DereferenceProcess { process: mapped_by },
                Effect::Count(Counter::DropUnmap),
            ] + freed
        } else if queued {
            seq![Effect::Count(Counter::Deferred)]
        } else {
            seq![
                Effect::Count(Counter::RetainedMapped),
                Effect::Record(Note::LastRetainedSize, backing.size),
            ]
        },
    }
}

/// Freeing a backing, with its total.
pub open spec fn free_effects_and_count(backing: BackingModel) -> Seq<Effect> {
    crate::guest_backing::effects::free_effects(backing.allocation, backing.mdl).push(
        Effect::Count(Counter::Freed),
    )
}

/// The queue of deferred backings after a release.
pub open spec fn release_queue(
    backing: BackingModel,
    process: usize,
    irql: u8,
    queued: bool,
    pending: Seq<DeferredBacking>,
) -> Seq<DeferredBacking> {
    match backing.mapping {
        Some((_, mapped_by)) if !can_unmap(mapped_by, process, irql) && queued => pending.push(
            backing.deferred(mapped_by),
        ),
        _ => pending,
    }
}

impl GuestBacking {
    /// The segments that the device is told of.
    pub fn entries(&self) -> (entries: &[MemEntry])
        ensures
            entries@ == self@.entries,
    {
        self.entries.as_slice()
    }

    /// The MDL to map into the current process; a backing is mapped at most
    /// once at a time.
    pub fn map_request(&self) -> (mdl: Result<usize, BackingError>)
        ensures
            mdl == (if self@.mapping is Some {
                Err::<usize, BackingError>(BackingError::AlreadyCommitted)
            } else {
                Ok(self@.mdl)
            }),
    {
        if self.mapping.is_some() {
            Err(BackingError::AlreadyCommitted)
        } else {
            Ok(self.mdl)
        }
    }

    /// Takes up the mapping that `process` asked for: its address, and the
    /// reference that it keeps on the process.
    pub fn map(&mut self, outcome: MapOutcome, process: usize) -> (mapped: Result<
        (usize, Effect),
        BackingError,
    >)
        ensures
            mapped == old(self)@.map_result(outcome, process),
            final(self)@ == old(self)@.after_map(outcome, process),
    {
        if self.mapping.is_some() {
            return Err(BackingError::AlreadyCommitted);
        }
        match outcome {
            MapOutcome::Mapped(address) => {
                self.mapping = Some((address, process));
                Ok((address, Effect::ReferenceProcess { process }))
            },
            MapOutcome::NoAddress => Err(BackingError::NoMemory),
            MapOutcome::Raised(code) => Err(BackingError::Exception(code)),
        }
    }

    /// Removes the mapping at `address`, on behalf of the process that made it.
    pub fn unmap(&mut self, address: usize, process: usize) -> (unmapped: Result<
        Vec<Effect>,
        BackingError,
    >)
        ensures
            unmapped is Ok <==> old(self)@.mapped_by(address, process),
            unmapped matches Ok(effects) ==> {
                &&& effects@ == old(self)@.unmap_effects(address, process)
                &&& final(self)@ == old(self)@.with_mapping(None)
            },
            unmapped matches Ok(effects) ==> {
                &&& effects@.len() == 2
                &&& effects@[0] == (Effect::UnmapPages { mdl: old(self).mdl, address })
                &&& effects@[1] == (Effect::DereferenceProcess { process })
            },
            unmapped matches Err(error) ==> {
                &&& error == BackingError::InvalidParameter
                &&& final(self)@ == old(self)@
            },
    {
        let owned: bool = match self.mapping {
            Some((mapped_at, mapped_by)) => mapped_at == address && mapped_by == process,
            None => false,
        };
        if !owned {
            return Err(BackingError::InvalidParameter);
        }
        self.mapping = None;
        Ok(
            vec![
                Effect::UnmapPages { mdl: self.mdl, address },
                Effect::DereferenceProcess { process },
            ],
        )
    }

    /// Whether a release gives the memory back at once: nothing is mapped, or
    /// the mapping can be removed here and now.
    pub fn frees_at_once(&self, process: usize, irql: u8) -> (at_once: bool)
        ensures
            at_once == freed_at_once(self@, process, irql),
            at_once <==> (self.mapping matches Some((_, mapped_by)) ==> mapped_by == process
                && irql <= 1),
    {
        match self.mapping {
            None => true,
            Some((_, mapped_by)) => mapped_by == process && irql <= APC_LEVEL,
        }
    }

    /// Releases the backing, given whether a place in the queue was `reserved`.
    ///
    /// Host access has already been retired by RESOURCE_UNREF. A mapping that
    /// cannot be removed from here keeps the pages until the user VA can no
    /// longer exist; without room in the queue retaining them is safer than
    /// freeing RAM with a live mapping.
    pub fn release_reserved(
        self,
        process: usize,
        irql: u8,
        pending: &mut Vec<DeferredBacking>,
        reserved: bool,
    ) -> (effects: Vec<Effect>)
        ensures
            effects@ == release_effects(self@, process, irql, reserved),
            final(pending)@ == release_queue(self@, process, irql, reserved, old(pending)@),
    {
        match self.mapping {
            None => then_do(
                free_backing(self.allocation, self.mdl),
                vec![Effect::Count(Counter::Freed)],
            ),
            Some((address, mapped_by)) => if mapped_by == process && irql <= APC_LEVEL {
                let unmap: Vec<Effect> = vec![
                    Effect::UnmapPages { mdl: self.mdl, address },
                    Effect::DereferenceProcess { process: mapped_by },
                    Effect::Count(Counter::DropUnmap),
                ];
                let free: Vec<Effect> = then_do(
                    free_backing(self.allocation, self.mdl),
                    vec![Effect::Count(Counter::Freed)],
                );
                then_do(unmap, free)
            } else if reserved {
                pending.push(
                    DeferredBacking {
                        allocation: self.allocation,
                        mdl: self.mdl,
                        process: mapped_by,
                    },
                );
                vec![Effect::Count(Counter::Deferred)]
            } else {
                vec![
                    Effect::Count(Counter::RetainedMapped),
                    Effect::Record(Note::LastRetainedSize, self.size),
                ]
            },
        }
    }

    /// Releases the backing. The queue grows if its memory can be reserved.
    pub fn release(
        self,
        process: usize,
        irql: u8,
        pending: &mut Vec<DeferredBacking>,
    ) -> (effects: Vec<Effect>)
        ensures
            exists|queued: bool|
                {
                    &&& effects@ == #[trigger] release_effects(self@, process, irql, queued)
                    &&& final(pending)@ == release_queue(
                        self@,
                        process,
                        irql,
                        queued,
                        old(pending)@,
                    )
                },
            freed_at_once(self@, process, irql) ==> {
                &&& effects@ == release_effects(self@, process, irql, true)
                &&& final(pending)@ == old(pending)@
            },
    {
        let reserved: bool = if self.frees_at_once(process, irql) {
            false
        } else {
            pending.try_reserve(1).is_ok()
        };
        let ghost model = self@;
        let effects: Vec<Effect> = self.release_reserved(process, irql, pending, reserved);
        assert(effects@ == release_effects(model, process, irql, reserved));
        effects
    }
}

} // verus!
