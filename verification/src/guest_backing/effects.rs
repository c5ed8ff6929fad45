//! What the caller does to the machine for a backing, in order.

use vstd::prelude::*;

verus! {

/// The running totals kept about backings.
#[derive(Clone, Copy, PartialEq, Eq, Structural, Debug)]
pub enum Counter {
    AllocOk,
    ContigFail,
    MdlFail,
    Freed,
    RetainedMapped,
    ChunkOk,
    Deferred,
    Reaped,
    DropUnmap,
    ChunkFail,
}

impl Counter {
    /// The value name of the total.
    pub open spec fn label(self) -> Seq<char> {
        match self {
            Counter::AllocOk => "GuestBackingOkCount"@,
            Counter::ContigFail => "GuestBackingContigFailCount"@,
            Counter::MdlFail => "GuestBackingMdlFailCount"@,
            Counter::Freed => "GuestBackingFreedCount"@,
            Counter::RetainedMapped => "GuestBackingRetainedMappedCount"@,
            Counter::ChunkOk => "GuestBackingChunkOkCount"@,
            Counter::Deferred => "GuestBackingDeferredCount"@,
            Counter::Reaped => "GuestBackingReapedCount"@,
            Counter::DropUnmap => "GuestBackingDropUnmapCount"@,
            Counter::ChunkFail => "GuestBackingChunkFailCount"@,
        }
    }

    /// The value name.
    pub fn name(self) -> (name: &'static str)
        ensures
            name@ == self.label(),
    {
        match self {
            Counter::AllocOk => "GuestBackingOkCount",
            Counter::ContigFail => "GuestBackingContigFailCount",
            Counter::MdlFail => "GuestBackingMdlFailCount",
            Counter::Freed => "GuestBackingFreedCount",
            Counter::RetainedMapped => "GuestBackingRetainedMappedCount",
            Counter::ChunkOk => "GuestBackingChunkOkCount",
            Counter::Deferred => "GuestBackingDeferredCount",
            Counter::Reaped => "GuestBackingReapedCount",
            Counter::DropUnmap => "GuestBackingDropUnmapCount",
            Counter::ChunkFail => "GuestBackingChunkFailCount",
        }
    }
}

/// The single values recorded about backings.
#[derive(Clone, Copy, PartialEq, Eq, Structural, Debug)]
pub enum Note {
    FailStage,
    FailSize,
    FailPid,
    LastOkSize,
    LastChunkEntries,
    LastRetainedSize,
}

impl Note {
    /// The value name of the note.
    pub open spec fn label(self) -> Seq<char> {
        match self {
            Note::FailStage => "GuestBackingFailStage"@,
            Note::FailSize => "GuestBackingFailSize"@,
            Note::FailPid => "GuestBackingFailPid"@,
            Note::LastOkSize => "GuestBackingLastOkSize"@,
            Note::LastChunkEntries => "GuestBackingLastChunkEntries"@,
            Note::LastRetainedSize => "GuestBackingLastRetainedSize"@,
        }
    }

    /// The value name.
    pub fn name(self) -> (name: &'static str)
        ensures
            name@ == self.label(),
    {
        match self {
            Note::FailStage => "GuestBackingFailStage",
            Note::FailSize => "GuestBackingFailSize",
            Note::FailPid => "GuestBackingFailPid",
            Note::LastOkSize => "GuestBackingLastOkSize",
            Note::LastChunkEntries => "GuestBackingLastChunkEntries",
            Note::LastRetainedSize => "GuestBackingLastRetainedSize",
        }
    }
}

/// One thing to do. Addresses, MDLs and process objects are given by address.
#[derive(Clone, Copy, PartialEq, Eq, Structural, Debug)]
pub enum Effect {
    /// Free the backings whose processes have exited.
    ReapExited,
    /// Clear memory.
    ZeroBytes { address: usize, bytes: u64 },
    /// Fill in an MDL that describes nonpaged memory.
    BuildMdl { mdl: usize },
    /// Give back a contiguous block.
    FreeContiguous { address: usize },
    /// Free an MDL that was allocated on its own.
    FreeMdl { mdl: usize },
    /// Give back the pages that an MDL was allocated with.
    FreePages { mdl: usize },
    /// Free the pool memory of an MDL that was allocated with its pages.
    FreePool { mdl: usize },
    /// Remove a user mapping.
    UnmapPages { mdl: usize, address: usize },
    /// Keep a process object.
    ReferenceProcess { process: usize },
    /// Let go of a process object.
    DereferenceProcess { process: usize },
    /// Add one to a total and publish it.
    Count(Counter),
    /// Publish a value.
    Record(Note, u32),
}

/// What gives the memory and the MDL of a backing back. Pages that came with
/// their MDL have free routines of their own.
pub open spec fn free_effects(allocation: Option<usize>, mdl: usize) -> Seq<Effect> {
    match allocation {
        Some(address) => seq![Effect::FreeContiguous { address }, Effect::FreeMdl { mdl }],
        None => seq![Effect::FreePages { mdl }, Effect::FreePool { mdl }],
    }
}

/// Gives the memory and the MDL of a backing back.
pub fn free_backing(allocation: Option<usize>, mdl: usize) -> (effects: Vec<Effect>)
    ensures
        effects@ == free_effects(allocation, mdl),
{
    match allocation {
        Some(address) => vec![Effect::FreeContiguous { address }, Effect::FreeMdl { mdl }],
        None => vec![Effect::FreePages { mdl }, Effect::FreePool { mdl }],
    }
}

/// What is recorded about a failed allocation: the stage, and the low 32 bits
/// of the size and of the process id.
pub open spec fn failure_effects(stage: u32, size: u64, pid: usize) -> Seq<Effect> {
    seq![
        Effect::Record(Note::FailStage, stage),
        Effect::Record(Note::FailSize, (size as int % 0x1_0000_0000) as u32),
        Effect::Record(Note::FailPid, (pid as int % 0x1_0000_0000) as u32),
    ]
}

/// Records a failed allocation.
pub fn record_alloc_failure(stage: u32, size: u64, pid: usize) -> (effects: Vec<Effect>)
    ensures
        effects@ == failure_effects(stage, size, pid),
{
    vec![
        Effect::Record(Note::FailStage, stage),
        Effect::Record(Note::FailSize, (size % 0x1_0000_0000) as u32),
        Effect::Record(Note::FailPid, (pid as u64 % 0x1_0000_0000) as u32),
    ]
}

/// What is recorded about a successful allocation.
pub open spec fn success_effects(size: u32) -> Seq<Effect> {
    seq![Effect::Count(Counter::AllocOk), Effect::Record(Note::LastOkSize, size)]
}

/// Records a successful allocation.
pub fn record_success(size: u32) -> (effects: Vec<Effect>)
    ensures
        effects@ == success_effects(size),
{
    vec![Effect::Count(Counter::AllocOk), Effect::Record(Note::LastOkSize, size)]
}

/// `first`, then `second`.
pub(crate) fn then_do(first: Vec<Effect>, second: Vec<Effect>) -> (effects: Vec<Effect>)
    ensures
        effects@ == first@ + second@,
{
    let mut effects: Vec<Effect> = first;
    let mut rest: Vec<Effect> = second;
    effects.append(&mut rest);
    effects
}

} // verus!
