use gpu_wddm::guest_backing::allocation::{
    align_offset, AllocEvent, AllocStep, Allocation, ContiguousBlock, PageList, Request,
};
use gpu_wddm::guest_backing::effects::{
    free_backing, record_alloc_failure, record_success, Counter, Effect, Note,
};
use gpu_wddm::guest_backing::reaper::{reap_exited_backings, retire, take_exited};
use gpu_wddm::guest_backing::{DeferredBacking, GuestBacking, MapOutcome, MemEntry};
use gpu_wddm::status::{wait_satisfied, BackingError};

const HIGHEST: u64 = 0xFFFFFFFFFF;

fn failed(step: AllocStep) -> (Vec<Effect>, BackingError) {
    match step.next {
        Allocation::Failed(error) => (step.effects, error),
        _ => panic!("the allocation did not fail"),
    }
}

fn ready(step: AllocStep) -> (Vec<Effect>, GuestBacking) {
    match step.next {
        Allocation::Ready(backing) => (step.effects, backing),
        _ => panic!("the allocation did not finish"),
    }
}

fn pages(list: Vec<u64>, bytes: u32) -> PageList {
    PageList { mdl: 70, byte_count: bytes, byte_offset: 0, page_size: 4096, pages: list }
}

fn contiguous() -> GuestBacking {
    let block = ContiguousBlock { address: 0x10_0000, physical: 0x1_2345_6000 };
    let step = GuestBacking::new(131072);
    let step = step.next.step(AllocEvent::Block(Some(block)), 0);
    ready(step.next.step(AllocEvent::Mdl(Some(60)), 0)).1
}

fn chunked_state(size: u64) -> Allocation {
    GuestBacking::new(size).next.step(AllocEvent::Block(None), 0).next
}

fn failure(stage: u32, size: u32, pid: u32) -> Vec<Effect> {
    vec![
        Effect::Record(Note::FailStage, stage),
        Effect::Record(Note::FailSize, size),
        Effect::Record(Note::FailPid, pid),
    ]
}

#[test]
fn sizes_are_checked_after_reaping() {
    for size in [0, 1, 65535, 65537, u32::MAX as u64 - 65535, 0xFFFF_0000, u64::MAX, 1 << 32] {
        let (effects, error) = failed(GuestBacking::new(size));
        assert_eq!(effects, [Effect::ReapExited]);
        assert_eq!(error, BackingError::InvalidParameter);
    }
    for size in [65536, 0xFFFE_0000] {
        let step = GuestBacking::new(size);
        assert_eq!(step.effects, [Effect::ReapExited]);
        assert_eq!(
            step.next.request(),
            Some(Request::Contiguous { bytes: size + 65536, highest: HIGHEST })
        );
    }
}

#[test]
fn alignment_reaches_the_next_boundary() {
    assert_eq!(align_offset(0), 0);
    assert_eq!(align_offset(65536), 0);
    assert_eq!(align_offset(1), 65535);
    assert_eq!(align_offset(0x1_2345_6000), 0xA000);
    assert_eq!(align_offset(u64::MAX), 1);
}

#[test]
fn a_contiguous_block_becomes_one_segment() {
    let block = ContiguousBlock { address: 0x10_0000, physical: 0x1_2345_6000 };
    let step = GuestBacking::new(131072).next.step(AllocEvent::Block(Some(block)), 0);
    assert_eq!(step.effects, [Effect::ZeroBytes { address: 0x10_A000, bytes: 131072 }]);
    assert_eq!(step.next.request(), Some(Request::Mdl { address: 0x10_A000, length: 131072 }));
    let (effects, backing) = ready(step.next.step(AllocEvent::Mdl(Some(60)), 0));
    assert_eq!(
        effects,
        [
            Effect::BuildMdl { mdl: 60 },
            Effect::Count(Counter::AllocOk),
            Effect::Record(Note::LastOkSize, 131072),
        ]
    );
    assert_eq!(backing.allocation, Some(0x10_0000));
    assert_eq!((backing.physical, backing.size, backing.mdl), (0x1_2346_0000, 131072, 60));
    assert_eq!(
        backing.entries(),
        [MemEntry { addr: 0x1_2346_0000, length: 131072, padding: 0 }]
    );
    assert_eq!(backing.mapping, None);
}

#[test]
fn a_missing_mdl_frees_the_block() {
    let block = ContiguousBlock { address: 0x10_0000, physical: 0 };
    let step = GuestBacking::new(65536).next.step(AllocEvent::Block(Some(block)), 0);
    let (effects, error) = failed(step.next.step(AllocEvent::Mdl(None), 9));
    let mut expected = vec![
        Effect::FreeContiguous { address: 0x10_0000 },
        Effect::Count(Counter::MdlFail),
    ];
    expected.extend(failure(2, 65536, 9));
    assert_eq!(effects, expected);
    assert_eq!(error, BackingError::NoMemory);
}

#[test]
fn a_missing_entry_list_frees_block_and_mdl() {
    let block = ContiguousBlock { address: 0x10_0000, physical: 0 };
    let step = GuestBacking::new(65536).next.step(AllocEvent::Block(Some(block)), 0);
    let (effects, error) = failed(step.next.settle(AllocEvent::Mdl(Some(60)), 9, None));
    assert_eq!(
        effects,
        [
            Effect::BuildMdl { mdl: 60 },
            Effect::FreeContiguous { address: 0x10_0000 },
            Effect::FreeMdl { mdl: 60 },
            Effect::Count(Counter::Freed),
        ]
    );
    assert_eq!(error, BackingError::Reserve);
}

#[test]
fn without_a_block_pages_are_asked_for() {
    let step = GuestBacking::new(131072).next.step(AllocEvent::Block(None), 0x1_0000_0007);
    let mut expected = vec![Effect::Count(Counter::ContigFail)];
    expected.extend(failure(1, 131072, 7));
    assert_eq!(step.effects, expected);
    assert_eq!(
        step.next.request(),
        Some(Request::Pages { lowest: 0, highest: HIGHEST, chunk: 65536, bytes: 131072 })
    );
    let (effects, error) = failed(step.next.step(AllocEvent::Pages(None), 8));
    let mut expected = vec![Effect::Count(Counter::ChunkFail)];
    expected.extend(failure(3, 131072, 8));
    assert_eq!(effects, expected);
    assert_eq!(error, BackingError::NoMemory);
}

#[test]
fn pages_become_segments() {
    let list = pages((128..144).chain(16..32).collect(), 131072);
    let (effects, backing) =
        ready(chunked_state(131072).step(AllocEvent::Pages(Some(list)), 0));
    assert_eq!(
        effects,
        [
            Effect::Count(Counter::ChunkOk),
            Effect::Record(Note::LastChunkEntries, 2),
            Effect::Count(Counter::AllocOk),
            Effect::Record(Note::LastOkSize, 131072),
        ]
    );
    assert_eq!(backing.allocation, None);
    assert_eq!((backing.physical, backing.size, backing.mdl), (128 * 4096, 131072, 70));
    assert_eq!(
        backing.entries(),
        [
            MemEntry { addr: 128 * 4096, length: 65536, padding: 0 },
            MemEntry { addr: 16 * 4096, length: 65536, padding: 0 },
        ]
    );
    let total: u64 = backing.entries().iter().map(|e| e.length as u64).sum();
    assert_eq!(total, 131072);
}

#[test]
fn unusable_pages_are_given_back() {
    let given_back = [
        Effect::FreePages { mdl: 70 },
        Effect::FreePool { mdl: 70 },
        Effect::Count(Counter::Freed),
    ];
    let short = pages((16..32).collect(), 65535);
    let mut shifted = pages((16..32).collect(), 65536);
    shifted.byte_offset = 1;
    let misaligned = pages((17..33).collect(), 65536);
    for list in [short, shifted, misaligned] {
        let (effects, error) = failed(chunked_state(65536).step(AllocEvent::Pages(Some(list)), 0));
        assert_eq!(effects, given_back);
        assert_eq!(error, BackingError::InvalidDeviceState);
    }
    let unlisted = pages((17..33).collect(), 65536);
    let (effects, error) =
        failed(chunked_state(65536).settle(AllocEvent::Pages(Some(unlisted)), 0, None));
    assert_eq!(effects, given_back);
    assert_eq!(error, BackingError::Reserve);
}

#[test]
fn a_backing_is_mapped_once_and_unmapped_by_its_process() {
    let mut backing = contiguous();
    assert_eq!(backing.map_request(), Ok(60));
    assert_eq!(backing.map(MapOutcome::NoAddress, 5), Err(BackingError::NoMemory));
    assert_eq!(backing.map(MapOutcome::Raised(3), 5), Err(BackingError::Exception(3)));
    assert_eq!(backing.mapping, None);
    assert_eq!(
        backing.map(MapOutcome::Mapped(0x7000), 5),
        Ok((0x7000, Effect::ReferenceProcess { process: 5 }))
    );
    assert_eq!(backing.map_request(), Err(BackingError::AlreadyCommitted));
    assert_eq!(backing.map(MapOutcome::Mapped(0x8000), 5), Err(BackingError::AlreadyCommitted));
    assert_eq!(backing.unmap(0x7000, 6), Err(BackingError::InvalidParameter));
    assert_eq!(backing.unmap(0x8000, 5), Err(BackingError::InvalidParameter));
    assert_eq!(backing.mapping, Some((0x7000, 5)));
    assert_eq!(
        backing.unmap(0x7000, 5),
        Ok(vec![
            Effect::UnmapPages { mdl: 60, address: 0x7000 },
            Effect::DereferenceProcess { process: 5 },
        ])
    );
    assert_eq!(backing.mapping, None);
    assert_eq!(backing.unmap(0x7000, 5), Err(BackingError::InvalidParameter));
}

#[test]
fn an_unmapped_backing_is_freed_on_release() {
    let mut pending = Vec::new();
    let backing = contiguous();
    assert!(backing.frees_at_once(5, 2));
    assert_eq!(
        backing.release(5, 2, &mut pending),
        [
            Effect::FreeContiguous { address: 0x10_0000 },
            Effect::FreeMdl { mdl: 60 },
            Effect::Count(Counter::Freed),
        ]
    );
    assert!(pending.is_empty());
}

#[test]
fn the_mapping_process_unmaps_before_it_frees() {
    let mut pending = Vec::new();
    let mut backing = contiguous();
    backing.map(MapOutcome::Mapped(0x7000), 5).unwrap();
    assert!(backing.frees_at_once(5, 1));
    assert_eq!(
        backing.release(5, 1, &mut pending),
        [
            Effect::UnmapPages { mdl: 60, address: 0x7000 },
            Effect::DereferenceProcess { process: 5 },
            Effect::Count(Counter::DropUnmap),
            Effect::FreeContiguous { address: 0x10_0000 },
            Effect::FreeMdl { mdl: 60 },
            Effect::Count(Counter::Freed),
        ]
    );
    assert!(pending.is_empty());
}

#[test]
fn a_live_mapping_defers_the_release() {
    for (process, irql) in [(6, 0), (5, 2)] {
        let mut pending = Vec::new();
        let mut backing = contiguous();
        backing.map(MapOutcome::Mapped(0x7000), 5).unwrap();
        assert!(!backing.frees_at_once(process, irql));
        let effects = backing.release(process, irql, &mut pending);
        assert_eq!(effects, [Effect::Count(Counter::Deferred)]);
        assert_eq!(
            pending,
            [DeferredBacking { allocation: Some(0x10_0000), mdl: 60, process: 5 }]
        );
    }
}

#[test]
fn without_room_in_the_queue_the_memory_is_retained() {
    let mut pending = Vec::new();
    let mut backing = contiguous();
    backing.map(MapOutcome::Mapped(0x7000), 5).unwrap();
    assert_eq!(
        backing.release_reserved(6, 0, &mut pending, false),
        [
            Effect::Count(Counter::RetainedMapped),
            Effect::Record(Note::LastRetainedSize, 131072),
        ]
    );
    assert!(pending.is_empty());
}

fn deferred(mdl: usize, process: usize) -> DeferredBacking {
    DeferredBacking { allocation: None, mdl, process }
}

#[test]
fn the_first_exited_process_is_taken() {
    let mut pending = vec![deferred(1, 10), deferred(2, 20), deferred(3, 30), deferred(4, 40)];
    let wait = |process: usize| if process == 20 || process == 30 { 0 } else { 0x102 };
    assert_eq!(take_exited(&mut pending, &wait), Some(deferred(2, 20)));
    assert_eq!(pending, [deferred(1, 10), deferred(4, 40), deferred(3, 30)]);
    assert_eq!(take_exited(&mut pending, &wait), Some(deferred(3, 30)));
    assert_eq!(pending, [deferred(1, 10), deferred(4, 40)]);
    assert_eq!(take_exited(&mut pending, &wait), None);
    assert_eq!(pending, [deferred(1, 10), deferred(4, 40)]);
}

#[test]
fn retiring_frees_and_lets_go_of_the_process() {
    let backing = DeferredBacking { allocation: Some(8), mdl: 9, process: 10 };
    assert_eq!(
        retire(backing),
        [
            Effect::FreeContiguous { address: 8 },
            Effect::FreeMdl { mdl: 9 },
            Effect::DereferenceProcess { process: 10 },
            Effect::Count(Counter::Reaped),
            Effect::Count(Counter::Freed),
        ]
    );
}

#[test]
fn reaping_retires_all_exited_processes() {
    let mut pending = vec![deferred(1, 10), deferred(2, 20), deferred(3, 30)];
    let effects =
        reap_exited_backings(&mut pending, &|process: usize| if process == 20 { 1 } else { 0 });
    let mut expected = retire(deferred(1, 10));
    expected.extend(retire(deferred(3, 30)));
    assert_eq!(effects, expected);
    assert_eq!(pending, [deferred(2, 20)]);
    assert!(reap_exited_backings(&mut pending, &|_| 1).is_empty());
}

#[test]
fn a_whole_life_gives_everything_back() {
    let mut pending = Vec::new();
    let list = pages((16..32).collect(), 65536);
    let (_, mut backing) = ready(chunked_state(65536).step(AllocEvent::Pages(Some(list)), 0));
    let (_, reference) = backing.map(MapOutcome::Mapped(0x7000), 5).unwrap();
    assert_eq!(reference, Effect::ReferenceProcess { process: 5 });
    backing.release(6, 0, &mut pending);
    let effects = reap_exited_backings(&mut pending, &|_| 0);
    assert_eq!(
        effects[..3],
        [
            Effect::FreePages { mdl: 70 },
            Effect::FreePool { mdl: 70 },
            Effect::DereferenceProcess { process: 5 },
        ]
    );
    assert!(pending.is_empty());
}

#[test]
fn free_routines_match_the_allocation() {
    assert_eq!(
        free_backing(Some(1), 2),
        [Effect::FreeContiguous { address: 1 }, Effect::FreeMdl { mdl: 2 }]
    );
    assert_eq!(
        free_backing(None, 2),
        [Effect::FreePages { mdl: 2 }, Effect::FreePool { mdl: 2 }]
    );
}

#[test]
fn failures_record_low_words() {
    assert_eq!(record_alloc_failure(3, 0x1_0000_0005, 0x2_0000_0006), failure(3, 5, 6));
    assert_eq!(
        record_success(65536),
        [Effect::Count(Counter::AllocOk), Effect::Record(Note::LastOkSize, 65536)]
    );
}

#[test]
fn value_names() {
    assert_eq!(Counter::AllocOk.name(), "GuestBackingOkCount");
    assert_eq!(Counter::ContigFail.name(), "GuestBackingContigFailCount");
    assert_eq!(Counter::MdlFail.name(), "GuestBackingMdlFailCount");
    assert_eq!(Counter::Freed.name(), "GuestBackingFreedCount");
    assert_eq!(Counter::RetainedMapped.name(), "GuestBackingRetainedMappedCount");
    assert_eq!(Counter::ChunkOk.name(), "GuestBackingChunkOkCount");
    assert_eq!(Counter::Deferred.name(), "GuestBackingDeferredCount");
    assert_eq!(Counter::Reaped.name(), "GuestBackingReapedCount");
    assert_eq!(Counter::DropUnmap.name(), "GuestBackingDropUnmapCount");
    assert_eq!(Counter::ChunkFail.name(), "GuestBackingChunkFailCount");
    assert_eq!(Note::FailStage.name(), "GuestBackingFailStage");
    assert_eq!(Note::FailSize.name(), "GuestBackingFailSize");
    assert_eq!(Note::FailPid.name(), "GuestBackingFailPid");
    assert_eq!(Note::LastOkSize.name(), "GuestBackingLastOkSize");
    assert_eq!(Note::LastChunkEntries.name(), "GuestBackingLastChunkEntries");
    assert_eq!(Note::LastRetainedSize.name(), "GuestBackingLastRetainedSize");
}

#[test]
fn errors_have_the_system_codes() {
    assert_eq!(BackingError::InvalidParameter.code(), Some(0xC000000D));
    assert_eq!(BackingError::NoMemory.code(), Some(0xC0000017));
    assert_eq!(BackingError::AlreadyCommitted.code(), Some(0xC0000021));
    assert_eq!(BackingError::InvalidDeviceState.code(), Some(0xC0000184));
    assert_eq!(BackingError::Reserve.code(), None);
    assert_eq!(BackingError::Exception(5).code(), None);
    assert!(wait_satisfied(0));
    assert!(!wait_satisfied(0x102));
}
