use gpu_wddm::guest_backing_layout::{valid_chunks, CHUNK_SIZE};

#[test]
fn separate_aligned_chunks_are_valid() {
    let pages: Vec<u64> = (16..32).chain(128..144).collect();
    assert!(valid_chunks(&pages, 2 * CHUNK_SIZE, 4096));
}

#[test]
fn rejects_hole_within_chunk() {
    let mut pages: Vec<u64> = (16..32).collect();
    pages[8] = 100;
    assert!(!valid_chunks(&pages, CHUNK_SIZE, 4096));
}

#[test]
fn rejects_misalignment_and_partial_allocation() {
    assert!(!valid_chunks(&(17..33).collect::<Vec<_>>(), CHUNK_SIZE, 4096));
    assert!(!valid_chunks(&(16..31).collect::<Vec<_>>(), CHUNK_SIZE, 4096));
    assert!(!valid_chunks(&[], 0, 4096));
}

#[test]
fn validates_other_page_sizes_and_overflow() {
    assert!(valid_chunks(&[4, 5, 6, 7, 16, 17, 18, 19], 2 * CHUNK_SIZE, 16384));
    assert!(valid_chunks(&[1, 5], 2 * CHUNK_SIZE, 65536));
    assert!(!valid_chunks(&[u64::MAX], CHUNK_SIZE, 65536));
    assert!(!valid_chunks(&[], CHUNK_SIZE, 0));
}

#[test]
fn rejects_sizes_that_do_not_divide() {
    assert!(!valid_chunks(&[0; 21], CHUNK_SIZE, 3000));
    assert!(!valid_chunks(&[0], CHUNK_SIZE, 2 * CHUNK_SIZE));
    let pages: Vec<u64> = (16..40).collect();
    assert!(!valid_chunks(&pages, CHUNK_SIZE + CHUNK_SIZE / 2, 4096));
}

#[test]
fn every_chunk_counts() {
    let mut pages: Vec<u64> = (16..32).chain(128..144).collect();
    pages[31] = 144;
    assert!(!valid_chunks(&pages, 2 * CHUNK_SIZE, 4096));
    pages[31] = 143;
    assert!(valid_chunks(&pages, 2 * CHUNK_SIZE, 4096));
}
