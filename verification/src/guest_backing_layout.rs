//! Validate the physical layout before advertising 64 KiB DMA segments.

use vstd::arithmetic::div_mod::lemma_fundamental_div_mod;
use vstd::prelude::*;

verus! {

/// Length of a DMA segment.
pub const CHUNK_SIZE: usize = 65536;

/// Whether the first page of the chunk that starts at index `first` lies on a
/// segment boundary of the 64-bit physical address space.
pub open spec fn chunk_aligned(pages: Seq<u64>, first: int, page_size: int) -> bool {
    &&& pages[first] * page_size <= u64::MAX
    &&& (pages[first] * page_size) % CHUNK_SIZE as int == 0
}

/// Whether the `len` pages from index `first` on have consecutive frame numbers.
pub open spec fn chunk_contiguous(pages: Seq<u64>, first: int, len: int) -> bool {
    forall|j: int| 0 <= j < len ==> #[trigger] pages[first + j] == pages[first] + j
}

/// Whether one chunk of `len` pages from index `first` on is a DMA segment.
pub open spec fn chunk_ok(pages: Seq<u64>, first: int, len: int, page_size: int) -> bool {
    chunk_aligned(pages, first, page_size) && chunk_contiguous(pages, first, len)
}

/// Whether the sizes fit together: pages divide segments, segments divide the
/// allocation, and the page list covers the allocation.
pub open spec fn sizes_ok(pages: int, bytes: int, page_size: int) -> bool {
    &&& page_size > 0
    &&& CHUNK_SIZE as int % page_size == 0
    &&& bytes > 0
    &&& bytes % CHUNK_SIZE as int == 0
    &&& pages == bytes / page_size
}

/// Whether `pages` backs `bytes` bytes by whole 64 KiB segments.
pub open spec fn chunks_ok(pages: Seq<u64>, bytes: int, page_size: int) -> bool {
    &&& sizes_ok(pages.len() as int, bytes, page_size)
    &&& forall|c: int|
        0 <= c < bytes / CHUNK_SIZE as int ==> #[trigger] chunk_ok(
            pages,
            c * (CHUNK_SIZE as int / page_size),
            CHUNK_SIZE as int / page_size,
            page_size,
        )
}

/// Segments times pages per segment is the number of pages.
pub proof fn lemma_page_count(pages: int, bytes: int, page_size: int)
    requires
        sizes_ok(pages, bytes, page_size),
    ensures
        CHUNK_SIZE as int / page_size > 0,
        (CHUNK_SIZE as int / page_size) * page_size == CHUNK_SIZE,
        (bytes / CHUNK_SIZE as int) * CHUNK_SIZE == bytes,
        bytes / CHUNK_SIZE as int > 0,
        pages == (bytes / CHUNK_SIZE as int) * (CHUNK_SIZE as int / page_size),
{
    let per: int = CHUNK_SIZE as int / page_size;
    let chunks: int = bytes / CHUNK_SIZE as int;
    lemma_fundamental_div_mod(CHUNK_SIZE as int, page_size);
    assert(per * page_size == CHUNK_SIZE) by (nonlinear_arith)
        requires
            CHUNK_SIZE as int == page_size * per + 0,
    ;
    assert(per > 0) by (nonlinear_arith)
        requires
            per * page_size == CHUNK_SIZE,
            page_size > 0,
    ;
    assert(bytes / page_size == chunks * per) by (nonlinear_arith)
        requires
            bytes == chunks * CHUNK_SIZE,
            CHUNK_SIZE as int == per * page_size,
            page_size > 0,
    ;
}

/// Whether one chunk is a DMA segment.
fn valid_chunk(pages: &[u64], first: usize, len: usize, page_size: usize) -> (valid: bool)
    requires
        len > 0,
        first + len <= pages@.len(),
    ensures
        valid == chunk_ok(pages@, first as int, len as int, page_size as int),
{
    let head: u64 = pages[first];
    match head.checked_mul(page_size as u64) {
        None => {
            return false;
        },
        Some(addr) => {
            if addr % CHUNK_SIZE as u64 != 0 {
                return false;
            }
        },
    }
    let mut i: usize = 0;
    while i < len
        invariant
            first + len <= pages.len(),
            i <= len,
            head == pages@[first as int],
            forall|j: int| 0 <= j < i ==> #[trigger] pages@[first + j] == head + j,
        decreases len - i,
    {
        let page: u64 = pages[first + i];
        match head.checked_add(i as u64) {
            None => {
                assert(pages@[first + i as int] != head + i);
                return false;
            },
            Some(expected) => {
                if expected != page {
                    assert(pages@[first + i as int] != head + i);
                    return false;
                }
            },
        }
        i = i + 1;
    }
    true
}

/// Whether `pages` backs `bytes` bytes by whole 64 KiB segments.
pub fn valid_chunks(pages: &[u64], bytes: usize, page_size: usize) -> (valid: bool)
    ensures
        valid == chunks_ok(pages@, bytes as int, page_size as int),
{
    if page_size == 0 || CHUNK_SIZE % page_size != 0 || bytes == 0 || bytes % CHUNK_SIZE != 0
        || pages.len() != bytes / page_size
    {
        return false;
    }
    let per: usize = CHUNK_SIZE / page_size;
    let count: usize = bytes / CHUNK_SIZE;
    proof {
        lemma_page_count(pages@.len() as int, bytes as int, page_size as int);
    }
    let mut chunk: usize = 0;
    let mut first: usize = 0;
    while chunk < count
        invariant
            chunk <= count,
            first == chunk * per,
            per > 0,
            pages@.len() == count * per,
            per == CHUNK_SIZE as int / page_size as int,
            count == bytes as int / CHUNK_SIZE as int,
            sizes_ok(pages@.len() as int, bytes as int, page_size as int),
            forall|c: int|
                0 <= c < chunk ==> #[trigger] chunk_ok(
                    pages@,
                    c * per,
                    per as int,
                    page_size as int,
                ),
        decreases count - chunk,
    {
        assert(first + per <= pages@.len()) by (nonlinear_arith)
            requires
                first == chunk * per,
                chunk < count,
                pages@.len() == count * per,
        ;
        assert((chunk + 1) * per == chunk * per + per) by (nonlinear_arith);
        if !valid_chunk(pages, first, per, page_size) {
            assert(!chunk_ok(pages@, chunk as int * per, per as int, page_size as int));
            return false;
        }
        first = first + per;
        chunk = chunk + 1;
    }
    true
}

/// Every set of 64 KiB segments is accepted: whatever the page size, as long as
/// it divides 64 KiB, the frames that make up segments at the given start
/// addresses, each on a 64 KiB boundary anywhere below 2^64, are a valid list.
pub proof fn law_all_segments_are_accepted(starts: Seq<u64>, pages: Seq<u64>, page_size: int)
    requires
        starts.len() > 0,
        page_size > 0,
        65536int % page_size == 0,
        forall|c: int| 0 <= c < starts.len() ==> (#[trigger] starts[c]) % 65536 == 0,
        pages.len() * page_size == starts.len() * 65536,
        forall|k: int|
            0 <= k < pages.len() ==> (#[trigger] pages[k]) * page_size == starts[k / (65536int
                / page_size)] + (k % (65536int / page_size)) * page_size,
    ensures
        chunks_ok(pages, starts.len() as int * 65536, page_size),
{
    let per = 65536int / page_size;
    let bytes = starts.len() as int * 65536;
    lemma_fundamental_div_mod(65536, page_size);
    assert(per * page_size == 65536) by (nonlinear_arith)
        requires
            65536int == page_size * per + 0,
    ;
    assert(per > 0) by (nonlinear_arith)
        requires
            per * page_size == 65536,
            page_size > 0,
    ;
    assert(bytes / page_size == pages.len()) by {
        vstd::arithmetic::div_mod::lemma_div_multiples_vanish(pages.len() as int, page_size);
        assert(bytes == page_size * pages.len()) by (nonlinear_arith)
            requires
                pages.len() * page_size == bytes,
        ;
    }
    assert(pages.len() == starts.len() * per) by (nonlinear_arith)
        requires
            pages.len() * page_size == starts.len() * 65536,
            per * page_size == 65536,
            page_size > 0,
    ;
    assert forall|c: int| 0 <= c < bytes / 65536 implies #[trigger] chunk_ok(
        pages,
        c * per,
        per,
        page_size,
    ) by {
        assert(c * per + per <= pages.len() && c * per >= 0) by (nonlinear_arith)
            requires
                0 <= c < starts.len(),
                pages.len() == starts.len() * per,
                per > 0,
        ;
        assert forall|j: int| 0 <= j < per implies #[trigger] pages[c * per + j] == pages[c * per]
            + j && pages[c * per + j] * page_size == starts[c] + j * page_size by {
            let k = c * per + j;
            let first = c * per;
            vstd::arithmetic::div_mod::lemma_fundamental_div_mod_converse(k, per, c, j);
            vstd::arithmetic::div_mod::lemma_fundamental_div_mod_converse(first, per, c, 0);
            assert(pages[k] * page_size == starts[c] + j * page_size);
            assert(pages[first] * page_size == starts[c] + 0 * page_size);
            let a = pages[k] as int;
            let b = pages[first] as int;
            assert(a == b + j) by (nonlinear_arith)
                requires
                    a * page_size == b * page_size + j * page_size,
                    page_size > 0,
            ;
        }
        assert(pages[c * per + 0] * page_size == starts[c] + 0 * page_size);
        assert(c * per + 0 == c * per);
        assert(chunk_aligned(pages, c * per, page_size));
    }
}

/// Only whole segments are accepted: an accepted list covers the allocation
/// exactly, page `k` stands at its place in segment `k / per`, and that segment
/// starts on a 64 KiB boundary below 2^64.
pub proof fn law_only_segments_are_accepted(pages: Seq<u64>, bytes: int, page_size: int, k: int)
    requires
        chunks_ok(pages, bytes, page_size),
        0 <= k < pages.len(),
    ensures
        page_size > 0,
        65536int % page_size == 0,
        bytes > 0,
        bytes % 65536 == 0,
        pages.len() * page_size == bytes,
        ({
            let per = 65536int / page_size;
            let start = pages[k - k % per] * page_size;
            &&& 0 <= k - k % per < pages.len()
            &&& start % 65536 == 0
            &&& start <= 0xffff_ffff_ffff_ffff
            &&& pages[k] * page_size == start + (k % per) * page_size
        }),
{
    let per = CHUNK_SIZE as int / page_size;
    let count = bytes / CHUNK_SIZE as int;
    lemma_page_count(pages.len() as int, bytes, page_size);
    assert(pages.len() * page_size == bytes) by (nonlinear_arith)
        requires
            pages.len() == count * per,
            per * page_size == CHUNK_SIZE,
            count * CHUNK_SIZE == bytes,
    ;
    let c = k / per;
    let j = k % per;
    lemma_fundamental_div_mod(k, per);
    assert(0 <= c < count) by (nonlinear_arith)
        requires
            c == k / per,
            0 <= k < count * per,
            per > 0,
    ;
    assert(c * per + j == k) by (nonlinear_arith)
        requires
            k == per * c + j,
    ;
    assert(c * per >= 0) by (nonlinear_arith)
        requires
            c >= 0,
            per > 0,
    ;
    assert(chunk_ok(pages, c * per, per, page_size));
    assert(pages[c * per + j] == pages[c * per] + j);
    assert((pages[c * per] + j) * page_size == pages[c * per] * page_size + j * page_size)
        by (nonlinear_arith);
}

} // verus!
