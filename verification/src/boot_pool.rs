//! Fixed boot-shared DRM pool, described by device config bytes 16..48.
//! No physical address is guessed from RAM size or from a map response.

use vstd::prelude::*;

verus! {

/// Bit of a map response's `map_info` that marks a blob placed in the pool.
pub const MAP_INFO_POOL: u32 = 0x8000_0000;

/// Granule of every pool address and length.
pub const POOL_PAGE: u64 = 4096;

/// Largest pool the device may advertise: 4 GiB.
pub const POOL_LIMIT: u64 = 0x1_0000_0000;

/// Whether `map_info` says that the host placed the blob in the pool: its top
/// bit is set.
pub open spec fn placed_in_pool(map_info: u32) -> bool {
    map_info >= MAP_INFO_POOL
}

/// The offset a map response settles on: the host's placement for pool blobs,
/// the requested BAR slot for all others.
pub open spec fn chosen_offset(map_info: u32, pool_offset: u32, bar_offset: u64) -> u64 {
    if placed_in_pool(map_info) {
        pool_offset as u64
    } else {
        bar_offset
    }
}

/// For pool blobs the host owns placement and returns its byte offset in the
/// response's padding word. The requested BAR offset only applies to BAR maps.
pub fn mapping_offset(map_info: u32, pool_offset: u32, bar_offset: u64) -> (offset: u64)
    ensures
        offset == chosen_offset(map_info, pool_offset, bar_offset),
        map_info & 0x8000_0000 != 0 ==> offset == pool_offset,
        map_info & 0x8000_0000 == 0 ==> offset == bar_offset,
{
    assert((map_info & 0x8000_0000 != 0) <==> map_info >= 0x8000_0000) by (bit_vector);
    if map_info & MAP_INFO_POOL != 0 {
        pool_offset as u64
    } else {
        bar_offset
    }
}

/// `dword` with its four bytes in reverse order.
pub open spec fn bytes_reversed(dword: u32) -> u32 {
    (dword >> 24) | ((dword >> 8) & 0xff00) | ((dword << 8) & 0xff_0000) | (dword << 24)
}

/// The number whose little-endian bytes are the bytes of `dword` in memory
/// order on the running machine.
pub open spec fn from_little_endian(dword: u32) -> u32 {
    match vstd::endian::endianness() {
        vstd::endian::Endian::Little => dword,
        vstd::endian::Endian::Big => bytes_reversed(dword),
    }
}

/// `u32::from_le` leaves its argument alone on a little-endian machine and
/// reverses its bytes on a big-endian one.
pub assume_specification[ u32::from_le ](x: u32) -> (value: u32)
    ensures
        value == from_little_endian(x),
;

/// The 64-bit number with the given low and high halves.
pub open spec fn joined(low: u32, high: u32) -> int {
    low + high * 0x1_0000_0000
}

/// The config field whose two dwords, as the device stores them, are `low` and
/// `high`.
pub open spec fn config_value(low: u32, high: u32) -> int {
    joined(from_little_endian(low), from_little_endian(high))
}

/// Joins the two little-endian dwords of a 64-bit config field.
pub fn join_config_dwords(low: u32, high: u32) -> (value: u64)
    ensures
        value == config_value(low, high),
{
    let low: u32 = u32::from_le(low);
    let high: u32 = u32::from_le(high);
    assert((low as u64) | ((high as u64) << 32) == low as u64 + high as u64 * 0x1_0000_0000)
        by (bit_vector);
    (low as u64) | ((high as u64) << 32)
}

/// Reads a 64-bit config field as two dwords, the low one first; the second
/// read is made only after the first succeeds.
///
/// VirtIO PCI only guarantees 32-bit config accesses: a 64-bit read panics in
/// the transport on ARM64 before any MMIO read.
pub fn read_config_u64<E>(
    offset: usize,
    mut read_u32: impl FnMut(usize) -> Result<u32, E>,
) -> (value: Result<u64, E>)
    requires
        call_requires(read_u32, (offset,)),
        forall|low: u32| #[trigger]
            call_ensures(read_u32, (offset,), Ok(low)) ==> offset + 4 <= usize::MAX
                && call_requires(read_u32, ((offset + 4) as usize,)),
    ensures
        match value {
            Ok(v) => exists|low: u32, high: u32|
                {
                    &&& #[trigger] call_ensures(read_u32, (offset,), Ok(low))
                    &&& #[trigger] call_ensures(read_u32, ((offset + 4) as usize,), Ok(high))
                    &&& v == config_value(low, high)
                },
            Err(e) => {
                ||| call_ensures(read_u32, (offset,), Err(e))
                ||| exists|low: u32|
                    {
                        &&& #[trigger] call_ensures(read_u32, (offset,), Ok(low))
                        &&& call_ensures(read_u32, ((offset + 4) as usize,), Err(e))
                    }
            },
        },
{
    let low: u32 = match read_u32(offset) {
        Ok(dword) => dword,
        Err(e) => return Err(e),
    };
    let high: u32 = match read_u32(offset + 4) {
        Ok(dword) => dword,
        Err(e) => return Err(e),
    };
    Ok(join_config_dwords(low, high))
}

/// The pool's place in guest physical memory.
#[derive(Clone, Copy, Debug)]
pub struct BootPool {
    pub base: u64,
    pub size: u64,
}

/// Whether `value` is a whole number of pool pages.
pub open spec fn page_aligned(value: u64) -> bool {
    value % POOL_PAGE == 0
}

proof fn lemma_or_masks_both(a: u64, b: u64)
    ensures
        ((a | b) & 4095 == 0) <==> page_aligned(a) && page_aligned(b),
{
    assert(((a | b) & 4095 == 0) <==> (a % 4096 == 0 && b % 4096 == 0)) by (bit_vector);
}

impl BootPool {
    /// A usable pool: page-granular, not at address zero, not empty, at most
    /// 4 GiB, and not wrapping around the address space.
    pub open spec fn wf(self) -> bool {
        &&& self.base != 0
        &&& 0 < self.size <= POOL_LIMIT
        &&& page_aligned(self.base)
        &&& page_aligned(self.size)
        &&& self.base + self.size <= u64::MAX
    }

    /// Whether `size` bytes at `offset` are a page-granular part of the pool.
    pub open spec fn holds(self, offset: u64, size: u64) -> bool {
        &&& size != 0
        &&& page_aligned(offset)
        &&& page_aligned(size)
        &&& offset + size <= self.size
    }

    /// The pool at `base`, if it is usable.
    pub fn new(base: u64, size: u64) -> (pool: Option<Self>)
        ensures
            pool is Some <==> (BootPool { base, size }).wf(),
            pool matches Some(p) ==> p == (BootPool { base, size }),
            pool is Some <==> {
                &&& base > 0
                &&& 0 < size <= 0x1_0000_0000
                &&& base % 4096 == 0
                &&& size % 4096 == 0
                &&& base + size <= u64::MAX
            },
    {
        proof {
            lemma_or_masks_both(base, size);
        }
        if base == 0 || size == 0 || (base | size) & 4095 != 0
            || base.checked_add(size).is_none() || size > POOL_LIMIT
        {
            return None;
        }
        Some(Self { base, size })
    }

    /// The physical address of `size` bytes at `offset` into the pool.
    pub fn physical_range(&self, offset: u64, size: u64) -> (address: Option<u64>)
        ensures
            address is Some <==> self.holds(offset, size) && self.base + offset <= u64::MAX,
            address matches Some(a) ==> a == self.base + offset,
            address is Some <==> {
                &&& size > 0
                &&& offset % 4096 == 0
                &&& size % 4096 == 0
                &&& offset + size <= self.size
                &&& self.base + offset <= u64::MAX
            },
    {
        proof {
            lemma_or_masks_both(offset, size);
        }
        if size == 0 || (offset | size) & 4095 != 0 {
            return None;
        }
        match offset.checked_add(size) {
            None => None,
            Some(end) => if end > self.size {
                None
            } else {
                self.base.checked_add(offset)
            },
        }
    }
}

/// A pool blob lands where the host put it whatever BAR slot was asked for, and
/// a BAR blob lands in its slot whatever the padding word holds.
pub proof fn law_placement_has_one_owner(
    map_info: u32,
    pool_offset: u32,
    other_pool_offset: u32,
    bar_offset: u64,
    other_bar_offset: u64,
)
    ensures
        placed_in_pool(map_info) ==> chosen_offset(map_info, pool_offset, bar_offset)
            == chosen_offset(map_info, pool_offset, other_bar_offset),
        !placed_in_pool(map_info) ==> chosen_offset(map_info, pool_offset, bar_offset)
            == chosen_offset(map_info, other_pool_offset, bar_offset),
{
}

/// Reversing the bytes of a dword twice gives the dword back.
proof fn lemma_reversed_twice(dword: u32)
    ensures
        bytes_reversed(bytes_reversed(dword)) == dword,
{
    let r = bytes_reversed(dword);
    assert(((r >> 24) | ((r >> 8) & 0xff00) | ((r << 8) & 0xff_0000) | (r << 24)) == dword)
        by (bit_vector)
        requires
            r == (dword >> 24) | ((dword >> 8) & 0xff00) | ((dword << 8) & 0xff_0000) | (dword
                << 24),
    ;
}

/// Storing a dword in little-endian order and reading it back is the identity:
/// the conversion undoes itself on every machine.
pub proof fn law_little_endian_involution(dword: u32)
    ensures
        from_little_endian(from_little_endian(dword)) == dword,
{
    lemma_reversed_twice(dword);
}

/// A 64-bit field that the device stores as two little-endian dwords is read
/// back whole: no bit of its high half is lost or moved.
pub proof fn law_config_field_read_back(field: u64)
    ensures
        config_value(
            from_little_endian((field % 0x1_0000_0000) as u32),
            from_little_endian((field / 0x1_0000_0000) as u32),
        ) == field,
{
    law_little_endian_involution((field % 0x1_0000_0000) as u32);
    law_little_endian_involution((field / 0x1_0000_0000) as u32);
}

/// In a pool that passed validation every page-granular part has an address:
/// adding its offset to the base never wraps, and the addressed bytes stay
/// inside the pool, page-aligned and away from address zero.
pub proof fn law_ranges_stay_in_pool(pool: BootPool, offset: u64, size: u64)
    requires
        pool.wf(),
        pool.holds(offset, size),
    ensures
        pool.base <= pool.base + offset,
        pool.base + offset + size <= pool.base + pool.size <= u64::MAX,
        (pool.base + offset) % POOL_PAGE as int == 0,
        pool.base + offset != 0,
{
}

/// Parts of a pool that do not overlap get addresses that do not overlap.
pub proof fn law_disjoint_parts_disjoint_addresses(
    pool: BootPool,
    offset: u64,
    size: u64,
    other_offset: u64,
    other_size: u64,
)
    requires
        pool.wf(),
        pool.holds(offset, size),
        pool.holds(other_offset, other_size),
        offset + size <= other_offset || other_offset + other_size <= offset,
    ensures
        pool.base + offset + size <= pool.base + other_offset || pool.base + other_offset
            + other_size <= pool.base + offset,
{
}

/// With the top bit of `map_info` set the blob lies at exactly the byte offset
/// that the host returned; with the bit clear it lies at exactly the BAR offset
/// that was asked for. Neither is rounded, masked or moved.
pub proof fn law_offset_is_taken_as_given(map_info: u32, pool_offset: u32, bar_offset: u64)
    ensures
        map_info & 0x8000_0000 != 0 ==> chosen_offset(map_info, pool_offset, bar_offset)
            == pool_offset,
        map_info & 0x8000_0000 == 0 ==> chosen_offset(map_info, pool_offset, bar_offset)
            == bar_offset,
{
    assert((map_info & 0x8000_0000 != 0) <==> map_info >= 0x8000_0000) by (bit_vector);
}

/// Blobs placed apart in the pool stay exactly as far apart, and no two host
/// placements fall together.
pub proof fn law_pool_placements_keep_their_distance(
    map_info: u32,
    other_map_info: u32,
    pool_offset: u32,
    other_pool_offset: u32,
    bar_offset: u64,
    other_bar_offset: u64,
)
    requires
        map_info >= 0x8000_0000,
        other_map_info >= 0x8000_0000,
    ensures
        chosen_offset(map_info, pool_offset, bar_offset) - chosen_offset(
            other_map_info,
            other_pool_offset,
            other_bar_offset,
        ) == pool_offset - other_pool_offset,
{
}

/// On a big-endian machine byte `k` of a stored dword is byte `3 - k` of its
/// value; on a little-endian machine the dword is its value.
pub proof fn law_stored_bytes_are_in_reverse(dword: u32)
    ensures
        vstd::endian::endianness() is Little ==> from_little_endian(dword) == dword,
        vstd::endian::endianness() is Big ==> {
            let value = from_little_endian(dword) as int;
            &&& value % 0x100 == dword as int / 0x100_0000
            &&& value / 0x100 % 0x100 == dword as int / 0x1_0000 % 0x100
            &&& value / 0x1_0000 % 0x100 == dword as int / 0x100 % 0x100
            &&& value / 0x100_0000 == dword as int % 0x100
        },
{
    let r = bytes_reversed(dword);
    assert(r % 0x100 == dword / 0x100_0000 && r / 0x100 % 0x100 == dword / 0x1_0000 % 0x100 && r
        / 0x1_0000 % 0x100 == dword / 0x100 % 0x100 && r / 0x100_0000 == dword % 0x100)
        by (bit_vector)
        requires
            r == (dword >> 24) | ((dword >> 8) & 0xff00) | ((dword << 8) & 0xff_0000) | (dword
                << 24),
    ;
}

/// The halves of a config value are the values of its two dwords.
pub proof fn law_config_value_has_its_halves(low: u32, high: u32)
    ensures
        config_value(low, high) % 0x1_0000_0000 == from_little_endian(low),
        config_value(low, high) / 0x1_0000_0000 == from_little_endian(high),
        0 <= config_value(low, high) <= u64::MAX,
{
}

/// A pool is usable exactly if it is page-granular, lies above address zero,
/// has between 1 byte and 4 GiB, and ends inside the address space.
pub proof fn law_usable_pools(base: u64, size: u64)
    ensures
        (BootPool { base, size }).wf() <==> {
            &&& base > 0
            &&& 0 < size <= 0x1_0000_0000
            &&& base % 4096 == 0
            &&& size % 4096 == 0
            &&& base + size <= 0xffff_ffff_ffff_ffff
        },
{
}

/// A pool holds exactly the nonempty page-granular ranges that end inside it.
pub proof fn law_pool_parts(pool: BootPool, offset: u64, size: u64)
    ensures
        pool.holds(offset, size) <==> {
            &&& size > 0
            &&& offset % 4096 == 0
            &&& size % 4096 == 0
            &&& offset + size <= pool.size
        },
{
}

/// A part of a usable pool is a usable pool itself, and its parts are parts of
/// the whole at the same addresses.
pub proof fn law_parts_are_pools(
    pool: BootPool,
    offset: u64,
    size: u64,
    inner_offset: u64,
    inner_size: u64,
)
    requires
        pool.wf(),
        pool.holds(offset, size),
    ensures
        ({
            let part = BootPool { base: (pool.base + offset) as u64, size };
            &&& part.wf()
            &&& part.holds(inner_offset, inner_size) ==> {
                &&& pool.holds((offset + inner_offset) as u64, inner_size)
                &&& part.base + inner_offset == pool.base + (offset + inner_offset)
            }
        }),
{
}

} // verus!
