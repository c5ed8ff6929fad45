use gpu_wddm::boot_pool::{
    join_config_dwords, mapping_offset, read_config_u64, BootPool, MAP_INFO_POOL,
};

#[test]
fn pool_mapping_uses_host_placement_instead_of_bar_slot() {
    assert_eq!(mapping_offset(MAP_INFO_POOL | 1, 0x200000, 0), 0x200000);
    assert_eq!(mapping_offset(MAP_INFO_POOL | 1, 0x400000, 0x4000), 0x400000);
    assert_eq!(mapping_offset(1, 0, 0x4000), 0x4000);
    assert_eq!(mapping_offset(3, 0x200000, 0x8000), 0x8000);
}

#[test]
fn config_reads_are_dwords_and_preserve_high_address_bits() {
    let mut offsets = Vec::new();
    let value = read_config_u64(32, |offset| {
        offsets.push(offset);
        match offset {
            32 => Ok(0x7c000000u32.to_le()),
            36 => Ok(1u32.to_le()),
            _ => Err(()),
        }
    })
    .unwrap();
    assert_eq!(value, 0x17c000000);
    assert_eq!(offsets, [32, 36]);
    let error = read_config_u64(40, |offset| {
        if offset == 40 { Ok(0u32) } else { Err("config too short") }
    });
    assert_eq!(error, Err("config too short"));
}

#[test]
fn rejects_wraparound_unaligned_and_out_of_pool() {
    let p = BootPool::new(0x17c000000, 0x4000000).unwrap();
    assert_eq!(p.physical_range(0x200000, 0x4000), Some(0x17c200000));
    assert_eq!(p.physical_range(0x3fff000, 0x1000), Some(0x17ffff000));
    for (offset, size) in [
        (0x4000000, 4096),
        (0, 0),
        (1, 4096),
        (0, 1),
        (u64::MAX - 4095, 8192),
    ] {
        assert_eq!(p.physical_range(offset, size), None);
    }
    assert!(BootPool::new(u64::MAX - 4095, 8192).is_none());
    assert!(BootPool::new(0, 4096).is_none());
}

#[test]
fn a_failed_low_read_is_the_only_read() {
    let mut offsets = Vec::new();
    let error: Result<u64, u8> = read_config_u64(usize::MAX, |offset| {
        offsets.push(offset);
        Err(7)
    });
    assert_eq!(error, Err(7));
    assert_eq!(offsets, [usize::MAX]);
}

#[test]
fn stored_dwords_join_to_the_field() {
    for field in [0u64, 1, 0xffff_ffff, 0x1_0000_0000, 0x0123_4567_89ab_cdef, u64::MAX] {
        let low = (field as u32).to_le();
        let high = ((field >> 32) as u32).to_le();
        assert_eq!(join_config_dwords(low, high), field);
    }
}

#[test]
fn pool_limits_are_exact() {
    assert!(BootPool::new(4096, 1 << 32).is_some());
    assert!(BootPool::new(4096, (1 << 32) + 4096).is_none());
    assert!(BootPool::new(4096, 0).is_none());
    assert!(BootPool::new(4097, 4096).is_none());
    assert!(BootPool::new(4096, 4097).is_none());
    let top = BootPool::new(u64::MAX - 8191, 4096).unwrap();
    assert_eq!((top.base, top.size), (u64::MAX - 8191, 4096));
    assert_eq!(top.physical_range(0, 4096), Some(u64::MAX - 8191));
}

#[test]
fn an_unchecked_pool_still_rejects_address_wraparound() {
    let p = BootPool { base: u64::MAX - 4095, size: 8192 };
    assert_eq!(p.physical_range(0, 4096), Some(u64::MAX - 4095));
    assert_eq!(p.physical_range(4096, 4096), None);
}
