use gpu_wddm::resource_layout::{VirglResourceLayout, VirglResourceLayoutPlane};

fn valid() -> VirglResourceLayout {
    VirglResourceLayout {
        modifier: 0,
        num_planes: 1,
        reserved: 0,
        planes: [VirglResourceLayoutPlane { offset: 0, stride: 256, size: 16384 }; 4],
    }
}

#[test]
fn real_linear_layout_is_accepted() {
    assert!(valid().is_valid());
}

#[test]
fn corrupt_plane_count_cannot_index_outside_response() {
    for n in [0, 5, u32::MAX] {
        let mut l = valid();
        l.num_planes = n;
        assert!(!l.is_valid());
    }
}

#[test]
fn unwritten_or_unknown_layout_is_rejected() {
    let mut l = valid();
    l.modifier = 0x00ff_ffff_ffff_ffff;
    assert!(!l.is_valid());
    l = valid();
    l.planes[0].stride = 0;
    assert!(!l.is_valid());
    l = valid();
    l.planes[0].size = 0;
    assert!(!l.is_valid());
}

#[test]
fn overflowing_plane_extent_is_rejected() {
    let mut l = valid();
    l.planes[0].offset = u64::MAX;
    assert!(!l.is_valid());
}

#[test]
fn only_planes_in_use_are_looked_at() {
    let mut l = valid();
    l.num_planes = 3;
    l.planes[3].stride = 0;
    assert!(l.is_valid());
    l.num_planes = 4;
    assert!(!l.is_valid());
    l.planes[3].stride = 1;
    assert!(l.is_valid());
}

#[test]
fn reserved_word_must_be_clear() {
    let mut l = valid();
    l.reserved = 1;
    assert!(!l.is_valid());
}

#[test]
fn a_plane_may_end_at_the_last_offset() {
    let mut l = valid();
    l.planes[0].offset = u64::MAX - 16384;
    assert!(l.is_valid());
    l.planes[0].offset = u64::MAX - 16383;
    assert!(!l.is_valid());
}
