//! Plane layout that the host reports for a resource.

use vstd::prelude::*;

verus! {

/// Number of plane slots in a layout response.
pub const MAX_PLANES: u32 = 4;

/// Modifier of a layout that the host did not write or does not know.
pub const UNKNOWN_MODIFIER: u64 = 0x00ff_ffff_ffff_ffff;

/// One plane of a resource.
#[derive(PartialEq, Eq, Structural, Clone, Copy, Debug)]
pub struct VirglResourceLayoutPlane {
    pub offset: u64,
    pub stride: u32,
    pub size: u32,
}

/// A layout response.
#[derive(PartialEq, Eq, Clone, Copy, Debug)]
pub struct VirglResourceLayout {
    pub modifier: u64,
    pub num_planes: u32,
    pub reserved: u32,
    pub planes: [VirglResourceLayoutPlane; 4],
}

impl VirglResourceLayoutPlane {
    /// A plane with a stride and a size, whose end is a 64-bit offset.
    pub open spec fn valid(self) -> bool {
        &&& self.stride != 0
        &&& self.size != 0
        &&& self.offset + self.size <= u64::MAX
    }
}

impl VirglResourceLayout {
    /// A known modifier, a clear reserved word, one to four planes, and every
    /// plane in use valid.
    pub open spec fn valid(self) -> bool {
        &&& self.modifier != UNKNOWN_MODIFIER
        &&& self.reserved == 0
        &&& 1 <= self.num_planes <= MAX_PLANES
        &&& forall|i: int| 0 <= i < self.num_planes ==> (#[trigger] self.planes@[i]).valid()
    }

    /// Whether the layout can be used.
    pub fn is_valid(&self) -> (valid: bool)
        ensures
            valid == self.valid(),
            valid <==> {
                &&& self.modifier != 0x00ff_ffff_ffff_ffff
                &&& self.reserved == 0
                &&& 1 <= self.num_planes <= 4
                &&& forall|i: int|
                    0 <= i < self.num_planes ==> {
                        &&& (#[trigger] self.planes@[i]).stride > 0
                        &&& self.planes@[i].size > 0
                        &&& self.planes@[i].offset + self.planes@[i].size <= u64::MAX
                    }
            },
    {
        if self.modifier == UNKNOWN_MODIFIER || self.reserved != 0 || self.num_planes < 1
            || self.num_planes > MAX_PLANES
        {
            return false;
        }
        let count: usize = self.num_planes as usize;
        let mut i: usize = 0;
        while i < count
            invariant
                i <= count,
                count == self.num_planes,
                count <= 4,
                forall|j: int| 0 <= j < i ==> (#[trigger] self.planes@[j]).valid(),
            decreases count - i,
        {
            let plane: VirglResourceLayoutPlane = self.planes[i];
            if plane.stride == 0 || plane.size == 0
                || plane.offset.checked_add(plane.size as u64).is_none()
            {
                assert(!self.planes@[i as int].valid());
                return false;
            }
            i = i + 1;
        }
        true
    }
}

/// Only the planes in use decide: two layouts that agree on the header and on
/// the first `num_planes` slots are accepted or rejected together.
pub proof fn law_unused_planes_do_not_matter(a: VirglResourceLayout, b: VirglResourceLayout)
    requires
        a.modifier == b.modifier,
        a.reserved == b.reserved,
        a.num_planes == b.num_planes,
        forall|i: int|
            0 <= i < a.num_planes && i < MAX_PLANES ==> #[trigger] a.planes@[i] == b.planes@[i],
    ensures
        a.valid() == b.valid(),
{
    assert forall|i: int| a.valid() && 0 <= i < b.num_planes implies (
    #[trigger] b.planes@[i]).valid() by {
        assert(a.planes@[i].valid());
    }
    assert forall|i: int| b.valid() && 0 <= i < a.num_planes implies (
    #[trigger] a.planes@[i]).valid() by {
        assert(b.planes@[i].valid());
    }
}

/// The plane count of an accepted layout never indexes outside the response,
/// whatever the host wrote, and each plane in use ends at a 64-bit offset past
/// its start.
pub proof fn law_accepted_planes_are_in_the_response(layout: VirglResourceLayout, i: int)
    requires
        layout.valid(),
        0 <= i < layout.num_planes,
    ensures
        i < layout.planes@.len(),
        layout.planes@[i].offset < layout.planes@[i].offset + layout.planes@[i].size <= u64::MAX,
{
    assert(layout.planes@[i].valid());
}

/// A layout is accepted exactly if the host wrote a known modifier, left the
/// reserved word clear, reports one to four planes, and gives each of them a
/// stride, a size and an end below 2^64.
pub proof fn law_accepted_layouts(layout: VirglResourceLayout)
    ensures
        layout.valid() <==> {
            &&& layout.modifier != 0x00ff_ffff_ffff_ffff
            &&& layout.reserved == 0
            &&& 1 <= layout.num_planes <= 4
            &&& forall|i: int|
                0 <= i < layout.num_planes ==> {
                    &&& (#[trigger] layout.planes@[i]).stride > 0
                    &&& layout.planes@[i].size > 0
                    &&& layout.planes@[i].offset + layout.planes@[i].size <= 0xffff_ffff_ffff_ffff
                }
        },
{
    if layout.valid() {
        assert forall|i: int| 0 <= i < layout.num_planes implies {
            &&& (#[trigger] layout.planes@[i]).stride > 0
            &&& layout.planes@[i].size > 0
            &&& layout.planes@[i].offset + layout.planes@[i].size <= 0xffff_ffff_ffff_ffff
        } by {
            assert(layout.planes@[i].valid());
        }
    }
}

/// Reporting fewer planes of an accepted layout, but at least one, is accepted
/// too; reporting one more is accepted exactly if that plane is sound.
pub proof fn law_planes_are_judged_one_by_one(layout: VirglResourceLayout, fewer: u32)
    requires
        layout.valid(),
        1 <= fewer <= layout.num_planes,
    ensures
        (VirglResourceLayout { num_planes: fewer, ..layout }).valid(),
        layout.num_planes < 4 ==> {
            let plane = layout.planes@[layout.num_planes as int];
            (VirglResourceLayout { num_planes: (layout.num_planes + 1) as u32, ..layout }).valid()
                <==> plane.stride > 0 && plane.size > 0 && plane.offset + plane.size <= u64::MAX
        },
{
    let less = VirglResourceLayout { num_planes: fewer, ..layout };
    assert forall|i: int| 0 <= i < fewer implies (#[trigger] less.planes@[i]).valid() by {
        assert(layout.planes@[i].valid());
    }
    if layout.num_planes < 4 {
        let n = layout.num_planes as int;
        let more = VirglResourceLayout { num_planes: (layout.num_planes + 1) as u32, ..layout };
        if more.valid() {
            assert(more.planes@[n].valid());
        }
        if layout.planes@[n].valid() {
            assert forall|i: int| 0 <= i < more.num_planes implies (
            #[trigger] more.planes@[i]).valid() by {
                if i < n {
                    assert(layout.planes@[i].valid());
                }
            }
        }
    }
}

} // verus!
