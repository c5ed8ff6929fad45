# gpu_wddm

Memory handling of a virtio-gpu WDDM driver, verified with Verus.

- `src/boot_pool.rs`: the boot-shared DRM pool: config fields, placement, ranges.
- `src/bringup.rs`, `src/bringup/runtime.rs`: startup diagnostics.
- `src/guest_backing.rs` and below: guest backings as a state machine over kernel
  answers and effects: allocation, mapping, release, reaping, and the laws that
  hold of them.
- `src/guest_backing_layout.rs`: physical layout of chunked backings.
- `src/resource_layout.rs`: plane layouts reported by the host.
- `src/status.rs`: status codes.
- `src/text.rs`: decimal and UTF-16 text.
- `app/`: the kernel calls around the library.
