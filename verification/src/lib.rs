//! Memory handling of a virtio-gpu WDDM driver: the boot-shared pool, guest
//! backings, resource layouts and startup diagnostics.

pub mod boot_pool;
pub mod bringup;
pub mod guest_backing;
pub mod guest_backing_layout;
pub mod resource_layout;
pub mod status;
pub mod text;
