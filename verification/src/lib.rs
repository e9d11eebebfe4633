//! Three-layer snapshots of virtual machines and the memory that they share.
//!
//! Two base layers are shared by all instances: L0 holds the infrastructure, L1 the runtime. Each
//! instance keeps what it changes in a layer of its own, L2.
//!
//! - [`shared_memfile`] maps the memory files of the base layers once and counts who uses them.
//! - [`page_bitmap`] and [`cow_overlay`] keep the pages that an instance has changed, and save and
//!   load them as checkpoints.
//! - [`uffd`] resolves page faults from what an instance sees.
//! - [`snapshot_layers`] puts the layers together, takes snapshots and restores them.
//! - [`memory_reclaim`] cleans up after an instance and brings it back.
//! - [`layered`] and [`cmd`] create base layers on command.
//!
//! Nothing in here opens a file, maps memory or talks to a hypervisor. Where such work is needed,
//! a function takes what came of the last step as an event and returns the next step; [`runs`] says
//! what a whole run of such steps is, and each module proves in which order its runs go.

pub mod cmd;
pub mod cow_overlay;
pub mod layered;
pub mod memory_reclaim;
pub mod page_bitmap;
pub mod paths;
pub mod runs;
pub mod shared_memfile;
pub mod snapshot_layers;
pub mod text;
pub mod uffd;
