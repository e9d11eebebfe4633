//! Three-layer snapshot orchestration.
//!
//! The base layers are created in two phases: first the L0 snapshot (kernel, agent, base system),
//! then the L1 snapshot (runtime, frameworks). Each phase boots a VM from the rootfs of the layer,
//! waits for it to be ready, pauses it and takes a snapshot.

use crate::paths::{join, joined, law_joined_names, path_key};
use crate::runs::{answered, is_run, Turn};
pub use crate::snapshot_layers::{Layer, LayerRef, LayeredSnapshotMetadata};
use crate::text::{concat, concat3, concat4, decimal, decimal_text};
use vstd::prelude::*;

verus! {

/// How much of the guest memory a snapshot saves
#[derive(Debug, Clone, Copy, PartialEq, Eq, Structural)]
pub enum SnapshotType {
    /// All of it
    Full,
    /// Only CoW anonymous pages, cumulative since restore
    Incremental,
    /// Only the pages dirtied since the previous snapshot of this type
    SoftDirty,
}

/// How many seconds a VM has to report that it is ready
pub const READY_TIMEOUT_SECS: u64 = 10;

/// How many seconds the system of a VM gets to stabilize
pub const SETTLE_SECS: u64 = 3;

/// A system call that a hypervisor may make at run time beyond its own rules
#[derive(Debug, Clone, Copy, PartialEq, Eq, Structural)]
pub enum AllowedSyscall {
    Mkdir,
    Getsockopt,
    Setsockopt,
}

/// The VM that is booted for the snapshot of a layer
#[derive(Debug)]
pub struct LayerVm {
    /// Kernel path
    pub kernel: String,
    /// Number of vCPUs
    pub vcpus: u32,
    /// Memory size in MB
    pub memory_mb: u64,
    /// The flag that goes to the hypervisor with the memory size
    pub memory_flag: bool,
    /// Path of the only disk
    pub disk: String,
}

/// What came of the last step of creating the snapshot of one layer.
pub enum LayerEvent {
    /// A caller asks for the snapshot.
    Requested,
    /// The hypervisor runs.
    VmmStarted,
    /// The hypervisor could not be started.
    VmmFailed(String),
    /// The VM is created.
    VmCreated,
    /// The VM could not be created.
    VmCreateFailed(String),
    /// The VM boots.
    VmBooted,
    /// The VM could not be booted.
    VmBootFailed(String),
    /// The VM sent an event: whether it is the expected one, and how the two are written.
    Notified { ready: bool, expected: String, actual: String },
    /// The VM sent no event in time.
    NotifyFailed(String),
    /// The wait is over.
    Settled,
    /// The VM is paused.
    VmPaused,
    /// The VM could not be paused.
    VmPauseFailed(String),
    /// The snapshot directory is there.
    DirectoryReady,
    /// The snapshot is taken.
    VmSnapshotted,
    /// The snapshot could not be taken.
    VmSnapshotFailed(String),
    /// The size of the memory file, if the file exists.
    MemfileMeasured { size: Option<u64> },
    /// The modification time of the rootfs, in seconds since the epoch unless it is before that.
    RootfsDated { memfile_size: u64, modified: Option<u64> },
    /// A file operation failed.
    IoFailed(String),
}

/// The next step of creating the snapshot of one layer.
pub enum LayerStep {
    /// Start a hypervisor for the sandbox that reports events and may make these system calls with
    /// any arguments.
    StartVmm { sandbox_id: String, allowed: Vec<AllowedSyscall> },
    /// Create the VM.
    CreateVm(LayerVm),
    /// Boot the VM.
    BootVm,
    /// Wait at most so long for the next event.
    AwaitReady { timeout_secs: u64 },
    /// Wait so long.
    Sleep { secs: u64 },
    /// Pause the VM.
    PauseVm,
    /// Create the directory with all its parents.
    CreateDirectory { path: String },
    /// Take a snapshot of the VM.
    SnapshotVm { destination_url: String, snapshot_type: SnapshotType },
    /// Find out whether the memory file exists and how large it is.
    MeasureMemfile { path: String },
    /// Find out when the rootfs was modified.
    DateRootfs { path: String, memfile_size: u64 },
    /// The snapshot is there.
    Done(LayerRef),
    /// The snapshot failed.
    Failed(String),
}

/// What came of the last step of creating the layered snapshots.
pub enum OrchestrationEvent {
    /// A caller asks for the snapshots.
    Requested,
    /// The output directory of L0 is there.
    L0DirectoryReady,
    /// The output directory of L1 is there.
    L1DirectoryReady,
    /// The L0 snapshot is there.
    L0Created(LayerRef),
    /// The L1 snapshot is there, after the L0 snapshot.
    L1Created { l0: LayerRef, l1: LayerRef },
    /// The metadata is saved.
    MetadataSaved(LayeredSnapshotMetadata),
    /// The last step failed.
    Failed(String),
}

/// The next step of creating the layered snapshots.
pub enum OrchestrationStep {
    /// Create the output directory of L0 with all its parents.
    CreateL0Directory { path: String },
    /// Create the output directory of L1 with all its parents.
    CreateL1Directory { path: String },
    /// Create the snapshot of the first layer.
    CreateL0 { output_dir: String, rootfs: String },
    /// Create the snapshot of the second layer; the first one is there.
    CreateL1 { l0: LayerRef, output_dir: String, rootfs: String },
    /// Write the metadata as JSON to the file.
    SaveMetadata { path: String, metadata: LayeredSnapshotMetadata },
    /// The snapshots are there.
    Done(LayeredSnapshotMetadata),
    /// The snapshots failed.
    Failed(String),
}

/// The directory of a layer's snapshot.
pub open spec fn snapshot_dir(output_dir: Seq<char>) -> Seq<char> {
    joined(output_dir, "snapshot"@)
}

/// The memory file of a layer's snapshot.
pub open spec fn memfile_of(output_dir: Seq<char>) -> Seq<char> {
    joined(snapshot_dir(output_dir), "memory-ranges"@)
}

/// The state file of a layer's snapshot.
pub open spec fn snapfile_of(output_dir: Seq<char>) -> Seq<char> {
    joined(snapshot_dir(output_dir), "state.json"@)
}

/// The build ID of a rootfs: its path and its modification time, which counts as the epoch if it
/// is before that.
pub open spec fn build_id_of(rootfs: Seq<char>, modified: Option<u64>) -> Seq<char> {
    rootfs + "-"@ + decimal(
        match modified {
            Some(secs) => secs as nat,
            None => 0,
        },
    )
}

/// The reference to the snapshot of a layer in its output directory.
pub open spec fn refers_to(
    layer_ref: LayerRef,
    layer: Layer,
    output_dir: Seq<char>,
    memfile_size: u64,
    build_id: Seq<char>,
) -> bool {
    &&& layer_ref.layer == layer
    &&& layer_ref.memfile_path@ == memfile_of(output_dir)
    &&& layer_ref.snapfile_path@ == snapfile_of(output_dir)
    &&& layer_ref.memfile_size == memfile_size
    &&& layer_ref.build_id@ == build_id
}

/// Orchestrates the creation of layered snapshots.
pub struct LayeredSnapshotOrchestrator {
    /// Base path for storing snapshots
    pub base_path: String,
    /// Kernel path
    pub kernel_path: String,
    /// L0 rootfs path
    pub l0_rootfs: String,
    /// L1 rootfs path
    pub l1_rootfs: String,
    /// Number of vCPUs
    pub vcpus: u32,
    /// Memory size in MB
    pub memory_mb: u32,
    /// Snapshot type to use
    pub snapshot_type: SnapshotType,
}

/// The metadata of layered snapshots for a guest with the given memory.
pub open spec fn describes(
    metadata: LayeredSnapshotMetadata,
    l0: LayerRef,
    l1: LayerRef,
    memory_mb: u32,
) -> bool {
    &&& metadata.enabled
    &&& metadata.l0 == Some(l0)
    &&& metadata.l1 == Some(l1)
    &&& metadata.l2_memfile_size == memory_mb * 1024 * 1024
    &&& metadata.guest_memory_size == memory_mb * 1024 * 1024
}

impl LayeredSnapshotOrchestrator {
    /// What one step of creating the layered snapshots does: both output directories are created,
    /// then the L0 snapshot, then the L1 snapshot, and last the metadata is saved. Every failure
    /// ends it.
    pub open spec fn orchestrates(
        &self,
        event: OrchestrationEvent,
        step: OrchestrationStep,
    ) -> bool {
        match event {
            OrchestrationEvent::Requested => step matches OrchestrationStep::CreateL0Directory {
                path,
            } && path@ == joined(self.base_path@, "l0"@),
            OrchestrationEvent::L0DirectoryReady => step matches
                OrchestrationStep::CreateL1Directory { path } && path@ == joined(
                self.base_path@,
                "l1"@,
            ),
            OrchestrationEvent::L1DirectoryReady => step matches OrchestrationStep::CreateL0 {
                output_dir,
                rootfs,
            } && output_dir@ == joined(self.base_path@, "l0"@) && rootfs@ == self.l0_rootfs@,
            OrchestrationEvent::L0Created(created) => step matches OrchestrationStep::CreateL1 {
                l0,
                output_dir,
                rootfs,
            } && l0 == created && output_dir@ == joined(self.base_path@, "l1"@) && rootfs@
                == self.l1_rootfs@,
            OrchestrationEvent::L1Created { l0, l1 } => step matches
                OrchestrationStep::SaveMetadata { path, metadata } && path@ == joined(
                self.base_path@,
                "layered_metadata.json"@,
            ) && describes(metadata, l0, l1, self.memory_mb),
            OrchestrationEvent::MetadataSaved(metadata) => step == OrchestrationStep::Done(
                metadata,
            ),
            OrchestrationEvent::Failed(cause) => step == OrchestrationStep::Failed(cause),
        }
    }

    /// What one step of creating the snapshot of a layer does: a VM is created from the rootfs and
    /// booted; once it is ready and has settled it is paused, and its snapshot is taken in the
    /// output directory. Every failure ends it.
    pub open spec fn snapshots_layer(
        &self,
        layer: Layer,
        output_dir: Seq<char>,
        rootfs: Seq<char>,
        event: LayerEvent,
        step: LayerStep,
    ) -> bool {
        match event {
            LayerEvent::Requested => step matches LayerStep::StartVmm { sandbox_id, allowed }
                && sandbox_id@ == "snapshot-"@ + layer.text() && allowed@ == seq![
                AllowedSyscall::Mkdir,
                AllowedSyscall::Getsockopt,
                AllowedSyscall::Setsockopt,
            ],
            LayerEvent::VmmStarted => step matches LayerStep::CreateVm(vm) && vm.kernel@
                == self.kernel_path@ && vm.vcpus == self.vcpus && vm.memory_mb
                == self.memory_mb && vm.memory_flag && vm.disk@ == rootfs,
            LayerEvent::VmmFailed(cause) => step matches LayerStep::Failed(text) && text@
                == "New vmm instance failed: "@ + cause@,
            LayerEvent::VmCreated => step is BootVm,
            LayerEvent::VmCreateFailed(cause) => step matches LayerStep::Failed(text) && text@
                == "Create vm failed: "@ + cause@,
            LayerEvent::VmBooted => step matches LayerStep::AwaitReady { timeout_secs }
                && timeout_secs == READY_TIMEOUT_SECS,
            LayerEvent::VmBootFailed(cause) => step matches LayerStep::Failed(text) && text@
                == "Boot vm failed: "@ + cause@,
            LayerEvent::Notified { ready, expected, actual } => if ready {
                step matches LayerStep::Sleep { secs } && secs == SETTLE_SECS
            } else {
                step matches LayerStep::Failed(text) && text@
                    == "Not an expected event, expected: "@ + expected@ + ", actual: "@
                    + actual@
            },
            LayerEvent::NotifyFailed(cause) => step matches LayerStep::Failed(text) && text@
                == "Wait vm ready err: "@ + cause@,
            LayerEvent::Settled => step is PauseVm,
            LayerEvent::VmPaused => step matches LayerStep::CreateDirectory { path } && path@
                == snapshot_dir(output_dir),
            LayerEvent::VmPauseFailed(cause) => step matches LayerStep::Failed(text) && text@
                == "Pause vm failed: "@ + cause@,
            LayerEvent::DirectoryReady => step matches LayerStep::SnapshotVm {
                destination_url,
                snapshot_type,
            } && destination_url@ == "file://"@ + snapshot_dir(output_dir) && snapshot_type
                == self.snapshot_type,
            LayerEvent::VmSnapshotted => step matches LayerStep::MeasureMemfile { path }
                && path@ == memfile_of(output_dir),
            LayerEvent::VmSnapshotFailed(cause) => step matches LayerStep::Failed(text)
                && text@ == "Snapshot vm failed: "@ + cause@,
            LayerEvent::MemfileMeasured { size } => step matches LayerStep::DateRootfs {
                path,
                memfile_size,
            } && path@ == rootfs && memfile_size == match size {
                Some(size) => size,
                None => 0,
            },
            LayerEvent::RootfsDated { memfile_size, modified } => step matches LayerStep::Done(
                layer_ref,
            ) && refers_to(
                layer_ref,
                layer,
                output_dir,
                memfile_size,
                build_id_of(rootfs, modified),
            ),
            LayerEvent::IoFailed(cause) => step == LayerStep::Failed(cause),
        }
    }

    /// Creates a new layered snapshot orchestrator.
    pub fn new(
        base_path: &str,
        kernel_path: &str,
        l0_rootfs: &str,
        l1_rootfs: &str,
        vcpus: u32,
        memory_mb: u32,
        snapshot_type: SnapshotType,
    ) -> (r: Self)
        ensures
            r.base_path@ == base_path@,
            r.kernel_path@ == kernel_path@,
            r.l0_rootfs@ == l0_rootfs@,
            r.l1_rootfs@ == l1_rootfs@,
            r.vcpus == vcpus,
            r.memory_mb == memory_mb,
            r.snapshot_type == snapshot_type,
    {
        LayeredSnapshotOrchestrator {
            base_path: base_path.to_owned(),
            kernel_path: kernel_path.to_owned(),
            l0_rootfs: l0_rootfs.to_owned(),
            l1_rootfs: l1_rootfs.to_owned(),
            vcpus,
            memory_mb,
            snapshot_type,
        }
    }

    /// Creates the layered snapshots (L0 and L1).
    ///
    /// The caller starts with `OrchestrationEvent::Requested`, does what each step says and hands
    /// back what came of it, until the step is `Done` or `Failed`. The snapshots of the layers are
    /// created with `create_layer_snapshot`.
    pub fn create_layered_snapshots(&self, event: OrchestrationEvent) -> (step: OrchestrationStep)
        ensures
            self.orchestrates(event, step),
    {
        match event {
            OrchestrationEvent::Requested => OrchestrationStep::CreateL0Directory {
                path: join(self.base_path.as_str(), "l0"),
            },
            OrchestrationEvent::L0DirectoryReady => OrchestrationStep::CreateL1Directory {
                path: join(self.base_path.as_str(), "l1"),
            },
            OrchestrationEvent::L1DirectoryReady => OrchestrationStep::CreateL0 {
                output_dir: join(self.base_path.as_str(), "l0"),
                rootfs: self.l0_rootfs.clone(),
            },
            OrchestrationEvent::L0Created(l0) => OrchestrationStep::CreateL1 {
                l0,
                output_dir: join(self.base_path.as_str(), "l1"),
                rootfs: self.l1_rootfs.clone(),
            },
            OrchestrationEvent::L1Created { l0, l1 } => {
                let memory_size: u64 = self.memory_mb as u64 * 1024 * 1024;
                OrchestrationStep::SaveMetadata {
                    path: join(self.base_path.as_str(), "layered_metadata.json"),
                    metadata: LayeredSnapshotMetadata {
                        enabled: true,
                        l0: Some(l0),
                        l1: Some(l1),
                        l2_memfile_size: memory_size,
                        guest_memory_size: memory_size,
                    },
                }
            },
            OrchestrationEvent::MetadataSaved(metadata) => OrchestrationStep::Done(metadata),
            OrchestrationEvent::Failed(cause) => OrchestrationStep::Failed(cause),
        }
    }

    /// Creates a single layer snapshot in the output directory.
    ///
    /// The caller starts with `LayerEvent::Requested`, does what each step says and hands back what
    /// came of it, until the step is `Done` or `Failed`.
    pub fn create_layer_snapshot(
        &self,
        layer: Layer,
        output_dir: &str,
        rootfs: &str,
        event: LayerEvent,
    ) -> (step: LayerStep)
        ensures
            self.snapshots_layer(layer, output_dir@, rootfs@, event, step),
    {
        match event {
            LayerEvent::Requested => LayerStep::StartVmm {
                sandbox_id: concat("snapshot-", layer.to_string().as_str()),
                allowed: vec![
                    AllowedSyscall::Mkdir,
                    AllowedSyscall::Getsockopt,
                    AllowedSyscall::Setsockopt,
                ],
            },
            LayerEvent::VmmStarted => LayerStep::CreateVm(
                LayerVm {
                    kernel: self.kernel_path.clone(),
                    vcpus: self.vcpus,
                    memory_mb: self.memory_mb as u64,
                    memory_flag: true,
                    disk: rootfs.to_owned(),
                },
            ),
            LayerEvent::VmmFailed(cause) => LayerStep::Failed(
                concat("New vmm instance failed: ", cause.as_str()),
            ),
            LayerEvent::VmCreated => LayerStep::BootVm,
            LayerEvent::VmCreateFailed(cause) => LayerStep::Failed(
                concat("Create vm failed: ", cause.as_str()),
            ),
            LayerEvent::VmBooted => LayerStep::AwaitReady { timeout_secs: READY_TIMEOUT_SECS },
            LayerEvent::VmBootFailed(cause) => LayerStep::Failed(
                concat("Boot vm failed: ", cause.as_str()),
            ),
            LayerEvent::Notified { ready, expected, actual } => {
                if ready {
                    LayerStep::Sleep { secs: SETTLE_SECS }
                } else {
                    LayerStep::Failed(
                        concat4(
                            "Not an expected event, expected: ",
                            expected.as_str(),
                            ", actual: ",
                            actual.as_str(),
                        ),
                    )
                }
            },
            LayerEvent::NotifyFailed(cause) => LayerStep::Failed(
                concat("Wait vm ready err: ", cause.as_str()),
            ),
            LayerEvent::Settled => LayerStep::PauseVm,
            LayerEvent::VmPaused => LayerStep::CreateDirectory {
                path: join(output_dir, "snapshot"),
            },
            LayerEvent::VmPauseFailed(cause) => LayerStep::Failed(
                concat("Pause vm failed: ", cause.as_str()),
            ),
            LayerEvent::DirectoryReady => {
                let snapshot_path = join(output_dir, "snapshot");
                LayerStep::SnapshotVm {
                    destination_url: concat("file://", snapshot_path.as_str()),
                    snapshot_type: self.snapshot_type,
                }
            },
            LayerEvent::VmSnapshotted => {
                let snapshot_path = join(output_dir, "snapshot");
                LayerStep::MeasureMemfile { path: join(snapshot_path.as_str(), "memory-ranges") }
            },
            LayerEvent::VmSnapshotFailed(cause) => LayerStep::Failed(
                concat("Snapshot vm failed: ", cause.as_str()),
            ),
            LayerEvent::MemfileMeasured { size } => {
                let memfile_size: u64 = match size {
                    Some(size) => size,
                    None => 0,
                };
                LayerStep::DateRootfs { path: rootfs.to_owned(), memfile_size }
            },
            LayerEvent::RootfsDated { memfile_size, modified } => {
                let snapshot_path = join(output_dir, "snapshot");
                LayerStep::Done(
                    LayerRef {
                        layer,
                        memfile_path: join(snapshot_path.as_str(), "memory-ranges"),
                        snapfile_path: join(snapshot_path.as_str(), "state.json"),
                        memfile_size,
                        build_id: self.get_build_id(rootfs, modified),
                    },
                )
            },
            LayerEvent::IoFailed(cause) => LayerStep::Failed(cause),
        }
    }

    /// Gets a build ID for a rootfs file that was modified so many seconds after the epoch, or
    /// before it.
    fn get_build_id(&self, rootfs: &str, modified: Option<u64>) -> (r: String)
        ensures
            r@ == build_id_of(rootfs@, modified),
    {
        let timestamp: u64 = match modified {
            Some(secs) => secs,
            None => 0,
        };
        concat3(rootfs, "-", decimal_text(timestamp).as_str())
    }
}

/// Creates a layered snapshot using the CLI tool: one step of the orchestrator with the given
/// settings.
///
/// The caller starts with `OrchestrationEvent::Requested`, does what each step says and hands back
/// what came of it; it reports the metadata that comes with `Done`.
pub fn create_layered_snapshot_cli(
    base_path: &str,
    kernel_path: &str,
    l0_rootfs: &str,
    l1_rootfs: &str,
    vcpus: u32,
    memory_mb: u32,
    snapshot_type: SnapshotType,
    event: OrchestrationEvent,
) -> (r: (LayeredSnapshotOrchestrator, OrchestrationStep))
    ensures
        r.0.base_path@ == base_path@,
        r.0.kernel_path@ == kernel_path@,
        r.0.l0_rootfs@ == l0_rootfs@,
        r.0.l1_rootfs@ == l1_rootfs@,
        r.0.vcpus == vcpus,
        r.0.memory_mb == memory_mb,
        r.0.snapshot_type == snapshot_type,
        r.0.orchestrates(event, r.1),
{
    let orchestrator = LayeredSnapshotOrchestrator::new(
        base_path,
        kernel_path,
        l0_rootfs,
        l1_rootfs,
        vcpus,
        memory_mb,
        snapshot_type,
    );
    let step = orchestrator.create_layered_snapshots(event);
    (orchestrator, step)
}

/// The snapshots of the two layers never share a memory file, whatever the base path is.
pub proof fn law_layers_apart(base_path: Seq<char>)
    ensures
        path_key(memfile_of(joined(base_path, "l0"@))) != path_key(
            memfile_of(joined(base_path, "l1"@)),
        ),
{
    reveal_strlit("l0");
    reveal_strlit("l1");
    reveal_strlit("snapshot");
    reveal_strlit("memory-ranges");
    assert("snapshot"@.len() == 8);
    assert("memory-ranges"@.len() == 13);
    let first = joined(base_path, "l0"@);
    let second = joined(base_path, "l1"@);
    law_joined_names(base_path, "l0"@);
    law_joined_names(base_path, "l1"@);
    law_joined_names(first, "snapshot"@);
    law_joined_names(second, "snapshot"@);
    law_joined_names(snapshot_dir(first), "memory-ranges"@);
    law_joined_names(snapshot_dir(second), "memory-ranges"@);
    let place = path_key(base_path).names.len() as int;
    assert(path_key(memfile_of(first)).names[place] == "l0"@);
    assert(path_key(memfile_of(second)).names[place] == "l1"@);
    assert("l0"@[1] != "l1"@[1]);
}

/// What can come of a step of creating the snapshot of a layer.
pub open spec fn layer_answers(step: LayerStep, event: LayerEvent) -> bool {
    match step {
        LayerStep::StartVmm { .. } => event is VmmStarted || event is VmmFailed,
        LayerStep::CreateVm(_) => event is VmCreated || event is VmCreateFailed,
        LayerStep::BootVm => event is VmBooted || event is VmBootFailed,
        LayerStep::AwaitReady { .. } => event is Notified || event is NotifyFailed,
        LayerStep::Sleep { .. } => event is Settled,
        LayerStep::PauseVm => event is VmPaused || event is VmPauseFailed,
        LayerStep::CreateDirectory { .. } => event is DirectoryReady || event is IoFailed,
        LayerStep::SnapshotVm { .. } => event is VmSnapshotted || event is VmSnapshotFailed,
        LayerStep::MeasureMemfile { .. } => event is MemfileMeasured || event is IoFailed,
        LayerStep::DateRootfs { memfile_size, .. } => match event {
            LayerEvent::RootfsDated { memfile_size: size, .. } => size == memfile_size,
            _ => event is IoFailed,
        },
        LayerStep::Done(_) => false,
        LayerStep::Failed(_) => false,
    }
}

/// Where a step of creating the snapshot of a layer has its place in a run.
pub open spec fn layer_place(step: LayerStep) -> int {
    match step {
        LayerStep::StartVmm { .. } => 0,
        LayerStep::CreateVm(_) => 1,
        LayerStep::BootVm => 2,
        LayerStep::AwaitReady { .. } => 3,
        LayerStep::Sleep { .. } => 4,
        LayerStep::PauseVm => 5,
        LayerStep::CreateDirectory { .. } => 6,
        LayerStep::SnapshotVm { .. } => 7,
        LayerStep::MeasureMemfile { .. } => 8,
        LayerStep::DateRootfs { .. } => 9,
        LayerStep::Done(_) => 10,
        LayerStep::Failed(_) => 11,
    }
}

/// A run of creating the snapshot of a layer.
pub open spec fn is_layer_run(
    orchestrator: &LayeredSnapshotOrchestrator,
    layer: Layer,
    output_dir: Seq<char>,
    rootfs: Seq<char>,
    run: Seq<Turn<LayerEvent, LayerStep>>,
) -> bool {
    is_run(
        run,
        |event: LayerEvent| event is Requested,
        |event: LayerEvent, step: LayerStep|
            orchestrator.snapshots_layer(layer, output_dir, rootfs, event, step),
        |step: LayerStep, event: LayerEvent| layer_answers(step, event),
    )
}

/// Every run of creating the snapshot of a layer takes its steps in the same order, until it fails.
/// So a snapshot is taken only of a VM that was created, booted, reported ready, settled and
/// paused, in this order; it is of the orchestrator's type, and it goes to the directory that was
/// created for it. The VM is the one that the orchestrator describes, with the rootfs as its disk.
/// The reference tells what was found of the files in that directory.
pub proof fn law_layer_order(
    orchestrator: &LayeredSnapshotOrchestrator,
    layer: Layer,
    output_dir: Seq<char>,
    rootfs: Seq<char>,
    run: Seq<Turn<LayerEvent, LayerStep>>,
    i: int,
)
    requires
        is_layer_run(orchestrator, layer, output_dir, rootfs, run),
        0 <= i < run.len(),
    ensures
        run[i].step is Failed || layer_place(run[i].step) == i,
        forall|j: int| 0 <= j < i ==> layer_place((#[trigger] run[j]).step) == j,
        i > 3 ==> match run[4].event {
            LayerEvent::Notified { ready, .. } => ready == !(run[4].step is Failed),
            _ => run[4].step is Failed,
        },
        run[i].step is SnapshotVm ==> {
            &&& i == 7
            &&& run[1].step is CreateVm
            &&& run[2].step is BootVm
            &&& run[3].step is AwaitReady
            &&& run[4].event matches LayerEvent::Notified { ready: true, .. }
            &&& run[5].step is PauseVm
            &&& run[6].event is VmPaused
        },
        run[i].step matches LayerStep::Done(layer_ref) ==> {
            &&& i == 10
            &&& run[9].event matches LayerEvent::MemfileMeasured { size }
            &&& run[10].event matches LayerEvent::RootfsDated { modified, .. }
            &&& refers_to(
                layer_ref,
                layer,
                output_dir,
                match size {
                    Some(size) => size,
                    None => 0,
                },
                build_id_of(rootfs, modified),
            )
            &&& run[6].step matches LayerStep::CreateDirectory { path: dir }
            &&& run[8].step matches LayerStep::MeasureMemfile { path: measured }
            &&& layer_ref.layer == layer
            &&& layer_ref.memfile_path@ == measured@
            &&& layer_ref.snapfile_path@ == joined(dir@, "state.json"@)
            &&& size matches Some(size) ==> layer_ref.memfile_size == size
            &&& size is None ==> layer_ref.memfile_size == 0
            &&& layer_ref.build_id@ == rootfs + "-"@ + decimal(
                match modified {
                    Some(secs) => secs as nat,
                    None => 0,
                },
            )
        },
        run[i].step matches LayerStep::StartVmm { sandbox_id, allowed } ==> {
            &&& sandbox_id@ == "snapshot-"@ + match layer {
                Layer::L0 => "L0"@,
                Layer::L1 => "L1"@,
                Layer::L2 => "L2"@,
            }
            &&& allowed@ == seq![
                AllowedSyscall::Mkdir,
                AllowedSyscall::Getsockopt,
                AllowedSyscall::Setsockopt,
            ]
        },
        run[i].step matches LayerStep::CreateVm(vm) ==> {
            &&& vm.kernel@ == orchestrator.kernel_path@
            &&& vm.vcpus == orchestrator.vcpus
            &&& vm.memory_mb == orchestrator.memory_mb
            &&& vm.memory_flag
            &&& vm.disk@ == rootfs
        },
        run[i].step matches LayerStep::AwaitReady { timeout_secs } ==> timeout_secs == 10,
        run[i].step matches LayerStep::Sleep { secs } ==> secs == 3,
        run[i].step matches LayerStep::CreateDirectory { path } ==> path@ == joined(
            output_dir,
            "snapshot"@,
        ),
        run[i].step matches LayerStep::SnapshotVm { destination_url, snapshot_type } ==> {
            &&& snapshot_type == orchestrator.snapshot_type
            &&& run[6].step matches LayerStep::CreateDirectory { path }
            &&& destination_url@ == "file://"@ + path@
        },
        run[i].step matches LayerStep::MeasureMemfile { path } ==> {
            &&& run[6].step matches LayerStep::CreateDirectory { path: dir }
            &&& path@ == joined(dir@, "memory-ranges"@)
        },
        run[i].step matches LayerStep::DateRootfs { path, memfile_size } ==> {
            &&& path@ == rootfs
            &&& run[i].event matches LayerEvent::MemfileMeasured { size }
            &&& size matches Some(size) ==> memfile_size == size
            &&& size is None ==> memfile_size == 0
        },
    decreases i,
{
    let answers = |step: LayerStep, event: LayerEvent| layer_answers(step, event);
    if i > 0 {
        law_layer_order(orchestrator, layer, output_dir, rootfs, run, i - 1);
        assert(answered(run, i, answers));
        assert(layer_answers(run[i - 1].step, run[i].event));
    }
    assert(orchestrator.snapshots_layer(layer, output_dir, rootfs, run[i].event, run[i].step));
    if i > 6 {
        assert(answered(run, 6, answers));
        assert(orchestrator.snapshots_layer(layer, output_dir, rootfs, run[6].event, run[6].step));
    }
    if i == 10 {
        assert(answered(run, 8, answers));
        assert(orchestrator.snapshots_layer(layer, output_dir, rootfs, run[8].event, run[8].step));
        assert(answered(run, 9, answers));
        assert(orchestrator.snapshots_layer(layer, output_dir, rootfs, run[9].event, run[9].step));
    }
}

/// What can come of a step of creating the layered snapshots.
pub open spec fn orchestration_answers(step: OrchestrationStep, event: OrchestrationEvent) -> bool {
    match step {
        OrchestrationStep::CreateL0Directory { .. } => event is L0DirectoryReady || event is Failed,
        OrchestrationStep::CreateL1Directory { .. } => event is L1DirectoryReady || event is Failed,
        OrchestrationStep::CreateL0 { .. } => event is L0Created || event is Failed,
        OrchestrationStep::CreateL1 { l0, .. } => match event {
            OrchestrationEvent::L1Created { l0: kept, .. } => kept == l0,
            _ => event is Failed,
        },
        OrchestrationStep::SaveMetadata { metadata, .. } => match event {
            OrchestrationEvent::MetadataSaved(kept) => kept == metadata,
            _ => event is Failed,
        },
        OrchestrationStep::Done(_) => false,
        OrchestrationStep::Failed(_) => false,
    }
}

/// Where a step of creating the layered snapshots has its place in a run.
pub open spec fn orchestration_place(step: OrchestrationStep) -> int {
    match step {
        OrchestrationStep::CreateL0Directory { .. } => 0,
        OrchestrationStep::CreateL1Directory { .. } => 1,
        OrchestrationStep::CreateL0 { .. } => 2,
        OrchestrationStep::CreateL1 { .. } => 3,
        OrchestrationStep::SaveMetadata { .. } => 4,
        OrchestrationStep::Done(_) => 5,
        OrchestrationStep::Failed(_) => 6,
    }
}

/// A run of creating the layered snapshots.
pub open spec fn is_orchestration_run(
    orchestrator: &LayeredSnapshotOrchestrator,
    run: Seq<Turn<OrchestrationEvent, OrchestrationStep>>,
) -> bool {
    is_run(
        run,
        |event: OrchestrationEvent| event is Requested,
        |event: OrchestrationEvent, step: OrchestrationStep| orchestrator.orchestrates(event, step),
        |step: OrchestrationStep, event: OrchestrationEvent| orchestration_answers(step, event),
    )
}

/// Every run of creating the layered snapshots takes its steps in the same order, until it fails:
/// the directories, the L0 snapshot, the L1 snapshot, the metadata. Each snapshot is created in the
/// directory of its layer from the rootfs of its layer. What it returns names the two snapshots that
/// were created in it and the memory of the guest in bytes, and was saved.
pub proof fn law_orchestration_order(
    orchestrator: &LayeredSnapshotOrchestrator,
    run: Seq<Turn<OrchestrationEvent, OrchestrationStep>>,
    i: int,
)
    requires
        is_orchestration_run(orchestrator, run),
        0 <= i < run.len(),
    ensures
        run[i].step is Failed || orchestration_place(run[i].step) == i,
        forall|j: int| 0 <= j < i ==> orchestration_place((#[trigger] run[j]).step) == j,
        run[i].step matches OrchestrationStep::Done(metadata) ==> {
            &&& i == 5
            &&& run[3].event matches OrchestrationEvent::L0Created(l0)
            &&& run[4].event matches OrchestrationEvent::L1Created { l1, .. }
            &&& run[4].step matches OrchestrationStep::SaveMetadata { metadata: saved, .. }
            &&& saved == metadata
            &&& describes(metadata, l0, l1, orchestrator.memory_mb)
            &&& metadata.enabled
            &&& metadata.l0 == Some(l0)
            &&& metadata.l1 == Some(l1)
            &&& metadata.l2_memfile_size == orchestrator.memory_mb * 0x10_0000
            &&& metadata.guest_memory_size == orchestrator.memory_mb * 0x10_0000
        },
        run[i].step matches OrchestrationStep::CreateL0Directory { path } ==> path@ == joined(
            orchestrator.base_path@,
            "l0"@,
        ),
        run[i].step matches OrchestrationStep::CreateL1Directory { path } ==> path@ == joined(
            orchestrator.base_path@,
            "l1"@,
        ),
        run[i].step matches OrchestrationStep::CreateL0 { output_dir, rootfs } ==> {
            &&& run[0].step matches OrchestrationStep::CreateL0Directory { path }
            &&& output_dir@ == path@
            &&& rootfs@ == orchestrator.l0_rootfs@
        },
        run[i].step matches OrchestrationStep::CreateL1 { l0, output_dir, rootfs } ==> {
            &&& run[i].event == OrchestrationEvent::L0Created(l0)
            &&& run[1].step matches OrchestrationStep::CreateL1Directory { path }
            &&& output_dir@ == path@
            &&& rootfs@ == orchestrator.l1_rootfs@
        },
        run[i].step matches OrchestrationStep::SaveMetadata { path, .. } ==> path@ == joined(
            orchestrator.base_path@,
            "layered_metadata.json"@,
        ),
        run[i].step is Failed <==> run[i].event is Failed,
        run[i].event matches OrchestrationEvent::Failed(cause) ==> run[i].step
            == OrchestrationStep::Failed(cause),
    decreases i,
{
    let answers = |step: OrchestrationStep, event: OrchestrationEvent|
        orchestration_answers(step, event);
    if i > 0 {
        law_orchestration_order(orchestrator, run, i - 1);
        assert(answered(run, i, answers));
        assert(orchestration_answers(run[i - 1].step, run[i].event));
    }
    assert(orchestrator.orchestrates(run[i].event, run[i].step));
    if i > 1 {
        assert(orchestrator.orchestrates(run[0].event, run[0].step));
        assert(answered(run, 1, answers));
        assert(orchestrator.orchestrates(run[1].event, run[1].step));
    }
    if i == 5 {
        assert(answered(run, 4, answers));
        assert(answered(run, 3, answers));
    }
}

/// Creating the snapshot of a layer fails if the last step failed or the VM reports something else
/// than that it is ready, and not otherwise. The error says what could not be done, and ends with
/// the cause; what failed in a file is passed on as it is.
pub proof fn law_layer_failures(
    orchestrator: &LayeredSnapshotOrchestrator,
    layer: Layer,
    output_dir: Seq<char>,
    rootfs: Seq<char>,
    event: LayerEvent,
    step: LayerStep,
)
    requires
        orchestrator.snapshots_layer(layer, output_dir, rootfs, event, step),
    ensures
        step is Failed <==> match event {
            LayerEvent::VmmFailed(_) => true,
            LayerEvent::VmCreateFailed(_) => true,
            LayerEvent::VmBootFailed(_) => true,
            LayerEvent::Notified { ready, .. } => !ready,
            LayerEvent::NotifyFailed(_) => true,
            LayerEvent::VmPauseFailed(_) => true,
            LayerEvent::VmSnapshotFailed(_) => true,
            LayerEvent::IoFailed(_) => true,
            _ => false,
        },
        step matches LayerStep::Failed(text) ==> {
            ||| event matches LayerEvent::VmmFailed(cause) && text@ == "New vmm instance failed: "@
                + cause@
            ||| event matches LayerEvent::VmCreateFailed(cause) && text@ == "Create vm failed: "@
                + cause@
            ||| event matches LayerEvent::VmBootFailed(cause) && text@ == "Boot vm failed: "@
                + cause@
            ||| event matches LayerEvent::Notified { expected, actual, .. } && text@
                == "Not an expected event, expected: "@ + expected@ + ", actual: "@ + actual@
            ||| event matches LayerEvent::NotifyFailed(cause) && text@ == "Wait vm ready err: "@
                + cause@
            ||| event matches LayerEvent::VmPauseFailed(cause) && text@ == "Pause vm failed: "@
                + cause@
            ||| event matches LayerEvent::VmSnapshotFailed(cause) && text@ == "Snapshot vm failed: "@
                + cause@
            ||| event == LayerEvent::IoFailed(text)
        },
{
}

} // verus!
