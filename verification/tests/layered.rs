use layered_snapshot::layered::{
    create_layered_snapshot_cli, AllowedSyscall, Layer, LayerEvent, LayerRef, LayerStep,
    LayeredSnapshotOrchestrator, OrchestrationEvent, OrchestrationStep, SnapshotType,
};
use layered_snapshot::paths::same_path;

#[test]
fn layered_test_layer_display() {
    assert_eq!(Layer::L0.to_string(), "L0");
    assert_eq!(Layer::L1.to_string(), "L1");
    assert_eq!(Layer::L2.to_string(), "L2");
}

fn orchestrator() -> LayeredSnapshotOrchestrator {
    LayeredSnapshotOrchestrator::new(
        "/base",
        "/vmlinux",
        "/l0.ext4",
        "/l1.ext4",
        2,
        512,
        SnapshotType::Full,
    )
}

fn run_layer(layer: Layer, output_dir: &str, rootfs: &str) -> LayerRef {
    let orchestrator = orchestrator();
    let mut event = LayerEvent::Requested;
    loop {
        event = match orchestrator.create_layer_snapshot(layer, output_dir, rootfs, event) {
            LayerStep::StartVmm { sandbox_id, allowed } => {
                assert_eq!(
                    allowed,
                    vec![
                        AllowedSyscall::Mkdir,
                        AllowedSyscall::Getsockopt,
                        AllowedSyscall::Setsockopt
                    ]
                );
                assert_eq!(sandbox_id, format!("snapshot-{}", layer.to_string()));
                LayerEvent::VmmStarted
            }
            LayerStep::CreateVm(vm) => {
                assert_eq!((vm.kernel.as_str(), vm.vcpus), ("/vmlinux", 2));
                assert_eq!((vm.memory_mb, vm.memory_flag), (512, true));
                assert_eq!(vm.disk, rootfs);
                LayerEvent::VmCreated
            }
            LayerStep::BootVm => LayerEvent::VmBooted,
            LayerStep::AwaitReady { timeout_secs } => {
                assert_eq!(timeout_secs, 10);
                LayerEvent::Notified {
                    ready: true,
                    expected: "SysStart".to_string(),
                    actual: "SysStart".to_string(),
                }
            }
            LayerStep::Sleep { secs } => {
                assert_eq!(secs, 3);
                LayerEvent::Settled
            }
            LayerStep::PauseVm => LayerEvent::VmPaused,
            LayerStep::CreateDirectory { path } => {
                assert_eq!(path, format!("{}/snapshot", output_dir));
                LayerEvent::DirectoryReady
            }
            LayerStep::SnapshotVm { destination_url, snapshot_type } => {
                assert_eq!(destination_url, format!("file://{}/snapshot", output_dir));
                assert_eq!(snapshot_type, SnapshotType::Full);
                LayerEvent::VmSnapshotted
            }
            LayerStep::MeasureMemfile { path } => {
                assert_eq!(path, format!("{}/snapshot/memory-ranges", output_dir));
                LayerEvent::MemfileMeasured { size: Some(77) }
            }
            LayerStep::DateRootfs { path, memfile_size } => {
                assert_eq!(path, rootfs);
                LayerEvent::RootfsDated { memfile_size, modified: Some(1700000000) }
            }
            LayerStep::Done(layer_ref) => return layer_ref,
            LayerStep::Failed(text) => panic!("{}", text),
        };
    }
}

#[test]
fn a_layer_is_snapshotted_step_by_step() {
    let layer_ref = run_layer(Layer::L0, "/base/l0", "/l0.ext4");
    assert_eq!(layer_ref.layer, Layer::L0);
    assert_eq!(layer_ref.memfile_path, "/base/l0/snapshot/memory-ranges");
    assert_eq!(layer_ref.snapfile_path, "/base/l0/snapshot/state.json");
    assert_eq!(layer_ref.memfile_size, 77);
    assert_eq!(layer_ref.build_id, "/l0.ext4-1700000000");
}

#[test]
fn a_missing_memfile_is_empty_and_an_old_rootfs_is_of_the_epoch() {
    let orchestrator = orchestrator();
    let event = LayerEvent::MemfileMeasured { size: None };
    match orchestrator.create_layer_snapshot(Layer::L1, "/o", "/r", event) {
        LayerStep::DateRootfs { memfile_size, .. } => assert_eq!(memfile_size, 0),
        _ => panic!("no date"),
    }
    let event = LayerEvent::RootfsDated { memfile_size: 0, modified: None };
    match orchestrator.create_layer_snapshot(Layer::L1, "/o", "/r", event) {
        LayerStep::Done(layer_ref) => assert_eq!(layer_ref.build_id, "/r-0"),
        _ => panic!("not done"),
    }
}

#[test]
fn a_layer_can_fail() {
    let orchestrator = orchestrator();
    let cause = || "x".to_string();
    let cases = [
        (LayerEvent::VmmFailed(cause()), "New vmm instance failed: x"),
        (LayerEvent::VmCreateFailed(cause()), "Create vm failed: x"),
        (LayerEvent::VmBootFailed(cause()), "Boot vm failed: x"),
        (LayerEvent::NotifyFailed(cause()), "Wait vm ready err: x"),
        (
            LayerEvent::Notified {
                ready: false,
                expected: "SysStart".to_string(),
                actual: "SysStop".to_string(),
            },
            "Not an expected event, expected: SysStart, actual: SysStop",
        ),
        (LayerEvent::VmPauseFailed(cause()), "Pause vm failed: x"),
        (LayerEvent::VmSnapshotFailed(cause()), "Snapshot vm failed: x"),
        (LayerEvent::IoFailed(cause()), "x"),
    ];
    for (event, text) in cases {
        match orchestrator.create_layer_snapshot(Layer::L0, "/o", "/r", event) {
            LayerStep::Failed(failure) => assert_eq!(failure, text),
            _ => panic!("no failure"),
        }
    }
}

#[test]
fn both_layers_are_created_and_described() {
    let orchestrator = orchestrator();
    let mut directories = Vec::new();
    let mut event = OrchestrationEvent::Requested;
    let metadata = loop {
        event = match orchestrator.create_layered_snapshots(event) {
            OrchestrationStep::CreateL0Directory { path } => {
                directories.push(path);
                OrchestrationEvent::L0DirectoryReady
            }
            OrchestrationStep::CreateL1Directory { path } => {
                directories.push(path);
                OrchestrationEvent::L1DirectoryReady
            }
            OrchestrationStep::CreateL0 { output_dir, rootfs } => {
                OrchestrationEvent::L0Created(run_layer(Layer::L0, &output_dir, &rootfs))
            }
            OrchestrationStep::CreateL1 { l0, output_dir, rootfs } => {
                OrchestrationEvent::L1Created {
                    l0,
                    l1: run_layer(Layer::L1, &output_dir, &rootfs),
                }
            }
            OrchestrationStep::SaveMetadata { path, metadata } => {
                assert_eq!(path, "/base/layered_metadata.json");
                OrchestrationEvent::MetadataSaved(metadata)
            }
            OrchestrationStep::Done(metadata) => break metadata,
            OrchestrationStep::Failed(text) => panic!("{}", text),
        };
    };
    assert_eq!(directories, vec!["/base/l0", "/base/l1"]);
    assert!(metadata.enabled);
    assert_eq!(metadata.l2_memfile_size, 512 * 1024 * 1024);
    assert_eq!(metadata.guest_memory_size, 512 * 1024 * 1024);
    let (l0, l1) = (metadata.l0.unwrap(), metadata.l1.unwrap());
    assert_eq!((l0.layer, l1.layer), (Layer::L0, Layer::L1));
    assert_eq!(l1.build_id, "/l1.ext4-1700000000");
    assert!(!same_path(&l0.memfile_path, &l1.memfile_path));
}

#[test]
fn the_largest_memory_does_not_overflow() {
    let orchestrator =
        LayeredSnapshotOrchestrator::new("", "", "", "", 0, u32::MAX, SnapshotType::SoftDirty);
    let l0 = run_layer(Layer::L0, "a", "b");
    let l1 = l0.clone();
    let event = OrchestrationEvent::L1Created { l0, l1 };
    match orchestrator.create_layered_snapshots(event) {
        OrchestrationStep::SaveMetadata { path, metadata } => {
            assert_eq!(path, "layered_metadata.json");
            assert_eq!(metadata.guest_memory_size, 4503599626321920);
        }
        _ => panic!("no metadata"),
    }
}

#[test]
fn the_cli_starts_the_orchestrator() {
    let (orchestrator, step) = create_layered_snapshot_cli(
        "/base",
        "/k",
        "/a",
        "/b",
        1,
        256,
        SnapshotType::Incremental,
        OrchestrationEvent::Requested,
    );
    assert_eq!(orchestrator.kernel_path, "/k");
    assert_eq!(orchestrator.memory_mb, 256);
    assert_eq!(orchestrator.snapshot_type, SnapshotType::Incremental);
    match step {
        OrchestrationStep::CreateL0Directory { path } => assert_eq!(path, "/base/l0"),
        _ => panic!("no directory"),
    }
    match orchestrator.create_layered_snapshots(OrchestrationEvent::Failed("x".to_string())) {
        OrchestrationStep::Failed(text) => assert_eq!(text, "x"),
        _ => panic!("no failure"),
    }
}

#[test]
fn a_layer_is_ready_and_paused_before_its_snapshot() {
    let orchestrator = orchestrator();
    let next = |event| orchestrator.create_layer_snapshot(Layer::L0, "/o", "/r", event);
    let mut order = Vec::new();
    let mut event = LayerEvent::Requested;
    loop {
        let (name, answer) = match next(event) {
            LayerStep::StartVmm { .. } => ("start", LayerEvent::VmmStarted),
            LayerStep::CreateVm(_) => ("create", LayerEvent::VmCreated),
            LayerStep::BootVm => ("boot", LayerEvent::VmBooted),
            LayerStep::AwaitReady { .. } => (
                "ready",
                LayerEvent::Notified {
                    ready: true,
                    expected: String::new(),
                    actual: String::new(),
                },
            ),
            LayerStep::Sleep { .. } => ("sleep", LayerEvent::Settled),
            LayerStep::PauseVm => ("pause", LayerEvent::VmPaused),
            LayerStep::CreateDirectory { .. } => ("directory", LayerEvent::DirectoryReady),
            LayerStep::SnapshotVm { .. } => ("snapshot", LayerEvent::VmSnapshotted),
            LayerStep::MeasureMemfile { .. } => {
                ("measure", LayerEvent::MemfileMeasured { size: None })
            }
            LayerStep::DateRootfs { memfile_size, .. } => {
                ("date", LayerEvent::RootfsDated { memfile_size, modified: None })
            }
            LayerStep::Done(_) => break,
            LayerStep::Failed(text) => panic!("{}", text),
        };
        order.push(name);
        event = answer;
    }
    assert_eq!(
        order,
        vec![
            "start", "create", "boot", "ready", "sleep", "pause", "directory", "snapshot",
            "measure", "date"
        ]
    );
}
