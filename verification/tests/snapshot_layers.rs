use layered_snapshot::cow_overlay::{CoWOverlay, CoWOverlayError, OverlayEvent, OverlayStep};
use layered_snapshot::shared_memfile::{MapEvent, MapStep, SharedMemfileError};
use layered_snapshot::snapshot_layers::{
    create_layered_snapshot, restore_from_layered_snapshot, InitEvent, InitStep, Layer, LayerRef,
    LayeredSnapshotMetadata, LayeredSnapshotStats, RestoreEvent, RestoreStep, SnapshotEvent,
    SnapshotLayerError, SnapshotLayerManager, SnapshotStep,
};
use layered_snapshot::uffd::UffdError;

#[test]
fn snapshot_layers_test_layer_display() {
    assert_eq!(Layer::L0.to_string(), "L0");
    assert_eq!(Layer::L1.to_string(), "L1");
    assert_eq!(Layer::L2.to_string(), "L2");
}

fn layer_ref(layer: Layer, path: &str) -> LayerRef {
    LayerRef {
        layer,
        memfile_path: path.to_string(),
        snapfile_path: format!("{}.snap", path),
        memfile_size: 4096,
        build_id: "build".to_string(),
    }
}

fn metadata(l0: Option<&str>, l1: Option<&str>) -> LayeredSnapshotMetadata {
    LayeredSnapshotMetadata {
        enabled: true,
        l0: l0.map(|path| layer_ref(Layer::L0, path)),
        l1: l1.map(|path| layer_ref(Layer::L1, path)),
        l2_memfile_size: 0,
        guest_memory_size: 8192,
    }
}

fn initialize<'a>(
    manager: &mut SnapshotLayerManager<'a>,
    metadata: &LayeredSnapshotMetadata,
    l0: &'a [u8],
    l1: &'a [u8],
) -> Result<Vec<Layer>, SnapshotLayerError> {
    let mut begun = Vec::new();
    let mut event = InitEvent::Requested;
    loop {
        let (layer, answer) = match manager.initialize(metadata, event) {
            InitStep::Begin { layer } => {
                begun.push(layer);
                (layer, MapEvent::Requested)
            }
            InitStep::Continue { layer, step } => {
                let data = if layer == Layer::L0 { l0 } else { l1 };
                match step {
                    MapStep::Open { .. } => (layer, MapEvent::Opened),
                    MapStep::Stat => (layer, MapEvent::Sized(data.len() as u64)),
                    MapStep::Mmap { .. } => (layer, MapEvent::Mapped(data)),
                    MapStep::Advise { data, .. } => {
                        (layer, MapEvent::Advised { data, accepted: true })
                    }
                    _ => unreachable!(),
                }
            }
            InitStep::Done => return Ok(begun),
            InitStep::Failed(error) => return Err(error),
        };
        event = if layer == Layer::L0 { InitEvent::L0(answer) } else { InitEvent::L1(answer) };
    }
}

#[test]
fn a_new_manager_has_nothing() {
    let manager = SnapshotLayerManager::new();
    assert!(!manager.is_enabled());
    assert!(manager.metadata().is_none());
    assert!(manager.l0_memfile().is_none());
    assert!(manager.l1_memfile().is_none());
    assert_eq!(manager.guest_memory_size(), 0);
    assert_eq!(manager.shared_manager().count(), 0);
    assert_eq!(manager.stats().shared_memory_bytes, 0);
    assert!(!SnapshotLayerManager::default().is_enabled());
    assert_eq!(SnapshotLayerManager::default().stats().overlay_memory_bytes, 0);
    let stats = LayeredSnapshotStats::default();
    assert_eq!((stats.l0_shared_vms, stats.l1_shared_vms, stats.overlay_memory_bytes), (0, 0, 0));
}

#[test]
fn both_layers_are_mapped_in_order() {
    let (l0, l1) = (vec![1u8; 4096], vec![2u8; 8192]);
    let mut manager = SnapshotLayerManager::new();
    let metadata = metadata(Some("/l0"), Some("/l1"));
    let begun = initialize(&mut manager, &metadata, &l0, &l1).unwrap();
    assert_eq!(begun, vec![Layer::L0, Layer::L1]);
    assert!(manager.is_enabled());
    assert_eq!(manager.guest_memory_size(), 8192);
    assert_eq!(manager.l0_memfile().unwrap().size, 4096);
    assert_eq!(manager.l1_memfile().unwrap().size, 8192);
    assert_eq!(manager.shared_manager().count(), 2);
    assert_eq!(manager.shared_manager().total_bytes(), 12288);
    assert_eq!(manager.metadata().unwrap().l0.as_ref().unwrap().memfile_path, "/l0");
}

#[test]
fn the_statistics_follow_what_is_mapped() {
    let l0 = vec![1u8; 4096];
    let mut manager = SnapshotLayerManager::new();
    let only_l0 = metadata(Some("/l0"), None);
    initialize(&mut manager, &only_l0, &l0, &[]).unwrap();
    assert_eq!(manager.stats().shared_memory_bytes, 4096);
    assert_eq!(manager.shared_manager().total_bytes(), 4096);
    assert_eq!((manager.stats().l0_shared_vms, manager.stats().l1_shared_vms), (1, 0));

    let l1 = vec![2u8; 100];
    initialize(&mut manager, &metadata(Some("/l0"), Some("/l1")), &l0, &l1).unwrap();
    assert_eq!(manager.stats().shared_memory_bytes, 4196);
    assert_eq!((manager.stats().l0_shared_vms, manager.stats().l1_shared_vms), (2, 1));

    manager.cleanup();
    assert_eq!(manager.stats().shared_memory_bytes, 0);
    assert_eq!((manager.stats().l0_shared_vms, manager.stats().l1_shared_vms), (0, 0));
}

#[test]
fn a_disabled_snapshot_maps_nothing() {
    let mut manager = SnapshotLayerManager::new();
    let mut disabled = metadata(Some("/l0"), Some("/l1"));
    disabled.enabled = false;
    assert_eq!(initialize(&mut manager, &disabled, &[], &[]).unwrap(), vec![]);
    assert!(!manager.is_enabled());
    assert!(manager.metadata().is_some());
    assert_eq!(manager.guest_memory_size(), 0);
    assert_eq!(manager.shared_manager().count(), 0);
}

#[test]
fn one_file_for_both_layers_is_mapped_once() {
    let data = vec![1u8; 4096];
    let mut manager = SnapshotLayerManager::new();
    let metadata = metadata(Some("/same"), Some("/same"));
    assert!(initialize(&mut manager, &metadata, &data, &data).is_ok());
    assert_eq!(manager.shared_manager().count(), 1);
    assert!(manager.l1_memfile().is_some());
}

#[test]
fn a_layer_that_cannot_be_mapped_ends_the_initialization() {
    let l0 = vec![1u8; 4096];
    let mut manager = SnapshotLayerManager::new();
    let metadata = metadata(Some("/l0"), Some("/l1"));
    let error = initialize(&mut manager, &metadata, &l0, &[]).unwrap_err();
    assert_eq!(error.to_string(), "Shared memfile error: Memfile /l1 is empty");
    assert!(manager.l0_memfile().is_some());
    assert!(manager.l1_memfile().is_none());
    assert!(manager.metadata().is_none());
}

#[test]
fn the_overlay_stands_on_the_highest_base_layer() {
    let (l0, l1) = (vec![1u8; 4096], vec![2u8; 8192]);
    let mut data = vec![0u8; 8192];
    let mut manager = SnapshotLayerManager::new();
    initialize(&mut manager, &metadata(Some("/l0"), Some("/l1")), &l0, &l1).unwrap();
    match manager.create_overlay("/o", OverlayEvent::Opened) {
        Ok(OverlayStep::SetLen { size }) => assert_eq!(size, 8192),
        _ => panic!("no size"),
    }
    match manager.create_overlay("/o", OverlayEvent::Mapped(&mut data)) {
        Ok(OverlayStep::Ready(overlay)) => {
            assert_eq!(overlay.read_page(0).unwrap(), &[2u8; 4096][..]);
            assert_eq!(manager.stats().overlay_memory_bytes, 8192);
            manager.close_overlay(overlay);
            assert_eq!(manager.stats().overlay_memory_bytes, 0);
        }
        _ => panic!("no overlay"),
    }

    let mut only_l0 = SnapshotLayerManager::new();
    initialize(&mut only_l0, &metadata(Some("/l0"), None), &l0, &[]).unwrap();
    match only_l0.create_overlay("/o", OverlayEvent::Opened) {
        Ok(OverlayStep::SetLen { size }) => assert_eq!(size, 4096),
        _ => panic!("no size"),
    }
    match only_l0.create_overlay("/o", OverlayEvent::OpenFailed("no".to_string())) {
        Err(error) => assert_eq!(
            error.to_string(),
            "CoW overlay error: Failed to open overlay file /o: no"
        ),
        Ok(_) => panic!("no failure"),
    }
}

#[test]
fn without_a_base_layer_there_is_no_overlay() {
    let mut manager = SnapshotLayerManager::new();
    match manager.create_overlay("/o", OverlayEvent::Requested) {
        Err(error) => assert_eq!(
            error.to_string(),
            "Layer not found: No base layer available for overlay"
        ),
        Ok(_) => panic!("overlay"),
    }
}

#[test]
fn memory_layers_come_from_the_bottom_up() {
    let (l0, l1) = (vec![1u8; 4096], vec![2u8; 8192]);
    let mut data = vec![7u8; 8192];
    let mut manager = SnapshotLayerManager::new();
    initialize(&mut manager, &metadata(Some("/l0"), Some("/l1")), &l0, &l1).unwrap();
    let base = manager.l1_memfile().unwrap().clone();
    let overlay = match CoWOverlay::new(base, "/o", &mut data) {
        Ok(overlay) => overlay,
        Err(error) => panic!("{}", error.to_string()),
    };
    let layers = manager.build_memory_layers(&overlay).unwrap();
    let seen: Vec<(u8, u64, bool)> =
        layers.iter().map(|l| (l.data[0], l.size, l.shared)).collect();
    assert_eq!(seen, vec![(1, 4096, true), (2, 8192, true), (7, 8192, false)]);
    assert_eq!(layers[2].pre_merged_path.as_deref(), Some("/o"));
    assert!(layers[0].pre_merged_path.is_none());
}

#[test]
fn a_merged_memfile_holds_l0_then_l1() {
    let (l0, l1) = (vec![1u8; 4096], vec![2u8; 100]);
    let mut manager = SnapshotLayerManager::new();
    initialize(&mut manager, &metadata(Some("/l0"), Some("/l1")), &l0, &l1).unwrap();
    let merged = manager.create_merged_memfile().unwrap();
    assert_eq!(merged.total_size, 4196);
    let bytes = merged.parts.concat();
    assert_eq!(bytes[..4096], l0[..]);
    assert_eq!(bytes[4096..], l1[..]);

    let empty = SnapshotLayerManager::new();
    assert_eq!(
        empty.create_merged_memfile().unwrap_err().to_string(),
        "Invalid layer configuration: No layers to merge"
    );
}

#[test]
fn cleaning_up_keeps_only_the_metadata() {
    let l0 = vec![1u8; 4096];
    let mut manager = SnapshotLayerManager::new();
    initialize(&mut manager, &metadata(Some("/l0"), None), &l0, &[]).unwrap();
    manager.cleanup();
    assert_eq!(manager.shared_manager().count(), 0);
    assert!(manager.l0_memfile().is_none());
    assert!(manager.is_enabled());
}

#[test]
fn a_snapshot_is_created_step_by_step() {
    let l0 = layer_ref(Layer::L0, "/l0");
    let next = |event| create_layered_snapshot("/out", Some(&l0), None, event);
    assert!(matches!(
        next(SnapshotEvent::Requested { paused: false }),
        SnapshotStep::PauseVm
    ));
    assert!(matches!(
        next(SnapshotEvent::Requested { paused: true }),
        SnapshotStep::CreateDirectory { .. }
    ));
    match next(SnapshotEvent::VmPaused) {
        SnapshotStep::CreateDirectory { path } => assert_eq!(path, "/out"),
        _ => panic!("no directory"),
    }
    assert!(matches!(next(SnapshotEvent::DirectoryReady), SnapshotStep::SnapshotVm));
    match next(SnapshotEvent::VmSnapshotted) {
        SnapshotStep::SaveState { path } => assert_eq!(path, "/out/state.json"),
        _ => panic!("no state"),
    }
    assert!(matches!(next(SnapshotEvent::StateSaved), SnapshotStep::LockConfig));
    match next(SnapshotEvent::ConfigLocked) {
        SnapshotStep::SaveConfig { path } => assert_eq!(path, "/out/config.json"),
        _ => panic!("no config"),
    }
    match next(SnapshotEvent::ConfigSaved) {
        SnapshotStep::Done(metadata) => {
            assert!(metadata.enabled);
            assert_eq!(metadata.l0.unwrap().memfile_path, "/l0");
            assert!(metadata.l1.is_none());
            assert_eq!((metadata.l2_memfile_size, metadata.guest_memory_size), (0, 0));
        }
        _ => panic!("not done"),
    }
}

#[test]
fn a_snapshot_can_fail() {
    let failed = |event| match create_layered_snapshot("/out", None, None, event) {
        SnapshotStep::Failed(error) => error.to_string(),
        _ => panic!("no failure"),
    };
    assert_eq!(
        failed(SnapshotEvent::VmPauseFailed("x".to_string())),
        "Invalid layer configuration: Failed to pause VM: x"
    );
    assert_eq!(
        failed(SnapshotEvent::VmSnapshotFailed("x".to_string())),
        "Invalid layer configuration: Failed to snapshot VM: x"
    );
    assert_eq!(
        failed(SnapshotEvent::ConfigLockFailed("x".to_string())),
        "Invalid layer configuration: Failed to lock VM config: x"
    );
    assert_eq!(failed(SnapshotEvent::IoFailed("x".to_string())), "IO error: x");
    assert_eq!(
        failed(SnapshotEvent::SerializationFailed("x".to_string())),
        "Serialization error: x"
    );
}

#[test]
fn a_vm_is_restored_step_by_step() {
    let metadata = metadata(Some("/l0"), None);
    let next = |event| restore_from_layered_snapshot(&metadata, "/snap", "/over", event);
    assert!(matches!(next(RestoreEvent::Requested), RestoreStep::Initialize));
    match next(RestoreEvent::Initialized) {
        RestoreStep::CreateOverlay { path } => assert_eq!(path, "/over/l2.overlay"),
        _ => panic!("no overlay"),
    }
    match next(RestoreEvent::OverlayCreated) {
        RestoreStep::ProbeCheckpoint { path, data_path, bitmap_path } => {
            assert_eq!(path, "/snap/l2.checkpoint");
            assert_eq!(data_path, "/snap/l2.checkpoint.data");
            assert_eq!(bitmap_path, "/snap/l2.checkpoint.bitmap");
        }
        _ => panic!("no probe"),
    }
    for (itself, data, bitmap) in [(false, true, true), (true, false, false), (true, true, true)] {
        match next(RestoreEvent::CheckpointProbed { itself, data, bitmap }) {
            RestoreStep::LoadCheckpoint { path } => assert_eq!(path, "/snap/l2.checkpoint"),
            _ => panic!("no load"),
        }
    }
    for (data, bitmap) in [(false, false), (true, false), (false, true)] {
        assert!(matches!(
            next(RestoreEvent::CheckpointProbed { itself: false, data, bitmap }),
            RestoreStep::SetUpUffd
        ));
    }
    assert!(matches!(next(RestoreEvent::CheckpointLoaded), RestoreStep::SetUpUffd));
    match next(RestoreEvent::UffdReady) {
        RestoreStep::ReadState { path } => assert_eq!(path, "/snap/state.json"),
        _ => panic!("no state"),
    }
    assert!(matches!(next(RestoreEvent::StateRead), RestoreStep::ParseState));
    assert!(matches!(next(RestoreEvent::StateParsed), RestoreStep::RestoreVm));
    assert!(matches!(next(RestoreEvent::VmRestored), RestoreStep::Done));
}

#[test]
fn a_vm_may_not_be_restored() {
    let mut metadata = metadata(None, None);
    match restore_from_layered_snapshot(
        &metadata,
        "/s",
        "/o",
        RestoreEvent::VmRestoreFailed("x".to_string()),
    ) {
        RestoreStep::Failed(error) => assert_eq!(
            error.to_string(),
            "Invalid layer configuration: Failed to restore VM: x"
        ),
        _ => panic!("no failure"),
    }
    let no_uffd =
        RestoreEvent::Failed(SnapshotLayerError::Uffd(UffdError::CreateFailed("x".to_string())));
    match restore_from_layered_snapshot(&metadata, "/s", "/o", no_uffd) {
        RestoreStep::Failed(error) => assert_eq!(
            error.to_string(),
            "userfaultfd error: Failed to create userfaultfd: x"
        ),
        _ => panic!("no failure"),
    }
    let passed_on = RestoreEvent::Failed(SnapshotLayerError::Io("x".to_string()));
    match restore_from_layered_snapshot(&metadata, "/s", "/o", passed_on) {
        RestoreStep::Failed(error) => assert_eq!(error.to_string(), "IO error: x"),
        _ => panic!("no failure"),
    }
    metadata.enabled = false;
    match restore_from_layered_snapshot(&metadata, "/s", "/o", RestoreEvent::Requested) {
        RestoreStep::Failed(error) => assert_eq!(
            error.to_string(),
            "Invalid layer configuration: Layered snapshots not enabled"
        ),
        _ => panic!("no failure"),
    }
}

#[test]
fn wrapped_errors_show_their_cause() {
    assert_eq!(
        SnapshotLayerError::Uffd(UffdError::NotInitialized).to_string(),
        "userfaultfd error: uffd not initialized"
    );
    assert_eq!(
        SnapshotLayerError::SharedMemfile(SharedMemfileError::NotFound("/x".to_string()))
            .to_string(),
        "Shared memfile error: Memfile not found: /x"
    );
    assert_eq!(
        SnapshotLayerError::CoWOverlay(CoWOverlayError::InvalidOffset(7)).to_string(),
        "CoW overlay error: Invalid offset: 7"
    );
}

#[test]
fn metadata_is_cloned_whole() {
    let metadata = metadata(Some("/l0"), Some("/l1"));
    let copy = metadata.clone();
    assert_eq!(format!("{:?}", copy), format!("{:?}", metadata));
}

#[test]
fn page_faults_are_handled_before_the_vm_is_restored() {
    let metadata = metadata(Some("/l0"), None);
    for loads in [true, false] {
        let mut order = Vec::new();
        let mut event = RestoreEvent::Requested;
        loop {
            let step = restore_from_layered_snapshot(&metadata, "/s", "/o", event);
            let (name, answer) = match step {
                RestoreStep::Initialize => ("initialize", RestoreEvent::Initialized),
                RestoreStep::CreateOverlay { .. } => ("overlay", RestoreEvent::OverlayCreated),
                RestoreStep::ProbeCheckpoint { .. } => (
                    "probe",
                    RestoreEvent::CheckpointProbed { itself: false, data: true, bitmap: loads },
                ),
                RestoreStep::LoadCheckpoint { .. } => ("load", RestoreEvent::CheckpointLoaded),
                RestoreStep::SetUpUffd => ("uffd", RestoreEvent::UffdReady),
                RestoreStep::ReadState { .. } => ("read", RestoreEvent::StateRead),
                RestoreStep::ParseState => ("parse", RestoreEvent::StateParsed),
                RestoreStep::RestoreVm => ("restore", RestoreEvent::VmRestored),
                RestoreStep::Done => break,
                RestoreStep::Failed(error) => panic!("{}", error.to_string()),
            };
            order.push(name);
            event = answer;
        }
        let mut expected = vec!["initialize", "overlay", "probe", "uffd", "read", "parse", "restore"];
        if loads {
            expected.insert(3, "load");
        }
        assert_eq!(order, expected);
    }
}
