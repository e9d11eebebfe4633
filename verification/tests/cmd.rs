use layered_snapshot::cmd::{
    execute, execute_layered, CommandEvent, CommandStep, LayeredCommandEvent, LayeredCommandStep,
    LayeredSnapshotArgs, ParsedArgs, Snapshot, SnapshotArgs,
};
use layered_snapshot::layered::{LayeredSnapshotMetadata, SnapshotType};

fn args() -> SnapshotArgs {
    SnapshotArgs {
        path: "/target".to_string(),
        disk: "[]".to_string(),
        resource: "{}".to_string(),
        pmem: "[]".to_string(),
        kernel: "/k".to_string(),
        notap: false,
        force: true,
        app_snapshot: false,
        vm_id: None,
        snapshot_type: "full".to_string(),
        memory_vol: Some("/dev/vdb".to_string()),
        container_id: None,
    }
}

fn parsed() -> ParsedArgs<u32, u8, char> {
    ParsedArgs {
        resource: Ok(42),
        disk: Ok(vec![1, 2]),
        pmem: Ok(vec!['p']),
        snapshot_type: Ok(SnapshotType::SoftDirty),
    }
}

fn is_random_id(id: &str) -> bool {
    id.len() == 36
        && id.chars().enumerate().all(|(i, c)| match i {
            8 | 13 | 18 | 23 => c == '-',
            14 => c == '4',
            19 => "89ab".contains(c),
            _ => c.is_ascii_digit() || ('a'..='f').contains(&c),
        })
}

#[test]
fn a_snapshot_follows_its_arguments() {
    let snapshot = Snapshot::with_id("id".to_string(), args(), parsed()).unwrap();
    assert_eq!(snapshot.id, "id");
    assert_eq!(snapshot.res, 42);
    assert_eq!(snapshot.disk, vec![1, 2]);
    assert_eq!(snapshot.pmem, vec!['p']);
    assert_eq!(snapshot.path, "/target");
    assert_eq!(snapshot.kernel, "/k");
    assert!(snapshot.tap);
    assert!(snapshot.force);
    assert!(!snapshot.app_snapshot);
    assert_eq!(snapshot.snapshot_type, SnapshotType::SoftDirty);
    assert_eq!(snapshot.memory_vol_url.as_deref(), Some("/dev/vdb"));
    assert!(snapshot.container_id.is_none());
}

#[test]
fn a_snapshot_gets_a_random_id() {
    let first = Snapshot::try_from(args(), parsed()).unwrap();
    let second = Snapshot::try_from(args(), parsed()).unwrap();
    assert!(is_random_id(&first.id), "{}", first.id);
    assert!(is_random_id(&second.id), "{}", second.id);
    assert_ne!(first.id, second.id);
}

#[test]
fn an_app_snapshot_has_the_id_of_its_vm() {
    let mut app = args();
    app.app_snapshot = true;
    app.vm_id = Some("vm-7".to_string());
    app.notap = true;
    let snapshot = Snapshot::try_from(app, parsed()).unwrap();
    assert_eq!(snapshot.id, "vm-7");
    assert!(snapshot.app_snapshot);
    assert!(!snapshot.tap);

    let mut ordinary = args();
    ordinary.vm_id = Some("vm-7".to_string());
    let snapshot = Snapshot::with_id("id".to_string(), ordinary, parsed()).unwrap();
    assert_eq!(snapshot.id, "id");
}

#[test]
fn container_ids_are_trimmed_and_dropped_if_empty() {
    let kept = |id: &str| {
        let mut given = args();
        given.container_id = Some(id.to_string());
        Snapshot::with_id(String::new(), given, parsed()).unwrap().container_id
    };
    assert_eq!(kept("  c1\n"), Some("c1".to_string()));
    assert_eq!(kept("c 2"), Some("c 2".to_string()));
    assert_eq!(kept(" \t\u{3000}"), None);
    assert_eq!(kept(""), None);
}

#[test]
fn the_first_error_counts() {
    let failed = |args, parsed: ParsedArgs<u32, u8, char>| {
        Snapshot::try_from(args, parsed).unwrap_err()
    };
    let broken = || ParsedArgs {
        resource: Err("resource".to_string()),
        disk: Err("disk".to_string()),
        pmem: Err("pmem".to_string()),
        snapshot_type: Err("type".to_string()),
    };
    let mut app = args();
    app.app_snapshot = true;
    assert_eq!(failed(args(), broken()), "resource");
    assert_eq!(failed(args(), ParsedArgs { resource: Ok(1), ..broken() }), "disk");
    assert_eq!(
        failed(args(), ParsedArgs { resource: Ok(1), disk: Ok(vec![]), ..broken() }),
        "pmem"
    );
    assert_eq!(
        failed(app, ParsedArgs { snapshot_type: Err("type".to_string()), ..parsed() }),
        "invalid snapshot type: type"
    );
    let mut app = args();
    app.app_snapshot = true;
    assert_eq!(failed(app, parsed()), "not specify the vmid in app snapshot mode");
}

#[test]
fn the_snapshot_command_handles_what_it_is_asked_for() {
    let requested: CommandEvent<u32, u8, char> = CommandEvent::Requested;
    let id = match execute(requested) {
        CommandStep::Parse { id } => id,
        _ => panic!("no id"),
    };
    assert!(is_random_id(&id), "{}", id);
    match execute(CommandEvent::Parsed { id: id.clone(), args: args(), parsed: parsed() }) {
        CommandStep::Handle(snapshot) => {
            assert_eq!(snapshot.id, id);
            assert_eq!(snapshot.path, "/target");
        }
        _ => panic!("not handled"),
    }
    let mut app = args();
    app.app_snapshot = true;
    match execute(CommandEvent::Parsed { id, args: app, parsed: parsed() }) {
        CommandStep::Failed(text) => assert_eq!(
            text,
            "failed to create snapshot: not specify the vmid in app snapshot mode"
        ),
        _ => panic!("no failure"),
    }
    let handled: CommandEvent<u32, u8, char> = CommandEvent::Handled;
    assert!(matches!(execute(handled), CommandStep::Report));
    let failed: CommandEvent<u32, u8, char> = CommandEvent::HandleFailed("x".to_string());
    match execute(failed) {
        CommandStep::Failed(text) => assert_eq!(text, "failed to handle snapshot: x"),
        _ => panic!("no failure"),
    }
}

#[test]
fn the_layered_command_creates_layered_snapshots() {
    let args = LayeredSnapshotArgs {
        path: "/p".to_string(),
        kernel: "/k".to_string(),
        l0_rootfs: "/a".to_string(),
        l1_rootfs: "/b".to_string(),
        vcpus: 1,
        memory_mb: 256,
        snapshot_type: "full".to_string(),
    };
    let event = LayeredCommandEvent::TypeParsed(Ok(SnapshotType::Full));
    match execute_layered(&args, event) {
        LayeredCommandStep::Create(orchestrator) => {
            assert_eq!(orchestrator.base_path, "/p");
            assert_eq!(orchestrator.kernel_path, "/k");
            assert_eq!(orchestrator.l0_rootfs, "/a");
            assert_eq!(orchestrator.l1_rootfs, "/b");
            assert_eq!((orchestrator.vcpus, orchestrator.memory_mb), (1, 256));
            assert_eq!(orchestrator.snapshot_type, SnapshotType::Full);
        }
        _ => panic!("not created"),
    }
    let metadata = LayeredSnapshotMetadata {
        enabled: true,
        l0: None,
        l1: None,
        l2_memfile_size: 5,
        guest_memory_size: 6,
    };
    match execute_layered(&args, LayeredCommandEvent::Created(metadata)) {
        LayeredCommandStep::Report(metadata) => assert_eq!(metadata.guest_memory_size, 6),
        _ => panic!("not reported"),
    }
    let failed = |event| match execute_layered(&args, event) {
        LayeredCommandStep::Failed(text) => text,
        _ => panic!("no failure"),
    };
    assert_eq!(
        failed(LayeredCommandEvent::TypeParsed(Err("x".to_string()))),
        "invalid snapshot type: x"
    );
    assert_eq!(
        failed(LayeredCommandEvent::CreateFailed("x".to_string())),
        "failed to create layered snapshot: x"
    );
}
