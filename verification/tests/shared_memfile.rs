use layered_snapshot::shared_memfile::{
    Advice, MapEvent, MapStep, MmapRequest, OpenRequest, SharedMemfile, SharedMemfileError,
    SharedMemfileManager, Sharing, PAGE_SIZE,
};
use std::sync::Arc;

fn map<'a>(
    manager: &mut SharedMemfileManager<'a>,
    path: &str,
    data: &'a [u8],
) -> Arc<SharedMemfile<'a>> {
    let mut event = MapEvent::Requested;
    loop {
        event = match manager.map(path, event) {
            MapStep::Open { .. } => MapEvent::Opened,
            MapStep::Stat => MapEvent::Sized(data.len() as u64),
            MapStep::Mmap { request } => {
                assert_eq!(request.len, data.len() as u64);
                MapEvent::Mapped(data)
            }
            MapStep::Advise { data, .. } => MapEvent::Advised { data, accepted: true },
            MapStep::Done(memfile) => return memfile,
            MapStep::Failed(error) => panic!("{}", error.to_string()),
        };
    }
}

#[test]
fn test_shared_memfile_manager() {
    let data = vec![0u8; 4096];
    let mut manager = SharedMemfileManager::new();

    let memfile1 = map(&mut manager, "/tmp/test.mem", &data);
    assert_eq!(memfile1.size, 4096);
    assert_eq!(manager.count(), 1);

    let memfile2 = map(&mut manager, "/tmp/test.mem", &data);
    assert_eq!(manager.count(), 1);
    assert!(Arc::ptr_eq(&memfile1, &memfile2));
    assert_eq!(memfile1.data().as_ptr(), memfile2.data().as_ptr());

    assert!(manager.unmap("/tmp/test.mem").is_ok());
    assert_eq!(manager.count(), 1);

    assert!(manager.unmap("/tmp/test.mem").is_ok());
    assert_eq!(manager.count(), 0);
}

#[test]
fn a_tracked_file_is_not_opened_again() {
    let data = vec![1u8; 100];
    let mut manager = SharedMemfileManager::new();
    map(&mut manager, "/a/b", &data);
    assert!(matches!(manager.map("/a//b/", MapEvent::Requested), MapStep::Done(_)));
    assert!(matches!(manager.map("/a/c", MapEvent::Requested), MapStep::Open { .. }));
    assert!(manager.is_tracked("/a/./b"));
    assert!(!manager.is_tracked("/a/c"));
}

#[test]
fn files_are_counted_separately() {
    let first = vec![1u8; 100];
    let second = vec![2u8; 30];
    let mut manager = SharedMemfileManager::default();
    assert_eq!(manager.total_bytes(), 0);
    map(&mut manager, "/a", &first);
    map(&mut manager, "/b", &second);
    map(&mut manager, "/a", &first);
    assert_eq!(manager.count(), 2);
    assert_eq!(manager.total_bytes(), 130);
    assert_eq!(manager.memfiles().len(), 2);
    assert!(manager.unmap("/b").is_ok());
    assert_eq!(manager.total_bytes(), 100);
    manager.close();
    assert_eq!(manager.count(), 0);
    assert!(!manager.is_tracked("/a"));
}

#[test]
fn unmapping_an_unknown_path_changes_nothing() {
    let data = vec![1u8; 100];
    let mut manager = SharedMemfileManager::new();
    map(&mut manager, "/a", &data);
    assert!(manager.unmap("/x").is_ok());
    assert_eq!(manager.count(), 1);
}

#[test]
fn closing_forgets_all_references() {
    let data = vec![1u8; 100];
    let mut manager = SharedMemfileManager::new();
    map(&mut manager, "/a", &data);
    map(&mut manager, "/a", &data);
    manager.close();
    map(&mut manager, "/a", &data);
    assert!(manager.unmap("/a").is_ok());
    assert_eq!(manager.count(), 0);
}

#[test]
fn every_step_of_mapping_can_fail() {
    let cases = [
        (
            MapEvent::OpenFailed("no".to_string()),
            "Failed to open memfile /f: no",
        ),
        (
            MapEvent::StatFailed("no".to_string()),
            "Failed to stat memfile /f: no",
        ),
        (MapEvent::Sized(0), "Memfile /f is empty"),
        (
            MapEvent::MmapFailed("no".to_string()),
            "Failed to mmap memfile /f: no",
        ),
    ];
    for (event, text) in cases {
        let mut manager = SharedMemfileManager::new();
        match manager.map("/f", event) {
            MapStep::Failed(error) => assert_eq!(error.to_string(), text),
            _ => panic!("no failure"),
        }
        assert_eq!(manager.count(), 0);
    }
}

#[test]
fn the_other_errors_have_texts() {
    assert_eq!(
        SharedMemfileError::MunmapFailed("EINVAL".to_string()).to_string(),
        "Failed to munmap: EINVAL"
    );
    assert_eq!(
        SharedMemfileError::NotFound("/x".to_string()).to_string(),
        "Memfile not found: /x"
    );
}

#[test]
fn pages_have_four_kibibytes() {
    assert_eq!(PAGE_SIZE, 4096);
}

#[test]
fn a_memfile_is_mapped_privately_and_populated() {
    let data = vec![3u8; 100];
    let mut manager = SharedMemfileManager::new();
    match manager.map("/f", MapEvent::Requested) {
        MapStep::Open { options } => assert_eq!(
            options,
            OpenRequest { read: true, write: false, create: false, truncate: false }
        ),
        _ => panic!("not opened"),
    }
    match manager.map("/f", MapEvent::Sized(100)) {
        MapStep::Mmap { request } => assert_eq!(
            request,
            MmapRequest {
                len: 100,
                offset: 0,
                read: true,
                write: true,
                sharing: Sharing::Private,
                populate: true,
            }
        ),
        _ => panic!("not mapped"),
    }
    match manager.map("/f", MapEvent::Mapped(&data)) {
        MapStep::Advise { data: advised, advice } => {
            assert_eq!(advised, &data[..]);
            assert_eq!(advice, Advice::Sequential);
        }
        _ => panic!("not advised"),
    }
    assert_eq!(manager.count(), 0);
    match manager.map("/f", MapEvent::Advised { data: &data, accepted: false }) {
        MapStep::Done(memfile) => assert_eq!(memfile.data(), &data[..]),
        _ => panic!("not done"),
    }
    assert_eq!(manager.count(), 1);
    assert_eq!(manager.references("/f"), 1);
    map(&mut manager, "/f", &data);
    assert_eq!(manager.references("/f"), 2);
    assert_eq!(manager.references("/g"), 0);
}
