use layered_snapshot::cow_overlay::CoWOverlay;
use layered_snapshot::shared_memfile::SharedMemfile;
use layered_snapshot::uffd::{
    iow, listen_for_uffd, CreateEvent, CreateStep, ListenEvent, ListenStep, UffdAction, UffdError,
    UffdEvent, UffdMsg, Userfaultfd, UFFDIO, UFFDIO_COPY, UFFDIO_COPY_SIZE, UFFD_API,
    UFFD_EVENT_PAGEFAULT, UFFD_EVENT_REMOVE,
};
use std::sync::Arc;

#[test]
fn test_uffd_constants() {
    assert_eq!(UFFD_API, 0xAA);
    assert_eq!(UFFD_EVENT_PAGEFAULT, 0xFFFFFFFFFFFFFFFC_u64);
    assert_eq!(UFFD_EVENT_REMOVE, 0xFFFFFFFFFFFFFFFB_u64);
}

fn handler() -> Userfaultfd {
    match Userfaultfd::new(CreateEvent::ApiReturned { fd: 5, ret: 0 }) {
        CreateStep::Ready(handler) => handler,
        _ => panic!("not ready"),
    }
}

fn message(event: u64, address: u64) -> UffdEvent {
    UffdEvent::ReadDone {
        n: 32,
        would_block: false,
        msg: UffdMsg { event, flags: 0, address, ptid: 0 },
    }
}

#[test]
fn requests_are_encoded_side_by_side() {
    assert_eq!(iow(UFFDIO, UFFDIO_COPY, UFFDIO_COPY_SIZE), 0x4028_AA03);
    assert_eq!(iow(0, 0, 0), 0x4000_0000);
    assert_eq!(iow(0xFF, 0xFF, 0x3FFF), 0x7FFF_FFFF);
    assert_ne!(iow(1, 2, 3), iow(2, 1, 3));
}

#[test]
fn a_handler_is_created_in_two_steps() {
    assert!(matches!(
        Userfaultfd::new(CreateEvent::Requested),
        CreateStep::Syscall { close_on_exec: true, non_blocking: true }
    ));
    match Userfaultfd::new(CreateEvent::SyscallReturned { value: 7, cause: String::new() }) {
        CreateStep::EnableApi { fd, request, api } => {
            assert_eq!(fd, 7);
            assert_eq!(request, 0x4018_AA03);
            assert_eq!((api.api, api.features, api.ioctls), (0xAA, 0, 0));
        }
        _ => panic!("no handshake"),
    }
    let handler = handler();
    assert_eq!(handler.fd(), 5);
    assert!(handler.regions().is_empty());
    assert_eq!(handler.stats().page_faults, 0);
}

#[test]
fn a_handler_may_not_be_created() {
    let event = CreateEvent::SyscallReturned { value: -1, cause: "EPERM".to_string() };
    match Userfaultfd::new(event) {
        CreateStep::Failed(error) => {
            assert_eq!(error.to_string(), "Failed to create userfaultfd: EPERM")
        }
        _ => panic!("created"),
    }
    assert!(matches!(
        Userfaultfd::new(CreateEvent::ApiReturned { fd: 5, ret: -1 }),
        CreateStep::Close { fd: 5 }
    ));
    assert!(matches!(
        Userfaultfd::new(CreateEvent::Closed { cause: "EINVAL".to_string() }),
        CreateStep::Failed(UffdError::CreateFailed(_))
    ));
}

#[test]
fn regions_are_kept_in_order() {
    let mut handler = handler();
    let (request, register) = handler.register_request(0x1000, 0x2000);
    assert_eq!(request, 0x4020_AA00);
    assert_eq!((register.start, register.len, register.mode), (0x1000, 0x2000, 1));
    assert!(handler.register_region(0x1000, 0x2000, 0, String::new()).is_ok());
    assert!(handler.register_region(0x8000, 0x1000, 0, String::new()).is_ok());
    match handler.register_region(0, 1, -1, "EBUSY".to_string()) {
        Err(error) => assert_eq!(error.to_string(), "Failed to register memory region: EBUSY"),
        Ok(_) => panic!("registered"),
    }
    let starts: Vec<u64> = handler.regions().iter().map(|r| r.start).collect();
    assert_eq!(starts, vec![0x1000, 0x8000]);
}

#[test]
fn faults_are_served_from_the_overlay_view() {
    let base_bytes = vec![1u8; 8192];
    let mut data = vec![0u8; 8192];
    let base = Arc::new(SharedMemfile::new("/b", &base_bytes));
    let mut overlay = match CoWOverlay::new(base, "/o", &mut data) {
        Ok(overlay) => overlay,
        Err(error) => panic!("{}", error.to_string()),
    };
    assert!(overlay.write_page(4096, &[2u8; 4096]).is_ok());
    let mut handler = handler();
    handler.start();
    assert!(handler.has_room());

    for (address, byte) in [(10u64, 1u8), (4096, 2), (8191, 2)] {
        assert!(matches!(
            handler.handle(&overlay, UffdEvent::Tick),
            UffdAction::Poll { timeout_ms: 100 }
        ));
        let polled = UffdEvent::Polled { ret: 1, interrupted: false };
        assert!(matches!(handler.handle(&overlay, polled), UffdAction::Read));
        match handler.handle(&overlay, message(UFFD_EVENT_PAGEFAULT, address)) {
            UffdAction::Copy { request, copy } => {
                assert_eq!(request, 0x4028_AA03);
                assert_eq!(copy.dst, address);
                assert_eq!(copy.len, 4096);
                assert_eq!(copy.src, &[byte; 4096][..]);
            }
            _ => panic!("no copy"),
        }
        assert!(matches!(
            handler.handle(&overlay, UffdEvent::CopyDone { ret: 0 }),
            UffdAction::CheckRunning
        ));
    }
    assert_eq!(handler.stats().page_faults, 3);
    assert_eq!(handler.stats().pages_served, 3);

    handler.handle(&overlay, UffdEvent::Tick);
    handler.handle(&overlay, UffdEvent::Polled { ret: 1, interrupted: false });
    match handler.handle(&overlay, message(UFFD_EVENT_PAGEFAULT, 8195)) {
        UffdAction::Zeropage { request, zero } => {
            assert_eq!(request, 0x4020_AA04);
            assert_eq!((zero.start, zero.len, zero.mode), (8192, 4096, 1));
        }
        _ => panic!("no zeros"),
    }
    handler.handle(&overlay, UffdEvent::ZeropageDone { ret: 0 });
    assert_eq!(handler.stats().zero_pages, 1);
}

#[test]
fn failed_resolutions_and_other_events_are_not_served() {
    let base_bytes = vec![1u8; 4096];
    let mut data = vec![0u8; 4096];
    let base = Arc::new(SharedMemfile::new("/b", &base_bytes));
    let overlay = match CoWOverlay::new(base, "/o", &mut data) {
        Ok(overlay) => overlay,
        Err(error) => panic!("{}", error.to_string()),
    };
    let mut handler = handler();
    handler.start();
    let events = [
        UffdEvent::Tick,
        UffdEvent::Polled { ret: 0, interrupted: false },
        UffdEvent::Tick,
        UffdEvent::Polled { ret: -1, interrupted: true },
        UffdEvent::Tick,
        UffdEvent::Polled { ret: 1, interrupted: false },
        message(UFFD_EVENT_PAGEFAULT, 0),
        UffdEvent::CopyDone { ret: -1 },
        UffdEvent::Tick,
        UffdEvent::Polled { ret: 1, interrupted: false },
        message(UFFD_EVENT_PAGEFAULT, 4096),
        UffdEvent::ZeropageDone { ret: -1 },
        UffdEvent::Tick,
        UffdEvent::Polled { ret: 1, interrupted: false },
        message(UFFD_EVENT_REMOVE, 0),
        UffdEvent::Tick,
        UffdEvent::Polled { ret: 1, interrupted: false },
        message(1, 0),
        UffdEvent::Tick,
        UffdEvent::Polled { ret: 1, interrupted: false },
    ];
    for event in events {
        assert!(!matches!(handler.handle(&overlay, event), UffdAction::Stop));
    }
    let nothing = UffdMsg { event: UFFD_EVENT_PAGEFAULT, flags: 0, address: 0, ptid: 0 };
    let blocked = UffdEvent::ReadDone { n: -1, would_block: true, msg: nothing };
    assert!(matches!(handler.handle(&overlay, blocked), UffdAction::CheckRunning));
    let stats = handler.stats();
    assert_eq!((stats.page_faults, stats.pages_served), (2, 0));
    assert_eq!((stats.zero_pages, stats.remove_events), (0, 1));
}

#[test]
fn handling_ends_when_stopped_or_broken() {
    let base_bytes = vec![1u8; 4096];
    let mut data = vec![0u8; 4096];
    let base = Arc::new(SharedMemfile::new("/b", &base_bytes));
    let overlay = match CoWOverlay::new(base, "/o", &mut data) {
        Ok(overlay) => overlay,
        Err(error) => panic!("{}", error.to_string()),
    };
    let mut first = handler();
    first.start();
    first.stop();
    assert!(matches!(first.handle(&overlay, UffdEvent::Tick), UffdAction::Stop));

    let mut second = handler();
    second.start();
    second.handle(&overlay, UffdEvent::Tick);
    let broken = UffdEvent::Polled { ret: -1, interrupted: false };
    assert!(matches!(second.handle(&overlay, broken), UffdAction::Stop));

    let mut third = handler();
    third.start();
    third.handle(&overlay, UffdEvent::Tick);
    third.handle(&overlay, UffdEvent::Polled { ret: 1, interrupted: false });
    let msg = UffdMsg { event: 0, flags: 0, address: 0, ptid: 0 };
    let broken = UffdEvent::ReadDone { n: -1, would_block: false, msg };
    assert!(matches!(third.handle(&overlay, broken), UffdAction::Stop));
}

#[test]
fn a_descriptor_is_received_over_a_socket() {
    let next = |event| listen_for_uffd("/run/uffd.sock", event);
    match next(ListenEvent::Requested) {
        ListenStep::BuildAddress { path } => assert_eq!(path, "/run/uffd.sock"),
        _ => panic!("no address"),
    }
    assert!(matches!(
        next(ListenEvent::AddressReady),
        ListenStep::OpenSocket { close_on_exec: true }
    ));
    assert!(matches!(next(ListenEvent::SocketOpened), ListenStep::Bind));
    assert!(matches!(next(ListenEvent::Bound), ListenStep::Listen { backlog: 1 }));
    assert!(matches!(next(ListenEvent::Listening), ListenStep::Accept));
    assert!(matches!(
        next(ListenEvent::Accepted { conn: 4 }),
        ListenStep::Receive { conn: 4, len: 1 }
    ));
    let received = ListenEvent::Received { n: 1, cause: String::new(), fd: Some(9) };
    assert!(matches!(next(received), ListenStep::Finish(Ok(9))));
}

#[test]
fn a_descriptor_may_not_come() {
    let silent = ListenEvent::Received { n: 1, cause: String::new(), fd: None };
    match listen_for_uffd("/s", silent) {
        ListenStep::Finish(Err(error)) => {
            assert_eq!(error.to_string(), "Invalid message: No ancillary data")
        }
        _ => panic!("received"),
    }
    let broken = ListenEvent::Received { n: -1, cause: "EIO".to_string(), fd: Some(9) };
    match listen_for_uffd("/s", broken) {
        ListenStep::Finish(Err(error)) => assert_eq!(error.to_string(), "Socket error: EIO"),
        _ => panic!("received"),
    }
    match listen_for_uffd("/s", ListenEvent::Failed("EACCES".to_string())) {
        ListenStep::Failed(error) => assert_eq!(error.to_string(), "Socket error: EACCES"),
        _ => panic!("received"),
    }
}

#[test]
fn the_other_uffd_errors_have_texts() {
    assert_eq!(
        UffdError::PageFaultFailed("x".to_string()).to_string(),
        "Failed to resolve page fault: x"
    );
    assert_eq!(UffdError::IoError("x".to_string()).to_string(), "IO error: x");
    assert_eq!(UffdError::NotInitialized.to_string(), "uffd not initialized");
}
