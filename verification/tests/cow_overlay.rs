use layered_snapshot::cow_overlay::{
    checkpoint_bitmap_path, checkpoint_data_path, checkpoint_error, Checkpoint, CheckpointStage,
    CoWOverlay, CoWOverlayError, OverlayEvent, OverlayStep,
};
use layered_snapshot::shared_memfile::{MmapRequest, OpenRequest, SharedMemfile, Sharing};
use std::io::Read;
use std::sync::Arc;

const PAGE: usize = 4096;

fn base_of(bytes: &[u8]) -> Arc<SharedMemfile<'_>> {
    Arc::new(SharedMemfile::new("/base", bytes))
}

fn overlay_of<'a>(base: &Arc<SharedMemfile<'a>>, data: &'a mut [u8]) -> CoWOverlay<'a> {
    match CoWOverlay::new(base.clone(), "/overlay", data) {
        Ok(overlay) => overlay,
        Err(error) => panic!("{}", error.to_string()),
    }
}

fn data_file(checkpoint: &Checkpoint<'_>) -> Vec<u8> {
    let mut file = vec![0u8; checkpoint.size as usize];
    for page in &checkpoint.pages {
        let at = page.offset as usize;
        file[at..at + page.data.len()].copy_from_slice(page.data);
    }
    file
}

#[test]
fn a_new_overlay_reads_as_its_base() {
    let base_bytes: Vec<u8> = (0..3 * PAGE + 10).map(|i| (i % 251) as u8).collect();
    let mut data = vec![0xEEu8; base_bytes.len()];
    let base = base_of(&base_bytes);
    let overlay = overlay_of(&base, &mut data);
    assert_eq!(overlay.size(), base_bytes.len() as u64);
    assert_eq!(overlay.overlay_path(), "/overlay");
    assert_eq!(overlay.base().path, "/base");
    assert_eq!(overlay.dirty_page_count(), 0);
    assert!(!overlay.has_dirty_pages());
    let mut read = vec![0u8; base_bytes.len() + 5];
    assert!(matches!(overlay.read_at(&mut read, 0), Ok(n) if n == base_bytes.len()));
    assert_eq!(read[..base_bytes.len()], base_bytes[..]);
    assert_eq!(read[base_bytes.len()..], [0u8; 5]);
    assert_eq!(overlay.read_page(PAGE as u64).unwrap(), &base_bytes[PAGE..2 * PAGE]);
}

#[test]
fn pages_exist_only_at_page_offsets_within_the_memory() {
    let base_bytes = vec![1u8; 2 * PAGE + 100];
    let mut data = vec![0u8; base_bytes.len()];
    let base = base_of(&base_bytes);
    let mut overlay = overlay_of(&base, &mut data);
    for offset in [1, 100, 2 * PAGE as u64, 3 * PAGE as u64, u64::MAX, u64::MAX - 4095] {
        assert!(overlay.read_page(offset).is_none());
        match overlay.write_page(offset, &[7]) {
            Err(CoWOverlayError::InvalidOffset(o)) => assert_eq!(o, offset as i64),
            _ => panic!("offset {} accepted", offset),
        }
    }
    assert_eq!(overlay.dirty_page_count(), 0);
    assert_eq!(
        CoWOverlayError::InvalidOffset(-4096).to_string(),
        "Invalid offset: -4096"
    );
}

#[test]
fn a_written_page_is_read_back() {
    let base_bytes = vec![1u8; 3 * PAGE];
    let mut data = vec![0u8; 3 * PAGE];
    let base = base_of(&base_bytes);
    let mut overlay = overlay_of(&base, &mut data);
    assert!(overlay.write_page(PAGE as u64, &[9u8; PAGE]).is_ok());
    assert_eq!(overlay.dirty_page_count(), 1);
    assert!(overlay.has_dirty_pages());
    assert_eq!(overlay.read_page(PAGE as u64).unwrap(), &[9u8; PAGE][..]);
    assert_eq!(overlay.read_page(0).unwrap(), &[1u8; PAGE][..]);
    assert!(overlay.write_page(PAGE as u64, &[8u8; PAGE + 1]).is_ok());
    assert_eq!(overlay.dirty_page_count(), 1);
    assert_eq!(overlay.read_page(PAGE as u64).unwrap(), &[8u8; PAGE][..]);
    assert_eq!(overlay.read_page(2 * PAGE as u64).unwrap(), &[1u8; PAGE][..]);
}

#[test]
fn a_short_write_shows_the_rest_of_the_overlay_page() {
    let base_bytes = vec![1u8; PAGE];
    let mut data = vec![5u8; PAGE];
    let base = base_of(&base_bytes);
    let mut overlay = overlay_of(&base, &mut data);
    assert!(overlay.write_page(0, &[9, 9]).is_ok());
    let page = overlay.read_page(0).unwrap();
    assert_eq!(page[..3], [9, 9, 5]);
    assert_eq!(overlay.overlay_data()[..3], [9, 9, 5]);
}

#[test]
fn reads_cross_dirty_and_clean_pages() {
    let base_bytes = vec![1u8; 3 * PAGE];
    let mut data = vec![0u8; 3 * PAGE];
    let base = base_of(&base_bytes);
    let mut overlay = overlay_of(&base, &mut data);
    assert!(overlay.write_page(PAGE as u64, &[2u8; PAGE]).is_ok());
    let mut read = vec![0u8; PAGE + 4];
    let offset = PAGE as u64 - 2;
    assert!(matches!(overlay.read_at(&mut read, offset), Ok(n) if n == PAGE + 4));
    assert_eq!(read[..3], [1, 1, 2]);
    assert_eq!(read[PAGE + 1..], [2, 1, 1]);
    assert!(matches!(overlay.read_at(&mut read, 3 * PAGE as u64), Ok(0)));
    assert!(matches!(overlay.read_at(&mut [], 0), Ok(0)));
    let mut tail = [0u8; 10];
    assert!(matches!(overlay.read_at(&mut tail, 3 * PAGE as u64 - 3), Ok(3)));
    assert_eq!(tail, [1, 1, 1, 0, 0, 0, 0, 0, 0, 0]);
}

#[test]
fn imported_pages_are_dirty_and_read_back() {
    let base_bytes = vec![1u8; 4 * PAGE];
    let mut data = vec![0u8; 4 * PAGE];
    let base = base_of(&base_bytes);
    let mut overlay = overlay_of(&base, &mut data);
    assert!(overlay.import_dirty_pages(PAGE as u64, &[3u8; 2 * PAGE]).is_ok());
    assert_eq!(overlay.dirty_page_count(), 2);
    assert_eq!(overlay.read_page(0).unwrap(), &[1u8; PAGE][..]);
    assert_eq!(overlay.read_page(PAGE as u64).unwrap(), &[3u8; PAGE][..]);
    assert_eq!(overlay.read_page(2 * PAGE as u64).unwrap(), &[3u8; PAGE][..]);
    assert_eq!(overlay.read_page(3 * PAGE as u64).unwrap(), &[1u8; PAGE][..]);
    assert!(overlay.import_dirty_pages(4 * PAGE as u64, &[4u8; PAGE]).is_ok());
    assert!(overlay.import_dirty_pages(0, &[]).is_ok());
    assert_eq!(overlay.dirty_page_count(), 2);
}

#[test]
fn an_import_past_the_end_keeps_what_fits() {
    let base_bytes = vec![1u8; 2 * PAGE + 100];
    let mut data = vec![0u8; 2 * PAGE + 100];
    let base = base_of(&base_bytes);
    let mut overlay = overlay_of(&base, &mut data);
    assert!(overlay.import_dirty_pages(PAGE as u64, &[3u8; 3 * PAGE]).is_ok());
    assert_eq!(overlay.dirty_page_count(), 2);
    assert_eq!(overlay.overlay_data()[PAGE..], [3u8; PAGE + 100][..]);
    let mut tail = [0u8; 100];
    assert!(matches!(overlay.read_at(&mut tail, 2 * PAGE as u64), Ok(100)));
    assert_eq!(tail, [3u8; 100]);
}

#[test]
fn a_short_last_page_is_imported_saved_and_loaded() {
    let base_bytes = vec![0u8; 4196];
    let mut data = vec![0u8; 4196];
    let base = base_of(&base_bytes);
    let mut overlay = overlay_of(&base, &mut data);
    assert!(overlay.import_dirty_pages(4096, &[7u8; 100]).is_ok());
    let mut buf = [0u8; 100];
    assert!(matches!(overlay.read_at(&mut buf, 4096), Ok(100)));
    assert_eq!(buf, [7u8; 100]);
    assert_eq!(overlay.dirty_page_count(), 1);
    assert!(overlay.import_dirty_pages(4096, &[8u8; 100]).is_ok());
    assert_eq!(overlay.dirty_page_count(), 1);
    assert!(overlay.read_page(4096).is_none());

    let checkpoint = overlay.save_checkpoint();
    assert_eq!(checkpoint.size, 4196);
    assert_eq!(checkpoint.pages.len(), 1);
    assert_eq!(checkpoint.pages[0].offset, 4096);
    assert_eq!(checkpoint.pages[0].data, &[8u8; 100][..]);
    assert_eq!(checkpoint.bitmap, vec![2, 0, 0, 0, 0, 0, 0, 0]);
    let file = data_file(&checkpoint);

    let mut other_data = vec![0u8; 4196];
    let mut other = overlay_of(&base, &mut other_data);
    assert!(other.load_checkpoint(&checkpoint.bitmap, &file[..4195]).is_err());
    assert!(other.load_checkpoint(&checkpoint.bitmap, &file).is_ok());
    assert!(matches!(other.read_at(&mut buf, 4096), Ok(100)));
    assert_eq!(buf, [8u8; 100]);
}

#[test]
fn an_import_between_pages_marks_every_page_it_reaches() {
    let base_bytes = vec![1u8; 3 * PAGE];
    let mut data = vec![0u8; 3 * PAGE];
    let base = base_of(&base_bytes);
    let mut overlay = overlay_of(&base, &mut data);
    assert!(overlay.import_dirty_pages(100, &[3u8; PAGE]).is_ok());
    assert_eq!(overlay.dirty_page_count(), 2);
    let mut read = vec![0u8; 3 * PAGE];
    assert!(overlay.read_at(&mut read, 0).is_ok());
    assert_eq!(read[..100], [0u8; 100]);
    assert_eq!(read[100..PAGE + 100], [3u8; PAGE][..]);
    assert_eq!(read[PAGE + 100..2 * PAGE], [0u8; PAGE - 100][..]);
    assert_eq!(read[2 * PAGE..], [1u8; PAGE][..]);
    assert!(overlay.import_dirty_pages(3 * PAGE as u64, &[3u8; PAGE]).is_ok());
    assert_eq!(overlay.dirty_page_count(), 2);
}

#[test]
fn writing_the_overlay_data_marks_nothing() {
    let base_bytes = vec![1u8; PAGE];
    let mut data = vec![0u8; PAGE];
    let base = base_of(&base_bytes);
    let mut overlay = overlay_of(&base, &mut data);
    overlay.overlay_data_mut()[0] = 9;
    assert_eq!(overlay.read_page(0).unwrap()[0], 1);
    assert!(!overlay.has_dirty_pages());
}

#[test]
fn a_checkpoint_restores_the_memory() {
    let base_bytes: Vec<u8> = (0..5 * PAGE).map(|i| (i / PAGE) as u8).collect();
    let mut data = vec![0u8; 5 * PAGE];
    let base = base_of(&base_bytes);
    let mut overlay = overlay_of(&base, &mut data);
    assert!(overlay.write_page(3 * PAGE as u64, &[30u8; PAGE]).is_ok());
    assert!(overlay.write_page(PAGE as u64, &[10u8; PAGE]).is_ok());
    let mut memory = vec![0u8; 5 * PAGE];
    assert!(overlay.read_at(&mut memory, 0).is_ok());

    let checkpoint = overlay.save_checkpoint();
    assert_eq!(checkpoint.size, 5 * PAGE as u64);
    assert_eq!(checkpoint.pages.len(), 2);
    assert_eq!(checkpoint.pages[0].offset, PAGE as u64);
    assert_eq!(checkpoint.pages[1].offset, 3 * PAGE as u64);
    assert_eq!(checkpoint.bitmap, vec![0b1010, 0, 0, 0, 0, 0, 0, 0]);
    let file = data_file(&checkpoint);

    let mut other_data = vec![0xAAu8; 5 * PAGE];
    let mut other = overlay_of(&base, &mut other_data);
    assert!(other.write_page(0, &[77u8; PAGE]).is_ok());
    assert!(other.load_checkpoint(&checkpoint.bitmap, &file).is_ok());
    assert_eq!(other.dirty_page_count(), 2);
    let mut read = vec![0u8; 5 * PAGE];
    assert!(other.read_at(&mut read, 0).is_ok());
    assert_eq!(read, memory);
}

#[test]
fn a_short_data_file_cannot_be_loaded() {
    let base_bytes = vec![1u8; 3 * PAGE];
    let mut data = vec![0u8; 3 * PAGE];
    let base = base_of(&base_bytes);
    let mut overlay = overlay_of(&base, &mut data);
    match overlay.load_checkpoint(&[0b101, 0, 0, 0, 0, 0, 0, 0], &vec![4u8; 2 * PAGE]) {
        Err(error) => assert_eq!(
            error.to_string(),
            "Checkpoint error: read: failed to fill whole buffer"
        ),
        Ok(_) => panic!("loaded"),
    }
    assert_eq!(overlay.dirty_page_count(), 0);
    assert_eq!(overlay.read_page(0).unwrap(), &[1u8; PAGE][..]);
    assert_eq!(overlay.overlay_data()[..PAGE], [4u8; PAGE][..]);
    assert!(overlay.load_checkpoint(&[1, 0, 0, 0, 0, 0, 0, 0], &vec![4u8; PAGE]).is_ok());
    assert_eq!(overlay.dirty_page_count(), 1);
}

#[test]
fn creation_takes_three_steps() {
    let base_bytes = vec![1u8; PAGE];
    let mut data = vec![0u8; PAGE];
    let base = base_of(&base_bytes);
    match CoWOverlay::create(&base, "/o", OverlayEvent::Requested) {
        OverlayStep::Open { options } => assert_eq!(
            options,
            OpenRequest { read: true, write: true, create: true, truncate: true }
        ),
        _ => panic!("not opened"),
    }
    assert!(matches!(
        CoWOverlay::create(&base, "/o", OverlayEvent::Opened),
        OverlayStep::SetLen { size: 4096 }
    ));
    match CoWOverlay::create(&base, "/o", OverlayEvent::Truncated) {
        OverlayStep::Mmap { request } => assert_eq!(
            request,
            MmapRequest {
                len: 4096,
                offset: 0,
                read: true,
                write: true,
                sharing: Sharing::Shared,
                populate: false,
            }
        ),
        _ => panic!("not mapped"),
    }
    match CoWOverlay::create(&base, "/o", OverlayEvent::Mapped(&mut data)) {
        OverlayStep::Ready(overlay) => assert_eq!(overlay.overlay_path(), "/o"),
        _ => panic!("not ready"),
    }
}

#[test]
fn creation_can_fail() {
    let base_bytes = vec![1u8; PAGE];
    let mut short = vec![0u8; 10];
    let base = base_of(&base_bytes);
    let empty = base_of(&[]);
    let failed = |base: &Arc<SharedMemfile<'_>>, event| match CoWOverlay::create(base, "/o", event) {
        OverlayStep::Failed(error) => error.to_string(),
        _ => panic!("no failure"),
    };
    assert_eq!(
        failed(&base, OverlayEvent::OpenFailed("no".to_string())),
        "Failed to open overlay file /o: no"
    );
    assert_eq!(
        failed(&base, OverlayEvent::TruncateFailed("no".to_string())),
        "Failed to truncate overlay file: no"
    );
    assert_eq!(
        failed(&base, OverlayEvent::MmapFailed("no".to_string())),
        "Failed to mmap overlay file: no"
    );
    assert_eq!(
        failed(&empty, OverlayEvent::Truncated),
        "Failed to mmap overlay file: EINVAL: Invalid argument"
    );
    match CoWOverlay::create(&base, "/o", OverlayEvent::Mapped(&mut short)) {
        OverlayStep::Failed(error) => {
            assert_eq!(error.to_string(), "Overlay size mismatch: expected 4096, got 10")
        }
        _ => panic!("no failure"),
    }
}

#[test]
fn the_other_overlay_errors_have_texts() {
    assert_eq!(
        CoWOverlayError::ReadFailed("x".to_string()).to_string(),
        "Failed to read from overlay: x"
    );
    assert_eq!(
        CoWOverlayError::WriteFailed("x".to_string()).to_string(),
        "Failed to write to overlay: x"
    );
    let stages = [
        (CheckpointStage::CreateDataFile, "create data file: "),
        (CheckpointStage::TruncateDataFile, "truncate data file: "),
        (CheckpointStage::Seek, "seek: "),
        (CheckpointStage::Write, "write: "),
        (CheckpointStage::WriteBitmap, "write bitmap: "),
        (CheckpointStage::ReadBitmap, "read bitmap: "),
        (CheckpointStage::OpenDataFile, "open data file: "),
        (CheckpointStage::Read, "read: "),
    ];
    for (stage, text) in stages {
        assert_eq!(
            checkpoint_error(stage, "why").to_string(),
            format!("Checkpoint error: {}why", text)
        );
    }
}

#[test]
fn checkpoint_files_stand_beside_each_other() {
    assert_eq!(checkpoint_data_path("/d/l2.checkpoint"), "/d/l2.checkpoint.data");
    assert_eq!(checkpoint_bitmap_path("/d/l2.checkpoint"), "/d/l2.checkpoint.bitmap");
}

#[test]
fn a_short_file_is_reported_as_a_short_read_is() {
    let error = (&[0u8; 3][..]).read_exact(&mut [0u8; 4]).unwrap_err();
    assert_eq!(error.to_string(), "failed to fill whole buffer");
}
