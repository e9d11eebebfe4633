use layered_snapshot::cow_overlay::{CoWOverlay, CoWOverlayError};
use layered_snapshot::memory_reclaim::{
    on_sandbox_exit, restore_failed, restore_from_checkpoint, ExitEvent, ExitStep,
    MemoryReclaimError,
};
use layered_snapshot::shared_memfile::{Advice, MapEvent, SharedMemfile, SharedMemfileManager};
use std::sync::Arc;

#[test]
fn test_memory_reclaim_error_display() {
    let err = MemoryReclaimError::ImportDirtyPages("test error".to_string());
    assert_eq!(err.to_string(), "Failed to import dirty pages: test error");

    let err = MemoryReclaimError::SaveCheckpoint("checkpoint error".to_string());
    assert_eq!(err.to_string(), "Failed to save checkpoint: checkpoint error");
}

#[test]
fn the_other_reclaim_errors_have_texts() {
    assert_eq!(
        MemoryReclaimError::ReclaimMemory("x".to_string()).to_string(),
        "Failed to reclaim memory: x"
    );
    assert_eq!(MemoryReclaimError::Io("x".to_string()).to_string(), "IO error: x");
    assert_eq!(
        restore_failed(&CoWOverlayError::InvalidOffset(3)).to_string(),
        "Failed to save checkpoint: Invalid offset: 3"
    );
}

const PAGE: usize = 4096;

fn new_overlay<'a>(base: &Arc<SharedMemfile<'a>>, data: &'a mut [u8]) -> CoWOverlay<'a> {
    match CoWOverlay::new(base.clone(), "/o", data) {
        Ok(overlay) => overlay,
        Err(error) => panic!("{}", error.to_string()),
    }
}

#[test]
fn a_dirty_sandbox_is_saved_before_its_memory_is_reclaimed() {
    let base_bytes = vec![1u8; 2 * PAGE];
    let mut data = vec![0u8; 2 * PAGE];
    let base = Arc::new(SharedMemfile::new("/b", &base_bytes));
    let mut overlay = new_overlay(&base, &mut data);
    assert!(overlay.write_page(0, &[5u8; PAGE]).is_ok());
    let mut manager = SharedMemfileManager::new();
    manager.map("/b", MapEvent::Advised { data: &base_bytes, accepted: true });

    match on_sandbox_exit(&overlay, &manager, "/c/l2.checkpoint", ExitEvent::Requested) {
        ExitStep::SaveCheckpoint { data_path, bitmap_path } => {
            assert_eq!(data_path, "/c/l2.checkpoint.data");
            assert_eq!(bitmap_path, "/c/l2.checkpoint.bitmap");
        }
        _ => panic!("not saved"),
    }
    match on_sandbox_exit(&overlay, &manager, "/c", ExitEvent::CheckpointSaved) {
        ExitStep::ReclaimOverlay { size, advice } => {
            assert_eq!(size, 2 * PAGE as u64);
            assert_eq!(advice, Advice::DontNeed);
        }
        _ => panic!("not reclaimed"),
    }
    let reclaimed = ExitEvent::Reclaimed { ret: 0, cause: String::new() };
    match on_sandbox_exit(&overlay, &manager, "/c", reclaimed) {
        ExitStep::AdviseShared { memfiles, advice } => {
            assert_eq!(advice, Advice::Cold);
            assert_eq!(memfiles.len(), 1);
            assert_eq!(memfiles[0].path, "/b");
        }
        _ => panic!("no advice"),
    }
    assert!(matches!(
        on_sandbox_exit(&overlay, &manager, "/c", ExitEvent::Advised),
        ExitStep::Done
    ));
}

#[test]
fn a_clean_sandbox_needs_no_checkpoint() {
    let base_bytes = vec![1u8; PAGE];
    let mut data = vec![0u8; PAGE];
    let base = Arc::new(SharedMemfile::new("/b", &base_bytes));
    let overlay = new_overlay(&base, &mut data);
    let manager = SharedMemfileManager::new();
    assert!(matches!(
        on_sandbox_exit(&overlay, &manager, "/c", ExitEvent::Requested),
        ExitStep::ReclaimOverlay { size: 4096, .. }
    ));
}

#[test]
fn the_cleanup_can_fail() {
    let base_bytes = vec![1u8; PAGE];
    let mut data = vec![0u8; PAGE];
    let base = Arc::new(SharedMemfile::new("/b", &base_bytes));
    let overlay = new_overlay(&base, &mut data);
    let manager = SharedMemfileManager::new();
    let failed = |event| match on_sandbox_exit(&overlay, &manager, "/c", event) {
        ExitStep::Failed(error) => error.to_string(),
        _ => panic!("no failure"),
    };
    let unsaved = CoWOverlayError::Checkpoint("write: x".to_string());
    assert_eq!(
        failed(ExitEvent::CheckpointFailed(unsaved)),
        "Failed to save checkpoint: Checkpoint error: write: x"
    );
    assert_eq!(
        failed(ExitEvent::Reclaimed { ret: -1, cause: "EINVAL".to_string() }),
        "Failed to reclaim memory: EINVAL"
    );
}

#[test]
fn a_restored_sandbox_sees_its_memory_again() {
    let base_bytes = vec![1u8; 3 * PAGE];
    let mut data = vec![0u8; 3 * PAGE];
    let base = Arc::new(SharedMemfile::new("/b", &base_bytes));
    let mut overlay = new_overlay(&base, &mut data);
    assert!(overlay.write_page(PAGE as u64, &[5u8; PAGE]).is_ok());
    let checkpoint = overlay.save_checkpoint();
    let mut file = vec![0u8; checkpoint.size as usize];
    for page in &checkpoint.pages {
        let at = page.offset as usize;
        file[at..at + page.data.len()].copy_from_slice(page.data);
    }

    let mut other = vec![0u8; 3 * PAGE];
    match restore_from_checkpoint(base.clone(), "/p", &mut other, &checkpoint.bitmap, &file) {
        Ok(restored) => {
            assert_eq!(restored.overlay_path(), "/p");
            assert_eq!(restored.dirty_page_count(), 1);
            let (mut before, mut after) = (vec![0u8; 3 * PAGE], vec![0u8; 3 * PAGE]);
            assert!(overlay.read_at(&mut before, 0).is_ok());
            assert!(restored.read_at(&mut after, 0).is_ok());
            assert_eq!(before, after);
            assert_eq!(after[PAGE], 5);
        }
        Err(error) => panic!("{}", error.to_string()),
    }
}

#[test]
fn a_restore_can_fail() {
    let base_bytes = vec![1u8; PAGE];
    let base = Arc::new(SharedMemfile::new("/b", &base_bytes));
    let empty = Arc::new(SharedMemfile::new("/e", &[]));
    let text = |r: Result<CoWOverlay<'_>, MemoryReclaimError>| match r {
        Err(error) => error.to_string(),
        Ok(_) => panic!("restored"),
    };
    let (mut none, mut short, mut right) = (vec![], vec![0u8; 5], vec![0u8; PAGE]);
    assert_eq!(
        text(restore_from_checkpoint(empty, "/p", &mut none, &[], &[])),
        "Failed to save checkpoint: Failed to mmap overlay file: EINVAL: Invalid argument"
    );
    assert_eq!(
        text(restore_from_checkpoint(base.clone(), "/p", &mut short, &[], &[])),
        "Failed to save checkpoint: Overlay size mismatch: expected 4096, got 5"
    );
    assert_eq!(
        text(restore_from_checkpoint(base, "/p", &mut right, &[0xFF; 8], &[0; 10])),
        "Failed to save checkpoint: Checkpoint error: read: failed to fill whole buffer"
    );
}
