//! Memory reclaim for layered snapshots.
//!
//! When a sandbox exits, its dirty pages are saved as an L2 checkpoint for potential reuse, the
//! memory of its overlay is given back, and the kernel is told that the shared pages are cold.
//! They remain in the page cache for other VMs.

use crate::cow_overlay::{
    bits_from_checkpoint, checkpoint_bitmap_path, checkpoint_data_path, checkpoint_pages,
    data_file, holds_dirty_pages, image, law_checkpoint_round_trip, loaded, CheckpointStage,
    CoWOverlay, CoWOverlayError, PageWrite,
};
use crate::page_bitmap::{bits_from_bytes, bytes_hold_bits, words_for};
use crate::paths::joined;
use crate::runs::{answered, is_run, Turn};
use crate::shared_memfile::{Advice, SharedMemfile, SharedMemfileManager, TrackedMemfile};
use crate::snapshot_layers::{
    is_restore_run, law_restore_files, LayeredSnapshotMetadata, RestoreEvent, RestoreStep,
};
use crate::text::{before_end, concat, ends_with, lemma_before_end};
use std::sync::Arc;
use vstd::prelude::*;

verus! {

/// Errors related to memory reclaim operations
#[derive(Debug)]
pub enum MemoryReclaimError {
    ImportDirtyPages(String),
    SaveCheckpoint(String),
    ReclaimMemory(String),
    Io(String),
}

impl MemoryReclaimError {
    /// The text of the error.
    pub open spec fn text(&self) -> Seq<char> {
        match self {
            MemoryReclaimError::ImportDirtyPages(cause) => "Failed to import dirty pages: "@
                + cause@,
            MemoryReclaimError::SaveCheckpoint(cause) => "Failed to save checkpoint: "@ + cause@,
            MemoryReclaimError::ReclaimMemory(cause) => "Failed to reclaim memory: "@ + cause@,
            MemoryReclaimError::Io(cause) => "IO error: "@ + cause@,
        }
    }

    /// Writes the error out.
    pub fn to_string(&self) -> (r: String)
        ensures
            r@ == self.text(),
    {
        match self {
            MemoryReclaimError::ImportDirtyPages(cause) => concat(
                "Failed to import dirty pages: ",
                cause.as_str(),
            ),
            MemoryReclaimError::SaveCheckpoint(cause) => concat(
                "Failed to save checkpoint: ",
                cause.as_str(),
            ),
            MemoryReclaimError::ReclaimMemory(cause) => concat(
                "Failed to reclaim memory: ",
                cause.as_str(),
            ),
            MemoryReclaimError::Io(cause) => concat("IO error: ", cause.as_str()),
        }
    }
}

/// What came of the last step of the cleanup after a sandbox.
pub enum ExitEvent {
    /// The sandbox exits.
    Requested,
    /// The checkpoint is saved.
    CheckpointSaved,
    /// The checkpoint could not be saved.
    CheckpointFailed(CoWOverlayError),
    /// The kernel took back the overlay memory, or the call failed, for this cause.
    Reclaimed { ret: i32, cause: String },
    /// The kernel was told about the shared memory.
    Advised,
}

/// The next step of the cleanup after a sandbox.
pub enum ExitStep<'a> {
    /// Save the checkpoint of the overlay to the two files.
    SaveCheckpoint { data_path: String, bitmap_path: String },
    /// Tell the kernel how so many bytes of overlay memory, from its start on, are used.
    ReclaimOverlay { size: u64, advice: Advice },
    /// Tell the kernel how the whole memory of each of these memfiles is used; whether it takes
    /// that does not matter.
    AdviseShared { memfiles: Vec<Arc<SharedMemfile<'a>>>, advice: Advice },
    /// The cleanup is complete.
    Done,
    /// The cleanup failed.
    Failed(MemoryReclaimError),
}

/// The step that tells the kernel that all tracked memfiles are cold.
pub open spec fn advises(step: ExitStep, entries: Seq<TrackedMemfile>) -> bool {
    step matches ExitStep::AdviseShared { memfiles, advice } && memfiles@ == entries.map_values(
        |entry: TrackedMemfile| entry.memfile,
    ) && advice == Advice::Cold
}

/// The step that gives back the memory of an overlay; an empty overlay has none to give back.
pub open spec fn reclaims(step: ExitStep, size: nat, entries: Seq<TrackedMemfile>) -> bool {
    if size == 0 {
        advises(step, entries)
    } else {
        step matches ExitStep::ReclaimOverlay { size: n, advice } && n == size && advice
            == Advice::DontNeed
    }
}

/// What one step of the cleanup after a sandbox does: dirty pages are saved, the overlay memory is
/// given back, and the kernel is told about the shared memory. Every failure ends it.
pub open spec fn cleans_up(
    overlay: CoWOverlay,
    entries: Seq<TrackedMemfile>,
    l2_checkpoint_path: Seq<char>,
    event: ExitEvent,
    step: ExitStep,
) -> bool {
    match event {
        ExitEvent::Requested => if overlay.spec_dirty_count() > 0 {
            step matches ExitStep::SaveCheckpoint { data_path, bitmap_path } && data_path@
                == l2_checkpoint_path + ".data"@ && bitmap_path@ == l2_checkpoint_path
                + ".bitmap"@
        } else {
            reclaims(step, overlay.overlay_bytes().len(), entries)
        },
        ExitEvent::CheckpointSaved => reclaims(
            step,
            overlay.overlay_bytes().len(),
            entries,
        ),
        ExitEvent::CheckpointFailed(error) => step matches ExitStep::Failed(
            MemoryReclaimError::SaveCheckpoint(text),
        ) && text@ == error.text(),
        ExitEvent::Reclaimed { ret, cause } => if ret < 0 {
            step matches ExitStep::Failed(MemoryReclaimError::ReclaimMemory(text)) && text@
                == cause@
        } else {
            advises(step, entries)
        },
        ExitEvent::Advised => step is Done,
    }
}

/// Reclaims memory when a sandbox exits: saves an L2 checkpoint if there are dirty pages, reclaims
/// the overlay memory, then advises the kernel about the shared memory.
///
/// The caller starts with `ExitEvent::Requested`, does what each step says and hands back what
/// came of it, until the step is `Done` or `Failed`.
pub fn on_sandbox_exit<'a>(
    overlay: &CoWOverlay<'a>,
    shared_manager: &SharedMemfileManager<'a>,
    l2_checkpoint_path: &str,
    event: ExitEvent,
) -> (step: ExitStep<'a>)
    requires
        overlay.wf(),
    ensures
        cleans_up(*overlay, shared_manager@, l2_checkpoint_path@, event, step),
{
    match event {
        ExitEvent::Requested => {
            if overlay.has_dirty_pages() {
                ExitStep::SaveCheckpoint {
                    data_path: checkpoint_data_path(l2_checkpoint_path),
                    bitmap_path: checkpoint_bitmap_path(l2_checkpoint_path),
                }
            } else {
                reclaim_overlay_memory(overlay, shared_manager)
            }
        },
        ExitEvent::CheckpointSaved => reclaim_overlay_memory(overlay, shared_manager),
        ExitEvent::CheckpointFailed(error) => ExitStep::Failed(
            MemoryReclaimError::SaveCheckpoint(error.to_string()),
        ),
        ExitEvent::Reclaimed { ret, cause } => {
            if ret < 0 {
                ExitStep::Failed(MemoryReclaimError::ReclaimMemory(cause))
            } else {
                advise_shared_memory(shared_manager)
            }
        },
        ExitEvent::Advised => ExitStep::Done,
    }
}

/// Reclaims memory from the CoW overlay.
fn reclaim_overlay_memory<'a>(
    overlay: &CoWOverlay<'a>,
    shared_manager: &SharedMemfileManager<'a>,
) -> (step: ExitStep<'a>)
    requires
        overlay.wf(),
    ensures
        reclaims(step, overlay.overlay_bytes().len(), shared_manager@),
{
    let size: u64 = overlay.size();
    if size == 0 {
        return advise_shared_memory(shared_manager);
    }
    ExitStep::ReclaimOverlay { size, advice: Advice::DontNeed }
}

/// Advises the kernel about shared memory usage patterns.
fn advise_shared_memory<'a>(shared_manager: &SharedMemfileManager<'a>) -> (step: ExitStep<'a>)
    ensures
        advises(step, shared_manager@),
{
    let memfiles = shared_manager.memfiles();
    assert(memfiles@ =~= shared_manager@.map_values(|entry: TrackedMemfile| entry.memfile));
    ExitStep::AdviseShared { memfiles, advice: Advice::Cold }
}

/// The error of a restore whose overlay or checkpoint is not to be had.
pub fn restore_failed(error: &CoWOverlayError) -> (r: MemoryReclaimError)
    ensures
        r matches MemoryReclaimError::SaveCheckpoint(text) && text@ == error.text(),
{
    MemoryReclaimError::SaveCheckpoint(error.to_string())
}

/// Restores a sandbox from an L2 checkpoint: makes an overlay over the base of the mapped overlay
/// file and loads the checkpoint, given the contents of its two files, into it.
pub fn restore_from_checkpoint<'a>(
    base: Arc<SharedMemfile<'a>>,
    overlay_path: &str,
    overlay_data: &'a mut [u8],
    bitmap_bytes: &[u8],
    data: &[u8],
) -> (r: Result<CoWOverlay<'a>, MemoryReclaimError>)
    requires
        base.wf(),
    ensures
        ({
            let dirty = bits_from_checkpoint(bitmap_bytes@, *base);
            match r {
                Ok(overlay) => {
                    &&& base.size > 0
                    &&& old(overlay_data)@.len() == base.size
                    &&& holds_dirty_pages(data@, dirty, base.size as int)
                    &&& overlay.wf()
                    &&& overlay.spec_base() == base
                    &&& overlay.spec_path() == overlay_path@
                    &&& overlay.dirty() == dirty
                    &&& overlay.padded() == bits_from_bytes(
                        bitmap_bytes@,
                        words_for(dirty.len()) * 64,
                    )
                    &&& overlay.overlay_bytes() == loaded(old(overlay_data)@, dirty, data@)
                },
                Err(MemoryReclaimError::SaveCheckpoint(text)) => if base.size == 0 {
                    text@ == "Failed to mmap overlay file: "@ + "EINVAL: Invalid argument"@
                } else if old(overlay_data)@.len() != base.size {
                    text@ == (CoWOverlayError::SizeMismatch {
                        expected: base.size,
                        actual: old(overlay_data)@.len() as u64,
                    }).text()
                } else {
                    !holds_dirty_pages(data@, dirty, base.size as int) && text@ == "Checkpoint error: "@ + (
                    CheckpointStage::Read.text() + "failed to fill whole buffer"@)
                },
                Err(_) => false,
            }
        }),
        r matches Ok(overlay) ==> {
            &&& overlay.dirty() == bits_from_bytes(bitmap_bytes@, overlay.dirty().len())
            &&& overlay@ == image(
                base@,
                loaded(old(overlay_data)@, overlay.dirty(), data@),
                overlay.dirty(),
            )
        },
{
    let mut overlay = match CoWOverlay::new(base, overlay_path, overlay_data) {
        Ok(overlay) => overlay,
        Err(error) => {
            return Err(restore_failed(&error));
        },
    };
    match overlay.load_checkpoint(bitmap_bytes, data) {
        Ok(_) => Ok(overlay),
        Err(error) => Err(restore_failed(&error)),
    }
}

/// What can come of a step of the cleanup after a sandbox.
pub open spec fn exit_answers(step: ExitStep, event: ExitEvent) -> bool {
    match step {
        ExitStep::SaveCheckpoint { .. } => event is CheckpointSaved || event is CheckpointFailed,
        ExitStep::ReclaimOverlay { .. } => event is Reclaimed,
        ExitStep::AdviseShared { .. } => event is Advised,
        ExitStep::Done => false,
        ExitStep::Failed(_) => false,
    }
}

/// Where a step of the cleanup has its place in a run that saves a checkpoint.
pub open spec fn exit_place(step: ExitStep) -> int {
    match step {
        ExitStep::SaveCheckpoint { .. } => 0,
        ExitStep::ReclaimOverlay { .. } => 1,
        ExitStep::AdviseShared { .. } => 2,
        ExitStep::Done => 3,
        ExitStep::Failed(_) => 4,
    }
}

/// A run of the cleanup after a sandbox.
pub open spec fn is_exit_run<'a>(
    overlay: CoWOverlay<'a>,
    entries: Seq<TrackedMemfile<'a>>,
    l2_checkpoint_path: Seq<char>,
    run: Seq<Turn<ExitEvent, ExitStep<'a>>>,
) -> bool {
    is_run(
        run,
        |event: ExitEvent| event is Requested,
        |event: ExitEvent, step: ExitStep<'a>|
            cleans_up(overlay, entries, l2_checkpoint_path, event, step),
        |step: ExitStep<'a>, event: ExitEvent| exit_answers(step, event),
    )
}

/// Every run of the cleanup takes its steps in the same order, until it fails; the saving is left
/// out if no page is dirty. So the memory of an overlay with dirty pages is given back only after
/// its checkpoint is saved, and a failed save gives nothing back. The whole overlay is given back,
/// and the kernel is told about every memfile that is tracked.
pub proof fn law_exit_order<'a>(
    overlay: CoWOverlay<'a>,
    entries: Seq<TrackedMemfile<'a>>,
    l2_checkpoint_path: Seq<char>,
    run: Seq<Turn<ExitEvent, ExitStep<'a>>>,
    i: int,
)
    requires
        overlay.wf(),
        is_exit_run(overlay, entries, l2_checkpoint_path, run),
        0 <= i < run.len(),
    ensures
        ({
            let skipped: int = if overlay.spec_dirty_count() > 0 {
                0
            } else {
                1
            };
            &&& run[i].step is Failed || exit_place(run[i].step) == i + skipped
            &&& forall|j: int| 0 <= j < i ==> exit_place((#[trigger] run[j]).step) == j + skipped
        }),
        overlay.spec_dirty_count() > 0 && i > 0 && !(run[i].step is Failed) ==> {
            &&& run[0].step is SaveCheckpoint
            &&& run[1].event is CheckpointSaved
        },
        run[i].step matches ExitStep::SaveCheckpoint { data_path, bitmap_path } ==> {
            &&& overlay.spec_dirty_count() > 0
            &&& data_path@ == l2_checkpoint_path + ".data"@
            &&& bitmap_path@ == l2_checkpoint_path + ".bitmap"@
        },
        run[i].step matches ExitStep::ReclaimOverlay { size, advice } ==> {
            &&& size == overlay.overlay_bytes().len()
            &&& advice == Advice::DontNeed
        },
        run[i].step matches ExitStep::AdviseShared { memfiles, advice } ==> {
            &&& advice == Advice::Cold
            &&& memfiles@.len() == entries.len()
            &&& forall|k: int|
                0 <= k < entries.len() ==> #[trigger] memfiles@[k] == entries[k].memfile
        },
        run[i].step is Failed <==> match run[i].event {
            ExitEvent::CheckpointFailed(_) => true,
            ExitEvent::Reclaimed { ret, .. } => ret < 0,
            _ => false,
        },
        run[i].step matches ExitStep::Failed(error) ==> match error {
            MemoryReclaimError::SaveCheckpoint(text) => run[i].event
                matches ExitEvent::CheckpointFailed(cause) && text@ == cause.text(),
            MemoryReclaimError::ReclaimMemory(text) => run[i].event matches ExitEvent::Reclaimed {
                cause,
                ..
            } && text@ == cause@,
            _ => false,
        },
    decreases i,
{
    let answers = |step: ExitStep<'a>, event: ExitEvent| exit_answers(step, event);
    if i > 0 {
        law_exit_order(overlay, entries, l2_checkpoint_path, run, i - 1);
        assert(answered(run, i, answers));
        assert(exit_answers(run[i - 1].step, run[i].event));
    }
    assert(cleans_up(overlay, entries, l2_checkpoint_path, run[i].event, run[i].step));
    if i > 1 {
        assert(answered(run, 1, answers));
        assert(cleans_up(overlay, entries, l2_checkpoint_path, run[1].event, run[1].step));
    }
}

/// A sandbox that is restored from the checkpoint that was saved when it exited sees the memory
/// that it saw then, with the same pages dirty, and its restore does not fail.
pub proof fn law_restore_undoes_exit(
    overlay: &CoWOverlay,
    pages: Seq<PageWrite>,
    bitmap_bytes: Seq<u8>,
    overlay_data: Seq<u8>,
)
    requires
        overlay.wf(),
        checkpoint_pages(pages, overlay.overlay_bytes(), overlay.dirty()),
        bytes_hold_bits(bitmap_bytes, overlay.padded()),
        overlay_data.len() == overlay.spec_base().size,
    ensures
        ({
            let base = overlay.spec_base();
            let data = data_file(overlay.overlay_bytes().len(), pages);
            let dirty = bits_from_checkpoint(bitmap_bytes, *base);
            &&& base.size > 0
            &&& holds_dirty_pages(data, dirty, base.size as int)
            &&& dirty == overlay.dirty()
            &&& image(base@, loaded(overlay_data, dirty, data), dirty) == overlay@
        }),
{
    law_checkpoint_round_trip(overlay, pages, bitmap_bytes, overlay_data);
}

/// The checkpoint that is saved when a sandbox exits is the one that restoring from the same
/// directory looks for.
pub proof fn law_exit_saves_where_restore_looks<'a>(
    overlay: CoWOverlay<'a>,
    entries: Seq<TrackedMemfile<'a>>,
    exiting: Seq<Turn<ExitEvent, ExitStep<'a>>>,
    i: int,
    metadata: LayeredSnapshotMetadata,
    snapshot_dir: Seq<char>,
    overlay_dir: Seq<char>,
    restoring: Seq<Turn<RestoreEvent, RestoreStep>>,
    j: int,
)
    requires
        overlay.wf(),
        is_exit_run(overlay, entries, joined(snapshot_dir, "l2.checkpoint"@), exiting),
        is_restore_run(metadata, snapshot_dir, overlay_dir, restoring),
        0 <= i < exiting.len(),
        0 <= j < restoring.len(),
        exiting[i].step is SaveCheckpoint,
        restoring[j].step is ProbeCheckpoint,
    ensures
        exiting[i].step->SaveCheckpoint_data_path@ == restoring[j].step->ProbeCheckpoint_data_path@,
        exiting[i].step->SaveCheckpoint_bitmap_path@
            == restoring[j].step->ProbeCheckpoint_bitmap_path@,
{
    law_exit_order(overlay, entries, joined(snapshot_dir, "l2.checkpoint"@), exiting, i);
    law_restore_files(metadata, snapshot_dir, overlay_dir, restoring, j);
}

/// The text of an error ends with its cause, and what stands before that depends on the kind of the
/// error alone.
pub proof fn law_reclaim_error_text(error: MemoryReclaimError, other: MemoryReclaimError)
    ensures
        match (error, other) {
            (
                MemoryReclaimError::ImportDirtyPages(cause),
                MemoryReclaimError::ImportDirtyPages(b),
            ) => ends_with(error.text(), cause@)
                && before_end(error.text(), cause@) == before_end(other.text(), b@),
            (
                MemoryReclaimError::SaveCheckpoint(cause),
                MemoryReclaimError::SaveCheckpoint(b),
            ) => ends_with(error.text(), cause@)
                && before_end(error.text(), cause@) == before_end(other.text(), b@),
            (
                MemoryReclaimError::ReclaimMemory(cause),
                MemoryReclaimError::ReclaimMemory(b),
            ) => ends_with(error.text(), cause@)
                && before_end(error.text(), cause@) == before_end(other.text(), b@),
            (
                MemoryReclaimError::Io(cause),
                MemoryReclaimError::Io(b),
            ) => ends_with(error.text(), cause@)
                && before_end(error.text(), cause@) == before_end(other.text(), b@),
            _ => true,
        },
{
    lemma_reclaim_error_text(error);
    lemma_reclaim_error_text(other);
}

proof fn lemma_reclaim_error_text(error: MemoryReclaimError)
    ensures
        match error {
            MemoryReclaimError::ImportDirtyPages(cause) => {
                &&& ends_with(error.text(), cause@)
                &&& before_end(error.text(), cause@) == "Failed to import dirty pages: "@
            },
            MemoryReclaimError::SaveCheckpoint(cause) => {
                &&& ends_with(error.text(), cause@)
                &&& before_end(error.text(), cause@) == "Failed to save checkpoint: "@
            },
            MemoryReclaimError::ReclaimMemory(cause) => {
                &&& ends_with(error.text(), cause@)
                &&& before_end(error.text(), cause@) == "Failed to reclaim memory: "@
            },
            MemoryReclaimError::Io(cause) => {
                &&& ends_with(error.text(), cause@)
                &&& before_end(error.text(), cause@) == "IO error: "@
            },
        },
{
    match error {
        MemoryReclaimError::ImportDirtyPages(cause) => {
            lemma_before_end("Failed to import dirty pages: "@, cause@);
        },
        MemoryReclaimError::SaveCheckpoint(cause) => {
            lemma_before_end("Failed to save checkpoint: "@, cause@);
        },
        MemoryReclaimError::ReclaimMemory(cause) => {
            lemma_before_end("Failed to reclaim memory: "@, cause@);
        },
        MemoryReclaimError::Io(cause) => {
            lemma_before_end("IO error: "@, cause@);
        },
    }
}

} // verus!
