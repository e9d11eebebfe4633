//! Copy-on-Write overlay for per-instance dirty page tracking.
//!
//! The `CoWOverlay` wraps a shared base memfile (L0/L1) with an overlay of the same size for
//! modified pages (L2). It provides a read-through view:
//! - Dirty pages (marked in the bitmap) come from the overlay
//! - Clean pages fall through to the shared base

pub use crate::page_bitmap::PageBitmap;
use crate::page_bitmap::{
    bits_from_bytes, bytes_hold_bits, count_true, law_dirty_positions, law_serialization_round_trip,
    lemma_count_bound, true_positions, words_for,
};
use crate::runs::{answered, is_run, Turn};
use crate::shared_memfile::{MmapRequest, OpenRequest, SharedMemfile, Sharing, PAGE_SIZE};
use crate::text::{
    before_end, concat, concat4, decimal, decimal_text, ends_with, lemma_before_end, signed_decimal,
    signed_decimal_text,
};
use std::sync::Arc;
use vstd::prelude::*;

verus! {

/// Errors related to CoW overlay operations
#[derive(Debug)]
pub enum CoWOverlayError {
    OpenFailed { path: String, source: String },
    TruncateFailed(String),
    MmapFailed(String),
    ReadFailed(String),
    WriteFailed(String),
    InvalidOffset(i64),
    SizeMismatch { expected: u64, actual: u64 },
    Checkpoint(String),
}

impl CoWOverlayError {
    /// The text of the error.
    pub open spec fn text(&self) -> Seq<char> {
        match self {
            CoWOverlayError::OpenFailed { path, source } => "Failed to open overlay file "@ + path@
                + ": "@ + source@,
            CoWOverlayError::TruncateFailed(source) => "Failed to truncate overlay file: "@
                + source@,
            CoWOverlayError::MmapFailed(source) => "Failed to mmap overlay file: "@ + source@,
            CoWOverlayError::ReadFailed(source) => "Failed to read from overlay: "@ + source@,
            CoWOverlayError::WriteFailed(source) => "Failed to write to overlay: "@ + source@,
            CoWOverlayError::InvalidOffset(offset) => "Invalid offset: "@ + signed_decimal(
                *offset as int,
            ),
            CoWOverlayError::SizeMismatch { expected, actual } =>
            "Overlay size mismatch: expected "@ + decimal(*expected as nat) + ", got "@ + decimal(
                *actual as nat,
            ),
            CoWOverlayError::Checkpoint(cause) => "Checkpoint error: "@ + cause@,
        }
    }

    /// Writes the error out.
    pub fn to_string(&self) -> (r: String)
        ensures
            r@ == self.text(),
    {
        match self {
            CoWOverlayError::OpenFailed { path, source } => concat4(
                "Failed to open overlay file ",
                path.as_str(),
                ": ",
                source.as_str(),
            ),
            CoWOverlayError::TruncateFailed(source) => concat(
                "Failed to truncate overlay file: ",
                source.as_str(),
            ),
            CoWOverlayError::MmapFailed(source) => concat(
                "Failed to mmap overlay file: ",
                source.as_str(),
            ),
            CoWOverlayError::ReadFailed(source) => concat(
                "Failed to read from overlay: ",
                source.as_str(),
            ),
            CoWOverlayError::WriteFailed(source) => concat(
                "Failed to write to overlay: ",
                source.as_str(),
            ),
            CoWOverlayError::InvalidOffset(offset) => concat(
                "Invalid offset: ",
                signed_decimal_text(*offset).as_str(),
            ),
            CoWOverlayError::SizeMismatch { expected, actual } => concat4(
                "Overlay size mismatch: expected ",
                decimal_text(*expected).as_str(),
                ", got ",
                decimal_text(*actual).as_str(),
            ),
            CoWOverlayError::Checkpoint(cause) => concat("Checkpoint error: ", cause.as_str()),
        }
    }
}

/// The part of saving or loading a checkpoint that went wrong.
#[derive(Debug, Clone, Copy)]
pub enum CheckpointStage {
    CreateDataFile,
    TruncateDataFile,
    Seek,
    Write,
    WriteBitmap,
    ReadBitmap,
    OpenDataFile,
    Read,
}

impl CheckpointStage {
    /// What stands in front of the cause.
    pub open spec fn text(&self) -> Seq<char> {
        match self {
            CheckpointStage::CreateDataFile => "create data file: "@,
            CheckpointStage::TruncateDataFile => "truncate data file: "@,
            CheckpointStage::Seek => "seek: "@,
            CheckpointStage::Write => "write: "@,
            CheckpointStage::WriteBitmap => "write bitmap: "@,
            CheckpointStage::ReadBitmap => "read bitmap: "@,
            CheckpointStage::OpenDataFile => "open data file: "@,
            CheckpointStage::Read => "read: "@,
        }
    }

    fn prefix(&self) -> (r: &'static str)
        ensures
            r@ == self.text(),
    {
        match self {
            CheckpointStage::CreateDataFile => "create data file: ",
            CheckpointStage::TruncateDataFile => "truncate data file: ",
            CheckpointStage::Seek => "seek: ",
            CheckpointStage::Write => "write: ",
            CheckpointStage::WriteBitmap => "write bitmap: ",
            CheckpointStage::ReadBitmap => "read bitmap: ",
            CheckpointStage::OpenDataFile => "open data file: ",
            CheckpointStage::Read => "read: ",
        }
    }
}

/// The error for a checkpoint that could not be saved or loaded.
pub fn checkpoint_error(stage: CheckpointStage, cause: &str) -> (r: CoWOverlayError)
    ensures
        r matches CoWOverlayError::Checkpoint(text) && text@ == stage.text() + cause@,
{
    CoWOverlayError::Checkpoint(concat(stage.prefix(), cause))
}

/// Writes `nix::errno::Errno::EINVAL` with its `Display`: the name of the error, a colon and what
/// it means.
#[verifier::external_body]
fn invalid_argument() -> (r: String)
    ensures
        r@ == "EINVAL: Invalid argument"@,
{
    nix::errno::Errno::EINVAL.to_string()
}

/// The path of the file that holds the page data of a checkpoint.
pub fn checkpoint_data_path(dst_path: &str) -> (r: String)
    ensures
        r@ == dst_path@ + ".data"@,
{
    concat(dst_path, ".data")
}

/// The path of the file that holds the dirty page bitmap of a checkpoint.
pub fn checkpoint_bitmap_path(dst_path: &str) -> (r: String)
    ensures
        r@ == dst_path@ + ".bitmap"@,
{
    concat(dst_path, ".bitmap")
}

/// Bytes with others written over them from a position on, as far as there is room.
pub open spec fn written(dst: Seq<u8>, at: int, src: Seq<u8>) -> Seq<u8> {
    Seq::new(
        dst.len(),
        |i: int|
            if at <= i < at + src.len() {
                src[i - at]
            } else {
                dst[i]
            },
    )
}

/// The index of the page that holds the byte at a position.
pub open spec fn page_of(at: int) -> int {
    at / (PAGE_SIZE as int)
}

/// How many pages memory of the given size has; the last one may be short.
pub open spec fn pages_for(size: int) -> int {
    (size + PAGE_SIZE - 1) / (PAGE_SIZE as int)
}

/// Where a page ends in memory of the given size.
pub open spec fn page_end(page: int, size: int) -> int {
    if (page + 1) * PAGE_SIZE <= size {
        (page + 1) * PAGE_SIZE
    } else {
        size
    }
}

/// Counts the pages of memory of the given size.
fn page_count(size: u64) -> (r: u64)
    ensures
        r == pages_for(size as int),
{
    let whole: u64 = size / PAGE_SIZE;
    if size % PAGE_SIZE == 0 {
        whole
    } else {
        whole + 1
    }
}

/// Whether the byte at a position belongs to a dirty page.
pub open spec fn in_dirty_page(dirty: Seq<bool>, at: int) -> bool {
    page_of(at) < dirty.len() && dirty[page_of(at)]
}

/// The read-through view: dirty pages from the overlay, all else from the base.
pub open spec fn image(base: Seq<u8>, overlay: Seq<u8>, dirty: Seq<bool>) -> Seq<u8> {
    Seq::new(
        base.len(),
        |i: int|
            if in_dirty_page(dirty, i) {
                overlay[i]
            } else {
                base[i]
            },
    )
}

/// As much of the data as fits a page.
pub open spec fn first_page(data: Seq<u8>) -> Seq<u8> {
    data.take(
        if data.len() <= PAGE_SIZE {
            data.len() as int
        } else {
            PAGE_SIZE as int
        },
    )
}

/// Whether a page is addressed by its offset and lies whole within the given size.
pub open spec fn valid_page(page_offset: int, size: int) -> bool {
    &&& page_offset % (PAGE_SIZE as int) == 0
    &&& page_offset + PAGE_SIZE <= size
}

/// Whether importing so many bytes at an offset marks a page: it does if any of the bytes that lie
/// within the size goes to the page.
pub open spec fn import_marks(offset: int, len: int, size: int, page: int) -> bool {
    &&& len > 0
    &&& offset < size
    &&& page_of(offset) <= page <= page_of(offset + len - 1)
}

/// The dirty pages after an import.
pub open spec fn import_dirty(dirty: Seq<bool>, offset: int, len: int, size: int) -> Seq<bool> {
    Seq::new(dirty.len(), |page: int| dirty[page] || import_marks(offset, len, size, page))
}

/// Whether data of so many bytes holds a page of memory of the given size.
pub open spec fn page_within(page: int, size: int, len: int) -> bool {
    page_end(page, size) <= len
}

/// The overlay after the dirty pages that the data holds are copied to it.
pub open spec fn loaded(overlay: Seq<u8>, dirty: Seq<bool>, data: Seq<u8>) -> Seq<u8> {
    Seq::new(
        overlay.len(),
        |i: int|
            if in_dirty_page(dirty, i) && page_within(
                page_of(i),
                overlay.len() as int,
                data.len() as int,
            ) {
                data[i]
            } else {
                overlay[i]
            },
    )
}

/// Copies bytes over others.
fn copy_at(dst: &mut [u8], at: usize, src: &[u8], from: usize, len: usize)
    requires
        at + len <= old(dst)@.len(),
        from + len <= src@.len(),
    ensures
        final(dst)@ == written(old(dst)@, at as int, src@.subrange(from as int, from + len)),
{
    let ghost whole = src@.subrange(from as int, from + len);
    let mut i: usize = 0;
    proof {
        assert(whole.take(0) =~= Seq::empty());
        assert(dst@ =~= written(old(dst)@, at as int, whole.take(0)));
    }
    while i < len
        invariant
            i <= len,
            at + len <= old(dst)@.len(),
            from + len <= src@.len(),
            whole == src@.subrange(from as int, from + len),
            dst@ == written(old(dst)@, at as int, whole.take(i as int)),
        decreases len - i,
    {
        assert(at + len <= dst.len());
        assert(from + len <= src.len());
        let byte: u8 = src[from + i];
        dst[at + i] = byte;
        assert(dst@ =~= written(old(dst)@, at as int, whole.take(i + 1)));
        i = i + 1;
    }
    assert(whole.take(len as int) =~= whole);
}

/// What came of the last step of creating an overlay.
pub enum OverlayEvent<'a> {
    /// A caller asks for the overlay.
    Requested,
    /// The overlay file is open and empty.
    Opened,
    /// The overlay file could not be opened.
    OpenFailed(String),
    /// The overlay file has its size.
    Truncated,
    /// The overlay file could not be given its size.
    TruncateFailed(String),
    /// The overlay file is mapped.
    Mapped(&'a mut [u8]),
    /// The overlay file could not be mapped.
    MmapFailed(String),
}

/// The next step of creating an overlay.
pub enum OverlayStep<'a> {
    /// Open the overlay file.
    Open { options: OpenRequest },
    /// Give the overlay file this size.
    SetLen { size: u64 },
    /// Map the overlay file.
    Mmap { request: MmapRequest },
    /// The overlay is there.
    Ready(CoWOverlay<'a>),
    /// The overlay could not be created.
    Failed(CoWOverlayError),
}

/// An overlay file is opened for reading and writing; it is created or emptied.
pub open spec fn overlay_open() -> OpenRequest {
    OpenRequest { read: true, write: true, create: true, truncate: true }
}

/// An overlay file is mapped whole, so that writes reach the file.
pub open spec fn overlay_mmap(size: u64) -> MmapRequest {
    MmapRequest {
        len: size,
        offset: 0,
        read: true,
        write: true,
        sharing: Sharing::Shared,
        populate: false,
    }
}

/// What one step of creating an overlay does: the file is opened, gets the size of the base and is
/// mapped; the overlay over the mapped file is fresh. Every failure ends it.
pub open spec fn created<'a>(
    base: Arc<SharedMemfile<'a>>,
    path: Seq<char>,
    event: OverlayEvent<'a>,
    step: OverlayStep<'a>,
) -> bool {
    match event {
        OverlayEvent::Requested => step == (OverlayStep::Open { options: overlay_open() }),
        OverlayEvent::OpenFailed(cause) => step matches OverlayStep::Failed(
            CoWOverlayError::OpenFailed { path: p, source },
        ) && p@ == path && source@ == cause@,
        OverlayEvent::Opened => step matches OverlayStep::SetLen { size } && size
            == base.size,
        OverlayEvent::TruncateFailed(cause) => step matches OverlayStep::Failed(
            CoWOverlayError::TruncateFailed(source),
        ) && source@ == cause@,
        OverlayEvent::Truncated => if base.size == 0 {
            step matches OverlayStep::Failed(CoWOverlayError::MmapFailed(source))
                && source@ == "EINVAL: Invalid argument"@
        } else {
            step == (OverlayStep::Mmap { request: overlay_mmap(base.size) })
        },
        OverlayEvent::MmapFailed(cause) => step matches OverlayStep::Failed(
            CoWOverlayError::MmapFailed(source),
        ) && source@ == cause@,
        OverlayEvent::Mapped(data) => if base.size == 0 {
            step matches OverlayStep::Failed(CoWOverlayError::MmapFailed(source))
                && source@ == "EINVAL: Invalid argument"@
        } else if (*data)@.len() != base.size {
            step matches OverlayStep::Failed(
                CoWOverlayError::SizeMismatch { expected, actual },
            ) && expected == base.size && actual == (*data)@.len()
        } else {
            step matches OverlayStep::Ready(overlay) && overlay.is_fresh(
                base,
                path,
                (*data)@,
            )
        },
    }
}

/// CoW overlay wrapping a shared base memfile with an overlay for
/// per-instance dirty pages.
pub struct CoWOverlay<'a> {
    /// The shared base memfile (L0/L1)
    base: Arc<SharedMemfile<'a>>,
    /// Path to the overlay file
    overlay_path: String,
    /// The mapped overlay region
    overlay_data: &'a mut [u8],
    /// Dirty page bitmap
    bitmap: PageBitmap,
    /// Size of the overlay in bytes
    size: u64,
    /// Number of dirty pages
    dirty_pages: u64,
}

impl<'a> View for CoWOverlay<'a> {
    type V = Seq<u8>;

    /// The memory as the instance sees it.
    open spec fn view(&self) -> Seq<u8> {
        image(self.spec_base()@, self.overlay_bytes(), self.dirty())
    }
}

impl<'a> CoWOverlay<'a> {
    /// The base memfile.
    pub closed spec fn spec_base(&self) -> Arc<SharedMemfile<'a>> {
        self.base
    }

    /// The path of the overlay file.
    pub closed spec fn spec_path(&self) -> Seq<char> {
        self.overlay_path@
    }

    /// The bytes of the overlay.
    pub closed spec fn overlay_bytes(&self) -> Seq<u8> {
        self.overlay_data@
    }

    /// The state of each page: `true` means dirty.
    pub closed spec fn dirty(&self) -> Seq<bool> {
        self.bitmap@
    }

    /// The bits of the dirty page bitmap with its padding.
    pub closed spec fn padded(&self) -> Seq<bool> {
        self.bitmap.padded()
    }

    /// The number of dirty pages.
    pub open spec fn spec_dirty_count(&self) -> nat {
        count_true(self.dirty())
    }

    /// The size, the bitmap and the number of dirty pages agree with what they stand for.
    pub closed spec fn inner_wf(&self) -> bool {
        &&& self.size == self.base.size
        &&& self.bitmap.wf()
        &&& self.dirty_pages == count_true(self.bitmap@)
    }

    /// Base and overlay have the same size and are not empty, each page has its bit, a short last
    /// page too, and the number of dirty pages is kept.
    pub open spec fn wf(&self) -> bool {
        &&& self.spec_base().wf()
        &&& self.spec_base().size > 0
        &&& self.overlay_bytes().len() == self.spec_base().size
        &&& self.dirty().len() == pages_for(self.spec_base().size as int)
        &&& self.padded().len() == words_for(self.dirty().len()) * 64
        &&& self.dirty() == self.padded().take(self.dirty().len() as int)
        &&& self.inner_wf()
    }

    /// A well-formed overlay over the given base, with the given bytes and no dirty page: it reads
    /// as the base does.
    pub open spec fn is_fresh(
        &self,
        base: Arc<SharedMemfile<'a>>,
        path: Seq<char>,
        bytes: Seq<u8>,
    ) -> bool {
        &&& self.wf()
        &&& self.spec_base() == base
        &&& self.spec_path() == path
        &&& self.overlay_bytes() == bytes
        &&& self.dirty() == Seq::new(pages_for(base.size as int) as nat, |i: int| false)
        &&& self.padded() == Seq::new(words_for(self.dirty().len()) * 64, |i: int| false)
        &&& self.spec_dirty_count() == 0
        &&& self@ == base@
    }

    /// Creates the overlay file for a base memfile and the overlay over it: opens the file, gives
    /// it the size of the base and maps it.
    ///
    /// The caller starts with `OverlayEvent::Requested`, does what each step says and hands back
    /// what came of it, until the step is `Ready` or `Failed`.
    pub fn create(
        base: &Arc<SharedMemfile<'a>>,
        overlay_path: &str,
        event: OverlayEvent<'a>,
    ) -> (step: OverlayStep<'a>)
        requires
            base.wf(),
        ensures
            created(*base, overlay_path@, event, step),
    {
        match event {
            OverlayEvent::Requested => OverlayStep::Open {
                options: OpenRequest { read: true, write: true, create: true, truncate: true },
            },
            OverlayEvent::OpenFailed(cause) => OverlayStep::Failed(
                CoWOverlayError::OpenFailed { path: overlay_path.to_owned(), source: cause },
            ),
            OverlayEvent::Opened => OverlayStep::SetLen { size: base.size },
            OverlayEvent::TruncateFailed(cause) => OverlayStep::Failed(
                CoWOverlayError::TruncateFailed(cause),
            ),
            OverlayEvent::Truncated => {
                if base.size == 0 {
                    OverlayStep::Failed(
                        CoWOverlayError::MmapFailed(invalid_argument()),
                    )
                } else {
                    OverlayStep::Mmap {
                        request: MmapRequest {
                            len: base.size,
                            offset: 0,
                            read: true,
                            write: true,
                            sharing: Sharing::Shared,
                            populate: false,
                        },
                    }
                }
            },
            OverlayEvent::MmapFailed(cause) => OverlayStep::Failed(
                CoWOverlayError::MmapFailed(cause),
            ),
            OverlayEvent::Mapped(data) => {
                match CoWOverlay::new(base.clone(), overlay_path, data) {
                    Ok(overlay) => OverlayStep::Ready(overlay),
                    Err(error) => OverlayStep::Failed(error),
                }
            },
        }
    }

    /// Creates a new CoW overlay over the given shared base memfile. The overlay region has the
    /// size of the base; all pages are clean.
    pub fn new(
        base: Arc<SharedMemfile<'a>>,
        overlay_path: &str,
        overlay_data: &'a mut [u8],
    ) -> (r: Result<Self, CoWOverlayError>)
        requires
            base.wf(),
        ensures
            match r {
                Ok(overlay) => base.size > 0 && old(overlay_data)@.len() == base.size
                    && overlay.is_fresh(base, overlay_path@, old(overlay_data)@),
                Err(CoWOverlayError::MmapFailed(cause)) => base.size == 0 && cause@
                    == "EINVAL: Invalid argument"@,
                Err(CoWOverlayError::SizeMismatch { expected, actual }) => base.size > 0 && expected
                    == base.size && actual == old(overlay_data)@.len() && actual != expected,
                Err(_) => false,
            },
    {
        let size: u64 = base.size;
        if size == 0 {
            return Err(CoWOverlayError::MmapFailed(invalid_argument()));
        }
        if overlay_data.len() as u64 != size {
            return Err(
                CoWOverlayError::SizeMismatch { expected: size, actual: overlay_data.len() as u64 },
            );
        }
        let num_pages: u64 = page_count(size);
        assert(words_for(num_pages as nat) * 8 <= isize::MAX) by {
            assert(size <= overlay_data.len());
            assert(num_pages * 4096 <= usize::MAX + 4095);
        }
        let bitmap = PageBitmap::new(num_pages);
        proof {
            bitmap.lemma_pages_lead_padding();
        }
        let overlay = CoWOverlay {
            base,
            overlay_path: overlay_path.to_owned(),
            overlay_data,
            bitmap,
            size,
            dirty_pages: 0,
        };
        assert(overlay@ =~= overlay.spec_base()@);
        Ok(overlay)
    }

    /// Returns a slice of the overlay data.
    pub fn overlay_data(&self) -> (r: &[u8])
        ensures
            r@ == self.overlay_bytes(),
    {
        &*self.overlay_data
    }

    /// Returns the base memfile.
    pub fn base(&self) -> (r: &Arc<SharedMemfile<'a>>)
        ensures
            *r == self.spec_base(),
    {
        &self.base
    }

    /// Returns the size of the overlay in bytes.
    pub fn size(&self) -> (r: u64)
        requires
            self.wf(),
        ensures
            r == self.overlay_bytes().len(),
    {
        self.size
    }

    /// Returns the number of dirty pages.
    pub fn dirty_page_count(&self) -> (r: u64)
        requires
            self.wf(),
        ensures
            r == self.spec_dirty_count(),
    {
        self.dirty_pages
    }

    /// Returns true if at least one page has been modified.
    pub fn has_dirty_pages(&self) -> (r: bool)
        requires
            self.wf(),
        ensures
            r == (self.spec_dirty_count() > 0),
    {
        self.dirty_pages > 0
    }

    /// Returns the overlay file path.
    pub fn overlay_path(&self) -> (r: &str)
        ensures
            r@ == self.spec_path(),
    {
        self.overlay_path.as_str()
    }

    /// Reads a page, preferring the overlay if the page is marked dirty. There is none where the
    /// offset is not that of a page, or the page does not lie within the overlay.
    pub fn read_page(&self, page_offset: u64) -> (r: Option<&[u8]>)
        requires
            self.wf(),
        ensures
            match r {
                Some(page) => valid_page(page_offset as int, self@.len() as int) && page@
                    == self@.subrange(page_offset as int, page_offset + PAGE_SIZE),
                None => !valid_page(page_offset as int, self@.len() as int),
            },
            r is Some <==> page_offset % 4096 == 0 && page_offset + 4096 <= self@.len(),
            r matches Some(page) ==> page@.len() == 4096 && forall|k: int|
                0 <= k < 4096 ==> #[trigger] page@[k] == self@[page_offset + k],
    {
        if page_offset >= self.size || page_offset % PAGE_SIZE != 0 {
            return None;
        }
        if self.size - page_offset < PAGE_SIZE {
            return None;
        }
        let page_idx: u64 = page_offset / PAGE_SIZE;
        assert(self.size <= self.overlay_data.len());
        let start: usize = page_offset as usize;
        let end: usize = (page_offset + PAGE_SIZE) as usize;
        let ghost want = self@.subrange(page_offset as int, page_offset + PAGE_SIZE);
        if self.bitmap.is_set(page_idx) {
            let page: &[u8] = &self.overlay_data[start..end];
            assert(page@ =~= want);
            Some(page)
        } else {
            let page: &[u8] = &self.base.data[start..end];
            assert(page@ =~= want);
            Some(page)
        }
    }

    /// Returns the overlay data for writing. What is written stays invisible where pages are
    /// clean; no page is marked.
    pub fn overlay_data_mut(&mut self) -> (r: &mut [u8])
        requires
            old(self).wf(),
        ensures
            (*r)@ == old(self).overlay_bytes(),
            final(self).overlay_bytes() == (*final(r))@,
            final(self).spec_base() == old(self).spec_base(),
            final(self).spec_path() == old(self).spec_path(),
            final(self).dirty() == old(self).dirty(),
            final(self).padded() == old(self).padded(),
            (*final(r))@.len() == (*r)@.len() ==> final(self).wf(),
    {
        &mut *self.overlay_data
    }

    /// Marks a page as dirty and counts it if it was clean.
    fn mark(&mut self, page_idx: u64)
        requires
            old(self).wf(),
            page_idx < old(self).dirty().len(),
        ensures
            final(self).wf(),
            final(self).spec_base() == old(self).spec_base(),
            final(self).spec_path() == old(self).spec_path(),
            final(self).overlay_bytes() == old(self).overlay_bytes(),
            final(self).dirty() == old(self).dirty().update(page_idx as int, true),
            final(self).padded() == old(self).padded().update(page_idx as int, true),
    {
        if !self.bitmap.is_set(page_idx) {
            self.bitmap.set(page_idx);
            proof {
                lemma_count_bound(self.bitmap@);
                self.bitmap.lemma_pages_lead_padding();
            }
            self.dirty_pages = self.dirty_pages + 1;
        } else {
            proof {
                self.bitmap.lemma_pages_lead_padding();
                assert(self.padded()[page_idx as int]);
                assert(self.dirty() =~= self.dirty().update(page_idx as int, true));
                assert(self.padded() =~= self.padded().update(page_idx as int, true));
            }
        }
    }

    /// Writes a page to the overlay and marks it as dirty. Data shorter than a page leaves the
    /// rest of the overlay's page as it is; what is longer is left out.
    pub fn write_page(&mut self, page_offset: u64, data: &[u8]) -> (r: Result<(), CoWOverlayError>)
        requires
            old(self).wf(),
        ensures
            final(self).wf(),
            final(self).spec_base() == old(self).spec_base(),
            final(self).spec_path() == old(self).spec_path(),
            match r {
                Ok(_) => {
                    &&& valid_page(page_offset as int, old(self)@.len() as int)
                    &&& final(self).overlay_bytes() == written(
                        old(self).overlay_bytes(),
                        page_offset as int,
                        first_page(data@),
                    )
                    &&& final(self).dirty() == old(self).dirty().update(
                        page_of(page_offset as int),
                        true,
                    )
                    &&& final(self).padded() == old(self).padded().update(
                        page_of(page_offset as int),
                        true,
                    )
                },
                Err(CoWOverlayError::InvalidOffset(offset)) => {
                    &&& !valid_page(page_offset as int, old(self)@.len() as int)
                    &&& offset == if page_offset <= i64::MAX {
                        page_offset as int
                    } else {
                        page_offset - 0x1_0000_0000_0000_0000
                    }
                    &&& final(self).overlay_bytes() == old(self).overlay_bytes()
                    &&& final(self).dirty() == old(self).dirty()
                    &&& final(self).padded() == old(self).padded()
                },
                Err(_) => false,
            },
            r is Ok <==> page_offset % 4096 == 0 && page_offset + 4096 <= old(self)@.len(),
            r is Ok ==> forall|i: int|
                0 <= i < old(self)@.len() ==> #[trigger] final(self).overlay_bytes()[i] == if 0 <= i
                    - page_offset < 4096 && i - page_offset < data@.len() {
                    data@[i - page_offset]
                } else {
                    old(self).overlay_bytes()[i]
                },
            r is Ok ==> forall|page: int|
                0 <= page < old(self).dirty().len() ==> (#[trigger] final(self).dirty()[page]
                    <==> old(self).dirty()[page] || page * 4096 == page_offset),
    {
        if page_offset >= self.size || page_offset % PAGE_SIZE != 0 || self.size - page_offset
            < PAGE_SIZE {
            assert(page_offset as i64 == if page_offset <= 0x7fff_ffff_ffff_ffff {
                page_offset as int
            } else {
                page_offset - 0x1_0000_0000_0000_0000
            }) by (bit_vector);
            return Err(
                CoWOverlayError::InvalidOffset(
                    #[verifier::truncate]
                    (page_offset as i64),
                ),
            );
        }
        let page_idx: u64 = page_offset / PAGE_SIZE;
        let len: usize = if data.len() <= PAGE_SIZE as usize {
            data.len()
        } else {
            PAGE_SIZE as usize
        };
        assert(self.size <= self.overlay_data.len());
        copy_at(self.overlay_data, page_offset as usize, data, 0, len);
        assert(data@.subrange(0, len as int) =~= data@.take(len as int));
        self.mark(page_idx);
        Ok(())
    }

    /// Imports dirty pages from a source buffer. Each page is written to
    /// the overlay and marked dirty, also one that the buffer covers in part and a short last page.
    /// Bytes that would lie behind the end of the overlay are left out.
    pub fn import_dirty_pages(&mut self, offset: u64, data: &[u8]) -> (r: Result<
        (),
        CoWOverlayError,
    >)
        requires
            old(self).wf(),
        ensures
            r is Ok,
            final(self).wf(),
            final(self).spec_base() == old(self).spec_base(),
            final(self).spec_path() == old(self).spec_path(),
            final(self).overlay_bytes() == written(
                old(self).overlay_bytes(),
                offset as int,
                data@,
            ),
            final(self).dirty() == import_dirty(
                old(self).dirty(),
                offset as int,
                data@.len() as int,
                old(self)@.len() as int,
            ),
            final(self).padded() == final(self).dirty() + old(self).padded().skip(
                old(self).dirty().len() as int,
            ),
            forall|i: int|
                0 <= i < old(self)@.len() ==> #[trigger] final(self).overlay_bytes()[i] == if 0 <= i
                    - offset < data@.len() {
                    data@[i - offset]
                } else {
                    old(self).overlay_bytes()[i]
                },
            forall|page: int|
                0 <= page < old(self).dirty().len() ==> (#[trigger] final(self).dirty()[page]
                    <==> old(self).dirty()[page] || (data@.len() > 0 && offset < old(self)@.len() && page * 4096
                    < offset + data@.len() && offset < page * 4096 + 4096)),
    {
        let len: usize = data.len();
        let ghost size = self@.len() as int;
        let ghost was_dirty = self.dirty();
        let ghost padding = self.padded().skip(self.dirty().len() as int);
        if len == 0 || offset >= self.size {
            assert(self.overlay_bytes() =~= written(self.overlay_bytes(), offset as int, data@));
            assert(was_dirty =~= import_dirty(was_dirty, offset as int, len as int, size));
            assert(self.padded() =~= self.dirty() + padding);
            return Ok(());
        }
        let room: u64 = self.size - offset;
        let copy_len: usize = if (len as u64) < room {
            len
        } else {
            room as usize
        };
        assert(self.size <= self.overlay_data.len());
        copy_at(self.overlay_data, offset as usize, data, 0, copy_len);
        assert(self.overlay_bytes() =~= written(old(self).overlay_bytes(), offset as int, data@));
        let first: u64 = offset / PAGE_SIZE;
        let last: u64 = (offset + (copy_len as u64 - 1)) / PAGE_SIZE;
        let mut page_idx: u64 = first;
        assert(self.dirty() =~= marked_upto(was_dirty, first as int, first as int));
        while page_idx <= last
            invariant
                self.wf(),
                self.spec_base() == old(self).spec_base(),
                self.spec_path() == old(self).spec_path(),
                self.overlay_bytes() == written(old(self).overlay_bytes(), offset as int, data@),
                self.dirty() == marked_upto(was_dirty, first as int, page_idx as int),
                self.padded().skip(was_dirty.len() as int) == padding,
                first <= page_idx <= last + 1,
                last < was_dirty.len(),
                was_dirty.len() == pages_for(self.size as int),
            decreases last + 1 - page_idx,
        {
            let ghost earlier = self.padded();
            self.mark(page_idx);
            assert(self.padded().skip(was_dirty.len() as int) =~= earlier.skip(
                was_dirty.len() as int,
            ));
            assert(self.dirty() =~= marked_upto(was_dirty, first as int, page_idx + 1));
            page_idx = page_idx + 1;
        }
        proof {
            assert(copy_len < len ==> offset + copy_len == size);
            assert(self.dirty() =~= import_dirty(was_dirty, offset as int, len as int, size));
            assert(self.padded() =~= self.dirty() + padding);
        }
        Ok(())
    }

    /// Reads data from the overlay, falling back to the base for clean pages. Returns how many
    /// bytes were read: as many as the buffer holds, or as many as lie behind the offset.
    pub fn read_at(&self, buf: &mut [u8], offset: u64) -> (r: Result<usize, CoWOverlayError>)
        requires
            self.wf(),
        ensures
            match r {
                Ok(n) => {
                    &&& n == if offset >= self@.len() {
                        0
                    } else if old(buf)@.len() <= self@.len() - offset {
                        old(buf)@.len() as int
                    } else {
                        self@.len() - offset
                    }
                    &&& n > 0 ==> final(buf)@ == written(
                        old(buf)@,
                        0,
                        self@.subrange(offset as int, offset + n),
                    )
                    &&& n == 0 ==> final(buf)@ == old(buf)@
                    &&& final(buf)@.len() == old(buf)@.len()
                    &&& forall|k: int| 0 <= k < n ==> #[trigger] final(buf)@[k] == self@[offset + k]
                    &&& forall|k: int|
                        n <= k < old(buf)@.len() ==> #[trigger] final(buf)@[k] == old(buf)@[k]
                },
                Err(_) => false,
            },
    {
        if offset >= self.size {
            return Ok(0);
        }
        let room: u64 = self.size - offset;
        let to_read: u64 = if (buf.len() as u64) < room {
            buf.len() as u64
        } else {
            room
        };
        let end: u64 = offset + to_read;
        let mut pos: u64 = offset;
        let ghost whole = self@.subrange(offset as int, end as int);
        let ghost before = buf@;
        proof {
            assert(whole.take(0) =~= Seq::empty());
            assert(buf@ =~= written(before, 0, whole.take(0)));
        }
        while pos < end
            invariant
                self.wf(),
                offset <= pos <= end,
                end == offset + to_read,
                end <= self.size,
                to_read <= before.len(),
                before.len() <= usize::MAX,
                whole == self@.subrange(offset as int, end as int),
                buf@ == written(before, 0, whole.take(pos - offset)),
            decreases end - pos,
        {
            let page_idx: u64 = pos / PAGE_SIZE;
            let page_start: u64 = page_idx * PAGE_SIZE;
            let chunk_start: u64 = pos - page_start;
            let left: u64 = end - page_start;
            let chunk_end: u64 = if left < PAGE_SIZE {
                left
            } else {
                PAGE_SIZE
            };
            let chunk_len: usize = (chunk_end - chunk_start) as usize;
            assert(self.size <= self.overlay_data.len());
            let ghost earlier = buf@;
            if self.bitmap.is_set(page_idx) {
                copy_at(
                    buf,
                    (pos - offset) as usize,
                    &*self.overlay_data,
                    pos as usize,
                    chunk_len,
                );
            } else {
                copy_at(buf, (pos - offset) as usize, self.base.data, pos as usize, chunk_len);
            }
            proof {
                assert forall|i: int| pos <= i < pos + chunk_len implies page_of(i)
                    == page_idx by {}
                assert(buf@ =~= written(before, 0, whole.take(pos + chunk_len - offset)));
            }
            pos = pos + chunk_len as u64;
        }
        assert(whole.take(to_read as int) =~= whole);
        assert(to_read == 0 ==> buf@ =~= before);
        Ok(to_read as usize)
    }

    /// Saves a checkpoint of the overlay: what is to be written to its two files.
    /// - `{dst_path}.data`: the sparse overlay data (only dirty pages)
    /// - `{dst_path}.bitmap`: the dirty page bitmap
    pub fn save_checkpoint(&self) -> (r: Checkpoint<'_>)
        requires
            self.wf(),
        ensures
            r.size == self.overlay_bytes().len(),
            checkpoint_pages(r.pages@, self.overlay_bytes(), self.dirty()),
            bytes_hold_bits(r.bitmap@, self.padded()),
    {
        let indices = self.bitmap.iter_dirty();
        let mut pages: Vec<PageWrite<'_>> = Vec::new();
        let mut i: usize = 0;
        while i < indices.len()
            invariant
                self.wf(),
                indices@ == true_positions(self.dirty()),
                i <= indices@.len(),
                pages@.len() == i,
                forall|k: int|
                    0 <= k < i ==> (#[trigger] pages@[k]).holds(
                        self.overlay_bytes(),
                        indices@[k] as int,
                    ),
            decreases indices@.len() - i,
        {
            let page_idx: u64 = indices[i];
            proof {
                law_dirty_positions(self.dirty());
                assert(indices@.contains(indices@[i as int]));
            }
            assert(self.size <= self.overlay_data.len());
            let offset: u64 = page_idx * PAGE_SIZE;
            let end: u64 = if self.size - offset < PAGE_SIZE {
                self.size
            } else {
                offset + PAGE_SIZE
            };
            let data: &[u8] = &self.overlay_data[offset as usize..end as usize];
            pages.push(PageWrite { offset, data });
            i = i + 1;
        }
        Checkpoint { size: self.size, pages, bitmap: self.bitmap.to_bytes() }
    }

    /// Loads a checkpoint, given the contents of its two files, into this overlay.
    ///
    /// Pages are copied one after the other; where the data ends too early the pages before that
    /// have been copied, and the bitmap is what it was.
    pub fn load_checkpoint(&mut self, bitmap_bytes: &[u8], data: &[u8]) -> (r: Result<
        (),
        CoWOverlayError,
    >)
        requires
            old(self).wf(),
        ensures
            final(self).wf(),
            final(self).spec_base() == old(self).spec_base(),
            final(self).spec_path() == old(self).spec_path(),
            final(self).overlay_bytes() == loaded(
                old(self).overlay_bytes(),
                bits_from_bytes(bitmap_bytes@, old(self).dirty().len()),
                data@,
            ),
            match r {
                Ok(_) => {
                    &&& holds_dirty_pages(
                        data@,
                        bits_from_bytes(bitmap_bytes@, old(self).dirty().len()),
                        old(self)@.len() as int,
                    )
                    &&& final(self).dirty() == bits_from_bytes(
                        bitmap_bytes@,
                        old(self).dirty().len(),
                    )
                    &&& final(self).padded() == bits_from_bytes(
                        bitmap_bytes@,
                        old(self).padded().len(),
                    )
                },
                Err(CoWOverlayError::Checkpoint(cause)) => {
                    &&& !holds_dirty_pages(
                        data@,
                        bits_from_bytes(bitmap_bytes@, old(self).dirty().len()),
                        old(self)@.len() as int,
                    )
                    &&& cause@ == CheckpointStage::Read.text() + "failed to fill whole buffer"@
                    &&& final(self).dirty() == old(self).dirty()
                    &&& final(self).padded() == old(self).padded()
                },
                Err(_) => false,
            },
    {
        let num_pages: u64 = page_count(self.size);
        assert(self.size <= self.overlay_data.len());
        assert(num_pages * 4096 <= usize::MAX + 4095);
        let loaded_bitmap = PageBitmap::from_bytes(bitmap_bytes, num_pages);
        let indices = loaded_bitmap.iter_dirty();
        let ghost before = self.overlay_bytes();
        let ghost dirty = loaded_bitmap@;
        let ghost size = self.size as int;
        let mut i: usize = 0;
        proof {
            loaded_bitmap.lemma_pages_lead_padding();
            law_dirty_positions(dirty);
            assert(before =~= loaded_upto(before, dirty, data@, 0));
        }
        while i < indices.len()
            invariant
                self.wf(),
                self.size == size,
                self.spec_base() == old(self).spec_base(),
                self.spec_path() == old(self).spec_path(),
                self.dirty() == old(self).dirty(),
                self.padded() == old(self).padded(),
                dirty == bits_from_bytes(bitmap_bytes@, old(self).dirty().len()),
                dirty.len() == pages_for(size),
                dirty.len() <= u64::MAX,
                before == old(self).overlay_bytes(),
                before.len() == size,
                indices@ == true_positions(dirty),
                i <= indices@.len(),
                forall|k: int|
                    0 <= k < i ==> page_within(
                        (#[trigger] indices@[k]) as int,
                        size,
                        data@.len() as int,
                    ),
                self.overlay_bytes() == loaded_upto(
                    before,
                    dirty,
                    data@,
                    pages_before(indices@, i as int),
                ),
            decreases indices@.len() - i,
        {
            let page_idx: u64 = indices[i];
            proof {
                law_dirty_positions(dirty);
                assert(indices@.contains(indices@[i as int]));
            }
            assert(self.size <= self.overlay_data.len());
            let offset: u64 = page_idx * PAGE_SIZE;
            let end: u64 = if self.size - offset < PAGE_SIZE {
                self.size
            } else {
                offset + PAGE_SIZE
            };
            assert(end == page_end(page_idx as int, size));
            if end > data.len() as u64 {
                proof {
                    assert(!page_within(page_idx as int, size, data@.len() as int));
                    lemma_load_ends(before, dirty, data@, i as int, false);
                }
                return Err(checkpoint_error(CheckpointStage::Read, "failed to fill whole buffer"));
            }
            let ghost earlier = self.overlay_bytes();
            copy_at(
                self.overlay_data,
                offset as usize,
                data,
                offset as usize,
                (end - offset) as usize,
            );
            proof {
                lemma_load_step(before, dirty, data@, i as int, earlier, self.overlay_bytes());
            }
            i = i + 1;
        }
        proof {
            lemma_load_ends(before, dirty, data@, i as int, true);
            lemma_count_bound(dirty);
        }
        self.dirty_pages = loaded_bitmap.dirty_count();
        self.bitmap = loaded_bitmap;
        Ok(())
    }
}

/// A page of a checkpoint's data file.
#[derive(Debug)]
pub struct PageWrite<'b> {
    /// Where the page stands in the file
    pub offset: u64,
    /// The bytes of the page
    pub data: &'b [u8],
}

impl<'b> PageWrite<'b> {
    /// This is the page with the index, as the overlay has it.
    pub open spec fn holds(&self, overlay: Seq<u8>, page: int) -> bool {
        &&& self.offset == page * PAGE_SIZE
        &&& self.data@ == overlay.subrange(page * PAGE_SIZE, page_end(page, overlay.len() as int))
    }
}

/// The contents of a checkpoint's two files.
#[derive(Debug)]
pub struct Checkpoint<'b> {
    /// The size of the data file
    pub size: u64,
    /// The pages that are written to the data file; the rest of it stays empty
    pub pages: Vec<PageWrite<'b>>,
    /// The contents of the bitmap file
    pub bitmap: Vec<u8>,
}

/// These are the dirty pages of an overlay, in ascending order.
pub open spec fn checkpoint_pages(
    pages: Seq<PageWrite>,
    overlay: Seq<u8>,
    dirty: Seq<bool>,
) -> bool {
    &&& pages.len() == true_positions(dirty).len()
    &&& forall|k: int|
        0 <= k < pages.len() ==> (#[trigger] pages[k]).holds(
            overlay,
            true_positions(dirty)[k] as int,
        )
}

/// The contents of a data file of the given size after pages are written to it.
pub open spec fn data_file(size: nat, pages: Seq<PageWrite>) -> Seq<u8>
    decreases pages.len(),
{
    if pages.len() == 0 {
        Seq::new(size, |i: int| 0u8)
    } else {
        written(
            data_file(size, pages.drop_last()),
            pages.last().offset as int,
            pages.last().data@,
        )
    }
}

/// The dirty pages that the bitmap file of a checkpoint gives to an overlay over a base.
pub open spec fn bits_from_checkpoint(bitmap_bytes: Seq<u8>, base: SharedMemfile) -> Seq<bool> {
    bits_from_bytes(bitmap_bytes, pages_for(base.size as int) as nat)
}

/// Whether data is long enough for every dirty page of memory of the given size.
pub open spec fn holds_dirty_pages(data: Seq<u8>, dirty: Seq<bool>, size: int) -> bool {
    forall|page: int|
        0 <= page < dirty.len() && #[trigger] dirty[page] ==> page_within(
            page,
            size,
            data.len() as int,
        )
}

/// How many pages come before the one at a place in a list of pages, and after the list all.
spec fn pages_before(indices: Seq<u64>, i: int) -> int {
    if i == 0 {
        0
    } else {
        indices[i - 1] + 1
    }
}

/// The overlay after the dirty pages below a limit are copied to it.
spec fn loaded_upto(overlay: Seq<u8>, dirty: Seq<bool>, data: Seq<u8>, limit: int) -> Seq<u8> {
    Seq::new(
        overlay.len(),
        |i: int|
            if in_dirty_page(dirty, i) && page_of(i) < limit {
                data[i]
            } else {
                overlay[i]
            },
    )
}

/// Between two neighbours in the list of dirty pages all pages are clean.
proof fn lemma_clean_between(dirty: Seq<bool>, i: int, page: int)
    requires
        dirty.len() <= u64::MAX,
        0 <= i <= true_positions(dirty).len(),
        pages_before(true_positions(dirty), i) <= page < dirty.len(),
        i < true_positions(dirty).len() ==> page < true_positions(dirty)[i],
    ensures
        !dirty[page],
{
    law_dirty_positions(dirty);
    let indices = true_positions(dirty);
    if dirty[page] {
        assert(indices.contains(page as u64));
        let k = choose|k: int| 0 <= k < indices.len() && indices[k] == page as u64;
        if k < i - 1 {
            assert(indices[k] < indices[i - 1]);
        } else if k >= i && i < k {
            assert(indices[i] < indices[k]);
        }
    }
}

/// Copying the next dirty page.
proof fn lemma_load_step(
    before: Seq<u8>,
    dirty: Seq<bool>,
    data: Seq<u8>,
    i: int,
    earlier: Seq<u8>,
    now: Seq<u8>,
)
    requires
        dirty.len() <= u64::MAX,
        dirty.len() == pages_for(before.len() as int),
        0 <= i < true_positions(dirty).len(),
        page_within(true_positions(dirty)[i] as int, before.len() as int, data.len() as int),
        earlier == loaded_upto(before, dirty, data, pages_before(true_positions(dirty), i)),
        now == written(
            earlier,
            true_positions(dirty)[i] * PAGE_SIZE,
            data.subrange(
                true_positions(dirty)[i] * PAGE_SIZE,
                page_end(true_positions(dirty)[i] as int, before.len() as int),
            ),
        ),
    ensures
        now == loaded_upto(before, dirty, data, pages_before(true_positions(dirty), i + 1)),
{
    law_dirty_positions(dirty);
    let indices = true_positions(dirty);
    let page = indices[i] as int;
    assert(indices.contains(indices[i]));
    let want = loaded_upto(before, dirty, data, page + 1);
    assert forall|x: int| 0 <= x < now.len() implies now[x] == want[x] by {
        let p = page_of(x);
        let end = page_end(page, before.len() as int);
        if p == page {
            assert(page * PAGE_SIZE <= x < end);
        } else {
            assert(!(page * PAGE_SIZE <= x < end));
            if pages_before(indices, i) <= p < page {
                lemma_clean_between(dirty, i, p);
            }
        }
    }
    assert(now =~= want);
}

/// Where copying stops, either because all is done or because the data ends.
proof fn lemma_load_ends(
    before: Seq<u8>,
    dirty: Seq<bool>,
    data: Seq<u8>,
    i: int,
    all: bool,
)
    requires
        dirty.len() <= u64::MAX,
        dirty.len() == pages_for(before.len() as int),
        0 <= i <= true_positions(dirty).len(),
        forall|k: int|
            0 <= k < i ==> page_within(
                (#[trigger] true_positions(dirty)[k]) as int,
                before.len() as int,
                data.len() as int,
            ),
        all ==> i == true_positions(dirty).len(),
        !all ==> i < true_positions(dirty).len() && !page_within(
            true_positions(dirty)[i] as int,
            before.len() as int,
            data.len() as int,
        ),
    ensures
        loaded_upto(before, dirty, data, pages_before(true_positions(dirty), i)) == loaded(
            before,
            dirty,
            data,
        ),
        holds_dirty_pages(data, dirty, before.len() as int) == all,
{
    law_dirty_positions(dirty);
    let indices = true_positions(dirty);
    let limit = pages_before(indices, i);
    let size = before.len() as int;
    assert forall|p: int| 0 <= p < dirty.len() && #[trigger] dirty[p] implies page_within(
        p,
        size,
        data.len() as int,
    ) == (p < limit) by {
        assert(indices.contains(p as u64));
        let k = choose|k: int| 0 <= k < indices.len() && indices[k] == p as u64;
        if k < i {
            if k < i - 1 {
                assert(indices[k] < indices[i - 1]);
            }
        } else {
            if i > 0 {
                assert(indices[i - 1] < indices[k]);
            }
            if i < k {
                assert(indices[i] < indices[k]);
            }
            assert(!page_within(indices[i] as int, size, data.len() as int));
            assert(page_end(p, size) >= page_end(indices[i] as int, size));
        }
    }
    let want = loaded(before, dirty, data);
    let have = loaded_upto(before, dirty, data, limit);
    assert forall|x: int| 0 <= x < before.len() implies have[x] == want[x] by {
        if in_dirty_page(dirty, x) {
            assert(dirty[page_of(x)]);
        }
    }
    assert(have =~= want);
    if all {
        assert forall|p: int| 0 <= p < dirty.len() && #[trigger] dirty[p] implies p < limit by {
            if p >= limit {
                lemma_clean_between(dirty, i, p);
            }
        }
    } else {
        assert(indices.contains(indices[i]));
        assert(dirty[indices[i] as int]);
    }
}

/// The dirty pages after those from one page up to another are marked.
spec fn marked_upto(dirty: Seq<bool>, first: int, limit: int) -> Seq<bool> {
    Seq::new(dirty.len(), |page: int| dirty[page] || first <= page < limit)
}

/// An overlay without dirty pages reads as its base: there is nothing to save of it.
pub proof fn law_clean_overlay_reads_base(overlay: &CoWOverlay)
    requires
        overlay.wf(),
        overlay.spec_dirty_count() == 0,
    ensures
        overlay@ == overlay.spec_base()@,
{
    let dirty = overlay.dirty();
    law_dirty_positions(dirty);
    assert forall|page: int| 0 <= page < dirty.len() implies !dirty[page] by {
        assert(!true_positions(dirty).contains(page as u64));
    }
    assert(overlay@ =~= overlay.spec_base()@);
}

/// After a page is written, reading gives back what was written, and everywhere else what was
/// read before. Behind data that is shorter than a page the page shows what the overlay held; of
/// data that is longer only what fits the page is written.
pub proof fn law_read_after_write(
    base: Seq<u8>,
    overlay: Seq<u8>,
    dirty: Seq<bool>,
    page_offset: int,
    data: Seq<u8>,
)
    requires
        overlay.len() == base.len(),
        dirty.len() == pages_for(base.len() as int),
        0 <= page_offset,
        page_offset % 4096 == 0,
        page_offset + 4096 <= base.len(),
    ensures
        valid_page(page_offset, base.len() as int),
        ({
            let after = image(
                base,
                written(overlay, page_offset, first_page(data)),
                dirty.update(page_of(page_offset), true),
            );
            &&& after.len() == base.len()
            &&& forall|i: int|
                0 <= i < base.len() ==> #[trigger] after[i] == if 0 <= i - page_offset < 4096 {
                    if i - page_offset < data.len() {
                        data[i - page_offset]
                    } else {
                        overlay[i]
                    }
                } else {
                    image(base, overlay, dirty)[i]
                }
        }),
        ({
            let after = image(
                base,
                written(overlay, page_offset, first_page(data)),
                dirty.update(page_of(page_offset), true),
            );
            &&& after == written(
                written(
                    image(base, overlay, dirty),
                    page_offset,
                    overlay.subrange(page_offset, page_offset + PAGE_SIZE),
                ),
                page_offset,
                first_page(data),
            )
            &&& after.subrange(page_offset, page_offset + first_page(data).len()) == first_page(
                data,
            )
        }),
{
    let page = page_of(page_offset);
    let kept = first_page(data);
    let after = image(base, written(overlay, page_offset, kept), dirty.update(page, true));
    let want = written(
        written(
            image(base, overlay, dirty),
            page_offset,
            overlay.subrange(page_offset, page_offset + PAGE_SIZE),
        ),
        page_offset,
        kept,
    );
    assert(page_offset == page * PAGE_SIZE);
    assert forall|i: int| 0 <= i < base.len() implies after[i] == want[i] by {
        if page_of(i) == page {
            assert(page_offset <= i < page_offset + PAGE_SIZE);
        } else {
            assert(!(page_offset <= i < page_offset + PAGE_SIZE));
        }
    }
    assert(after =~= want);
    assert(after.subrange(page_offset, page_offset + kept.len()) =~= kept);
}

/// After an import, reading gives back what was imported, and what was read before in the pages
/// that the import did not reach; elsewhere in the pages that it reached it gives what the overlay
/// held.
pub proof fn law_read_after_import(
    base: Seq<u8>,
    overlay: Seq<u8>,
    dirty: Seq<bool>,
    offset: int,
    data: Seq<u8>,
    at: int,
)
    requires
        overlay.len() == base.len(),
        dirty.len() == pages_for(base.len() as int),
        0 <= offset,
        0 <= at < base.len(),
    ensures
        image(
            base,
            written(overlay, offset, data),
            import_dirty(dirty, offset, data.len() as int, base.len() as int),
        )[at] == if offset <= at < offset + data.len() {
            data[at - offset]
        } else if data.len() > 0 && offset < base.len() && offset / 4096 <= at / 4096 <= (offset
            + data.len() - 1) / 4096 {
            overlay[at]
        } else {
            image(base, overlay, dirty)[at]
        },
{
    assert(page_of(at) < dirty.len());
}

/// What a checkpoint's data file holds: each dirty page as the overlay has it, and zeros.
proof fn lemma_data_file(
    size: nat,
    pages: Seq<PageWrite>,
    overlay: Seq<u8>,
    dirty: Seq<bool>,
    n: int,
)
    requires
        overlay.len() == size,
        dirty.len() == pages_for(size as int),
        dirty.len() <= u64::MAX,
        checkpoint_pages(pages, overlay, dirty),
        0 <= n <= pages.len(),
    ensures
        data_file(size, pages.take(n)) == loaded_upto(
            Seq::new(size, |i: int| 0u8),
            dirty,
            overlay,
            pages_before(true_positions(dirty), n),
        ),
    decreases n,
{
    let zeros = Seq::new(size, |i: int| 0u8);
    let indices = true_positions(dirty);
    if n == 0 {
        assert(zeros =~= loaded_upto(zeros, dirty, overlay, 0));
    } else {
        let shorter = pages.take(n - 1);
        lemma_data_file(size, pages, overlay, dirty, n - 1);
        assert(pages.take(n).drop_last() =~= shorter);
        law_dirty_positions(dirty);
        assert(indices.contains(indices[n - 1]));
        assert(pages[n - 1].holds(overlay, indices[n - 1] as int));
        let page = indices[n - 1] as int;
        assert((page + 1) * PAGE_SIZE == page * PAGE_SIZE + PAGE_SIZE);
        lemma_load_step(
            zeros,
            dirty,
            overlay,
            n - 1,
            data_file(size, shorter),
            data_file(size, pages.take(n)),
        );
    }
}

/// A checkpoint that was saved can be loaded into any overlay over the same base, and the memory
/// then reads as it did when the checkpoint was saved, with the same pages dirty.
pub proof fn law_checkpoint_round_trip(
    overlay: &CoWOverlay,
    pages: Seq<PageWrite>,
    bitmap_bytes: Seq<u8>,
    before: Seq<u8>,
)
    requires
        overlay.wf(),
        checkpoint_pages(pages, overlay.overlay_bytes(), overlay.dirty()),
        bytes_hold_bits(bitmap_bytes, overlay.padded()),
        before.len() == overlay.overlay_bytes().len(),
    ensures
        ({
            let data = data_file(overlay.overlay_bytes().len(), pages);
            let dirty = bits_from_bytes(bitmap_bytes, overlay.dirty().len());
            &&& holds_dirty_pages(data, dirty, before.len() as int)
            &&& dirty == overlay.dirty()
            &&& image(overlay.spec_base()@, loaded(before, dirty, data), dirty) == overlay@
        }),
{
    let size = overlay.overlay_bytes().len();
    let data = data_file(size, pages);
    law_serialization_round_trip(&overlay.bitmap, bitmap_bytes);
    overlay.bitmap.lemma_pages_lead_padding();
    let dirty = overlay.dirty();
    lemma_data_file(size, pages, overlay.overlay_bytes(), dirty, pages.len() as int);
    assert(pages.take(pages.len() as int) =~= pages);
    law_dirty_positions(dirty);
    assert forall|page: int| 0 <= page < dirty.len() && #[trigger] dirty[page] implies page
        < pages_before(true_positions(dirty), pages.len() as int) by {
        let limit = pages_before(true_positions(dirty), pages.len() as int);
        if page >= limit {
            lemma_clean_between(dirty, pages.len() as int, page);
        }
    }
    assert(data.len() == size);
    assert(image(overlay.spec_base()@, loaded(before, dirty, data), dirty) =~= overlay@);
}

/// What can come of a step of creating an overlay: a mapping that was made has the length that was
/// asked for.
pub open spec fn overlay_answers<'a>(step: OverlayStep<'a>, event: OverlayEvent<'a>) -> bool {
    match step {
        OverlayStep::Open { .. } => event is Opened || event is OpenFailed,
        OverlayStep::SetLen { .. } => event is Truncated || event is TruncateFailed,
        OverlayStep::Mmap { request } => match event {
            OverlayEvent::Mapped(data) => (*data)@.len() == request.len,
            _ => event is MmapFailed,
        },
        OverlayStep::Ready(_) => false,
        OverlayStep::Failed(_) => false,
    }
}

/// Where a step of creating an overlay has its place in a run.
pub open spec fn overlay_place(step: OverlayStep) -> int {
    match step {
        OverlayStep::Open { .. } => 0,
        OverlayStep::SetLen { .. } => 1,
        OverlayStep::Mmap { .. } => 2,
        OverlayStep::Ready(_) => 3,
        OverlayStep::Failed(_) => 4,
    }
}

/// A run of creating an overlay.
pub open spec fn is_overlay_run<'a>(
    base: Arc<SharedMemfile<'a>>,
    path: Seq<char>,
    run: Seq<Turn<OverlayEvent<'a>, OverlayStep<'a>>>,
) -> bool {
    is_run(
        run,
        |event: OverlayEvent<'a>| event is Requested,
        |event: OverlayEvent<'a>, step: OverlayStep<'a>| created(base, path, event, step),
        |step: OverlayStep<'a>, event: OverlayEvent<'a>| overlay_answers(step, event),
    )
}

/// Every run of creating an overlay takes its steps in the same order, until it fails: the file is
/// opened, gets the size of the base and is mapped whole so that writes reach it. The overlay that
/// is then there is fresh; it is there in every run whose steps succeed.
pub proof fn law_overlay_order<'a>(
    base: Arc<SharedMemfile<'a>>,
    path: Seq<char>,
    run: Seq<Turn<OverlayEvent<'a>, OverlayStep<'a>>>,
    i: int,
)
    requires
        base.wf(),
        is_overlay_run(base, path, run),
        0 <= i < run.len(),
    ensures
        run[i].step is Failed || overlay_place(run[i].step) == i,
        forall|j: int| 0 <= j < i ==> overlay_place((#[trigger] run[j]).step) == j,
        i == 3 ==> run[2].step == (OverlayStep::Mmap { request: overlay_mmap(base.size) }),
        run[i].step matches OverlayStep::Open { options } ==> options.read && options.write
            && options.create && options.truncate,
        run[i].step matches OverlayStep::SetLen { size } ==> size == base@.len(),
        run[i].step matches OverlayStep::Mmap { request } ==> {
            &&& request.len == base@.len()
            &&& request.len > 0
            &&& request.offset == 0
            &&& request.read
            &&& request.write
            &&& request.sharing == Sharing::Shared
            &&& !request.populate
        },
        run[i].step matches OverlayStep::Failed(error) ==> match error {
            CoWOverlayError::OpenFailed { path: p, source } => p@ == path && (run[i].event
                matches OverlayEvent::OpenFailed(cause) && source@ == cause@),
            CoWOverlayError::TruncateFailed(source) => run[i].event
                matches OverlayEvent::TruncateFailed(cause) && source@ == cause@,
            CoWOverlayError::MmapFailed(source) => match run[i].event {
                OverlayEvent::MmapFailed(cause) => source@ == cause@,
                _ => base@.len() == 0 && source@ == "EINVAL: Invalid argument"@,
            },
            _ => false,
        },
        run[i].event is Requested || run[i].event is Opened ==> !(run[i].step is Failed),
        run[i].event is Truncated ==> (run[i].step is Failed <==> base@.len() == 0),
        i == 3 ==> (run[3].step is Ready <==> run[3].event is Mapped),
        run[i].step matches OverlayStep::Ready(overlay) ==> {
            &&& i == 3
            &&& run[3].event matches OverlayEvent::Mapped(data)
            &&& overlay.is_fresh(base, path, (*data)@)
            &&& overlay.spec_base() == base
            &&& overlay.spec_path() == path
            &&& overlay.overlay_bytes() == (*data)@
            &&& overlay@ == base@
            &&& overlay.spec_dirty_count() == 0
            &&& forall|page: int|
                0 <= page < overlay.dirty().len() ==> !#[trigger] overlay.dirty()[page]
        },
    decreases i,
{
    let answers = |step: OverlayStep<'a>, event: OverlayEvent<'a>| overlay_answers(step, event);
    if i > 0 {
        law_overlay_order(base, path, run, i - 1);
        assert(answered(run, i, answers));
        assert(overlay_answers(run[i - 1].step, run[i].event));
    }
    assert(created(base, path, run[i].event, run[i].step));
    if i == 3 {
        assert(answered(run, 2, answers));
        assert(created(base, path, run[2].event, run[2].step));
    }
}

/// A byte reads from the overlay if its page is dirty, and from the base otherwise; every byte has a
/// page, and no page is without a byte.
pub proof fn law_overlay_reads_through(overlay: &CoWOverlay, at: int)
    requires
        overlay.wf(),
        0 <= at < overlay.spec_base()@.len(),
    ensures
        overlay@.len() == overlay.spec_base()@.len(),
        overlay.spec_base()@.len() <= overlay.dirty().len() * 4096 < overlay.spec_base()@.len()
            + 4096,
        overlay@[at] == if overlay.dirty()[at / 4096] {
            overlay.overlay_bytes()[at]
        } else {
            overlay.spec_base()@[at]
        },
{
}

/// What a checkpoint writes are the dirty pages of the overlay and no others, in ascending order,
/// each at its own place with the bytes that the overlay holds; the last one may be short.
pub proof fn law_checkpoint_holds_dirty_pages(
    pages: Seq<PageWrite>,
    overlay: Seq<u8>,
    dirty: Seq<bool>,
)
    requires
        checkpoint_pages(pages, overlay, dirty),
        overlay.len() <= dirty.len() * 4096 < overlay.len() + 4096,
        dirty.len() <= u64::MAX,
    ensures
        pages.len() == count_true(dirty),
        forall|k: int|
            0 <= k < pages.len() ==> {
                &&& (#[trigger] pages[k]).offset % 4096 == 0
                &&& pages[k].offset < overlay.len()
                &&& dirty[pages[k].offset as int / 4096]
                &&& pages[k].data@.len() == if overlay.len() - pages[k].offset < 4096 {
                    overlay.len() - pages[k].offset
                } else {
                    4096
                }
                &&& pages[k].data@ == overlay.subrange(
                    pages[k].offset as int,
                    pages[k].offset + pages[k].data@.len(),
                )
            },
        forall|a: int, b: int|
            0 <= a < b < pages.len() ==> (#[trigger] pages[a]).offset < (#[trigger] pages[b]).offset,
        forall|page: int|
            0 <= page < dirty.len() && #[trigger] dirty[page] ==> exists|k: int|
                0 <= k < pages.len() && (#[trigger] pages[k]).offset == page * 4096,
{
    let indices = true_positions(dirty);
    law_dirty_positions(dirty);
    assert forall|k: int| 0 <= k < pages.len() implies {
        &&& (#[trigger] pages[k]).offset == indices[k] * 4096
        &&& indices[k] < dirty.len()
        &&& dirty[indices[k] as int]
        &&& pages[k].data@ == overlay.subrange(
            indices[k] * 4096,
            page_end(indices[k] as int, overlay.len() as int),
        )
    } by {
        assert(pages[k].holds(overlay, indices[k] as int));
        assert(indices.contains(indices[k]));
    }
    assert forall|page: int| 0 <= page < dirty.len() && #[trigger] dirty[page] implies exists|k: int|
        0 <= k < pages.len() && (#[trigger] pages[k]).offset == page * 4096 by {
        assert(indices.contains(page as u64));
        let k = choose|k: int| 0 <= k < indices.len() && indices[k] == page as u64;
        assert(pages[k].offset == page * 4096);
    }
}

/// Loading takes each byte of a dirty page from the data if the data holds the page whole, and
/// leaves every other byte as it was.
pub proof fn law_load_takes_dirty_pages(
    overlay: Seq<u8>,
    dirty: Seq<bool>,
    data: Seq<u8>,
    at: int,
)
    requires
        0 <= at < overlay.len(),
        overlay.len() <= dirty.len() * 4096,
    ensures
        loaded(overlay, dirty, data).len() == overlay.len(),
        loaded(overlay, dirty, data)[at] == if dirty[at / 4096] && (at / 4096 * 4096 + 4096
            <= data.len() || overlay.len() <= data.len()) {
            data[at]
        } else {
            overlay[at]
        },
{
}

/// Data is long enough for the dirty pages if it reaches the end of each of them, or of the memory.
pub proof fn law_data_reaches_dirty_pages(data: Seq<u8>, dirty: Seq<bool>, size: int)
    ensures
        holds_dirty_pages(data, dirty, size) <==> forall|page: int|
            0 <= page < dirty.len() && #[trigger] dirty[page] ==> page * 4096 + 4096 <= data.len()
                || size <= data.len(),
{
    if holds_dirty_pages(data, dirty, size) {
        assert forall|page: int| 0 <= page < dirty.len() && #[trigger] dirty[page] implies page * 4096
            + 4096 <= data.len() || size <= data.len() by {
            assert(page_within(page, size, data.len() as int));
        }
    }
}

/// The text of an error ends with its cause, a path or a number standing before it as far as it has
/// them; what else stands in it depends on the kind of the error alone.
pub proof fn law_overlay_error_text(error: CoWOverlayError, other: CoWOverlayError)
    ensures
        match (error, other) {
            (
                CoWOverlayError::TruncateFailed(cause),
                CoWOverlayError::TruncateFailed(b),
            ) => ends_with(error.text(), cause@)
                && before_end(error.text(), cause@) == before_end(other.text(), b@),
            (
                CoWOverlayError::MmapFailed(cause),
                CoWOverlayError::MmapFailed(b),
            ) => ends_with(error.text(), cause@)
                && before_end(error.text(), cause@) == before_end(other.text(), b@),
            (
                CoWOverlayError::ReadFailed(cause),
                CoWOverlayError::ReadFailed(b),
            ) => ends_with(error.text(), cause@)
                && before_end(error.text(), cause@) == before_end(other.text(), b@),
            (
                CoWOverlayError::WriteFailed(cause),
                CoWOverlayError::WriteFailed(b),
            ) => ends_with(error.text(), cause@)
                && before_end(error.text(), cause@) == before_end(other.text(), b@),
            (
                CoWOverlayError::Checkpoint(cause),
                CoWOverlayError::Checkpoint(b),
            ) => ends_with(error.text(), cause@)
                && before_end(error.text(), cause@) == before_end(other.text(), b@),
            (
                CoWOverlayError::OpenFailed { path, source },
                CoWOverlayError::OpenFailed { path: p, source: s },
            ) => {
                let head = before_end(error.text(), source@);
                let other_head = before_end(other.text(), s@);
                &&& ends_with(error.text(), source@)
                &&& ends_with(head, path@ + ": "@)
                &&& before_end(head, path@ + ": "@) == before_end(other_head, p@ + ": "@)
            },
            (CoWOverlayError::InvalidOffset(offset), CoWOverlayError::InvalidOffset(b)) => {
                &&& ends_with(error.text(), signed_decimal(offset as int))
                &&& before_end(error.text(), signed_decimal(offset as int)) == before_end(
                    other.text(),
                    signed_decimal(b as int),
                )
            },
            (
                CoWOverlayError::SizeMismatch { expected, actual },
                CoWOverlayError::SizeMismatch { expected: e, actual: a },
            ) => {
                let head = before_end(error.text(), decimal(actual as nat));
                let other_head = before_end(other.text(), decimal(a as nat));
                &&& ends_with(error.text(), decimal(actual as nat))
                &&& ends_with(head, decimal(expected as nat) + ", got "@)
                &&& before_end(head, decimal(expected as nat) + ", got "@) == before_end(
                    other_head,
                    decimal(e as nat) + ", got "@,
                )
            },
            _ => true,
        },
{
    lemma_overlay_error_text(error);
    lemma_overlay_error_text(other);
}

proof fn lemma_overlay_error_text(error: CoWOverlayError)
    ensures
        match error {
            CoWOverlayError::OpenFailed { path, source } => {
                let head = before_end(error.text(), source@);
                &&& ends_with(error.text(), source@)
                &&& ends_with(head, path@ + ": "@)
                &&& before_end(head, path@ + ": "@) == "Failed to open overlay file "@
            },
            CoWOverlayError::SizeMismatch { expected, actual } => {
                let head = before_end(error.text(), decimal(actual as nat));
                &&& ends_with(error.text(), decimal(actual as nat))
                &&& ends_with(head, decimal(expected as nat) + ", got "@)
                &&& before_end(head, decimal(expected as nat) + ", got "@) == "Overlay size mismatch: expected "@
            },
            CoWOverlayError::InvalidOffset(offset) => {
                &&& ends_with(error.text(), signed_decimal(offset as int))
                &&& before_end(error.text(), signed_decimal(offset as int)) == "Invalid offset: "@
            },
            CoWOverlayError::TruncateFailed(cause) => {
                &&& ends_with(error.text(), cause@)
                &&& before_end(error.text(), cause@) == "Failed to truncate overlay file: "@
            },
            CoWOverlayError::MmapFailed(cause) => {
                &&& ends_with(error.text(), cause@)
                &&& before_end(error.text(), cause@) == "Failed to mmap overlay file: "@
            },
            CoWOverlayError::ReadFailed(cause) => {
                &&& ends_with(error.text(), cause@)
                &&& before_end(error.text(), cause@) == "Failed to read from overlay: "@
            },
            CoWOverlayError::WriteFailed(cause) => {
                &&& ends_with(error.text(), cause@)
                &&& before_end(error.text(), cause@) == "Failed to write to overlay: "@
            },
            CoWOverlayError::Checkpoint(cause) => {
                &&& ends_with(error.text(), cause@)
                &&& before_end(error.text(), cause@) == "Checkpoint error: "@
            },
        },
{
    match error {
        CoWOverlayError::OpenFailed { path, source } => {
            let lead = "Failed to open overlay file "@;
            lemma_before_end(lead + path@ + ": "@, source@);
            assert(lead + path@ + ": "@ =~= lead + (path@ + ": "@));
            lemma_before_end(lead, path@ + ": "@);
        },
        CoWOverlayError::SizeMismatch { expected, actual } => {
            let lead = "Overlay size mismatch: expected "@;
            lemma_before_end(lead + decimal(expected as nat) + ", got "@, decimal(actual as nat));
            assert(lead + decimal(expected as nat) + ", got "@ =~= lead + (decimal(expected as nat) + ", got "@));
            lemma_before_end(lead, decimal(expected as nat) + ", got "@);
        },
        CoWOverlayError::InvalidOffset(offset) => {
            lemma_before_end("Invalid offset: "@, signed_decimal(offset as int));
        },
        CoWOverlayError::TruncateFailed(cause) => {
            lemma_before_end("Failed to truncate overlay file: "@, cause@);
        },
        CoWOverlayError::MmapFailed(cause) => {
            lemma_before_end("Failed to mmap overlay file: "@, cause@);
        },
        CoWOverlayError::ReadFailed(cause) => {
            lemma_before_end("Failed to read from overlay: "@, cause@);
        },
        CoWOverlayError::WriteFailed(cause) => {
            lemma_before_end("Failed to write to overlay: "@, cause@);
        },
        CoWOverlayError::Checkpoint(cause) => {
            lemma_before_end("Checkpoint error: "@, cause@);
        },
    }
}

/// A mapped region that has not the size of the base makes no overlay: the error tells both sizes.
pub proof fn law_overlay_has_size_of_base<'a>(
    base: Arc<SharedMemfile<'a>>,
    path: Seq<char>,
    event: OverlayEvent<'a>,
    step: OverlayStep<'a>,
)
    requires
        base.wf(),
        created(base, path, event, step),
    ensures
        event matches OverlayEvent::Mapped(data) ==> {
            &&& step is Ready <==> (*data)@.len() == base@.len() && base@.len() > 0
            &&& base@.len() > 0 && (*data)@.len() != base@.len() ==> (step
                matches OverlayStep::Failed(CoWOverlayError::SizeMismatch { expected, actual })
                && expected == base@.len() && actual == (*data)@.len())
            &&& base@.len() == 0 ==> (step matches OverlayStep::Failed(
                CoWOverlayError::MmapFailed(_),
            ))
        },
{
}

} // verus!
