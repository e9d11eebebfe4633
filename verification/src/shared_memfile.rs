//! Cross-VM memory sharing through memfiles that are mapped once and counted.
//!
//! Opening, measuring and mapping a file is the caller's work. [`SharedMemfileManager::map`] says
//! at each point what is to be done next and takes what came of it.

use crate::paths::{path_key, same_path, PathKey};
use crate::runs::{answered, is_run, Turn};
use crate::text::{before_end, concat, concat3, concat4, ends_with, lemma_before_end};
use std::sync::Arc;
use vstd::prelude::*;

verus! {

/// Page size constant (4KB)
pub const PAGE_SIZE: u64 = 4096;

/// Errors related to shared memfile operations
#[derive(Debug)]
pub enum SharedMemfileError {
    OpenFailed { path: String, source: String },
    StatFailed { path: String, source: String },
    EmptyFile { path: String },
    MmapFailed { path: String, source: String },
    MunmapFailed(String),
    NotFound(String),
}

impl SharedMemfileError {
    /// The text of the error.
    pub open spec fn text(&self) -> Seq<char> {
        match self {
            SharedMemfileError::OpenFailed { path, source } => "Failed to open memfile "@ + path@
                + ": "@ + source@,
            SharedMemfileError::StatFailed { path, source } => "Failed to stat memfile "@ + path@
                + ": "@ + source@,
            SharedMemfileError::EmptyFile { path } => "Memfile "@ + path@ + " is empty"@,
            SharedMemfileError::MmapFailed { path, source } => "Failed to mmap memfile "@ + path@
                + ": "@ + source@,
            SharedMemfileError::MunmapFailed(source) => "Failed to munmap: "@ + source@,
            SharedMemfileError::NotFound(path) => "Memfile not found: "@ + path@,
        }
    }

    /// Writes the error out.
    pub fn to_string(&self) -> (r: String)
        ensures
            r@ == self.text(),
    {
        match self {
            SharedMemfileError::OpenFailed { path, source } => concat4(
                "Failed to open memfile ",
                path.as_str(),
                ": ",
                source.as_str(),
            ),
            SharedMemfileError::StatFailed { path, source } => concat4(
                "Failed to stat memfile ",
                path.as_str(),
                ": ",
                source.as_str(),
            ),
            SharedMemfileError::EmptyFile { path } => concat3(
                "Memfile ",
                path.as_str(),
                " is empty",
            ),
            SharedMemfileError::MmapFailed { path, source } => concat4(
                "Failed to mmap memfile ",
                path.as_str(),
                ": ",
                source.as_str(),
            ),
            SharedMemfileError::MunmapFailed(source) => concat(
                "Failed to munmap: ",
                source.as_str(),
            ),
            SharedMemfileError::NotFound(path) => concat("Memfile not found: ", path.as_str()),
        }
    }
}

/// A shared memory-mapped file that can be mapped into multiple VM processes.
#[derive(Debug)]
pub struct SharedMemfile<'a> {
    /// Path to the memfile on disk
    pub path: String,
    /// Size of the mapping in bytes
    pub size: u64,
    /// The mapped region
    pub data: &'a [u8],
}

impl<'a> View for SharedMemfile<'a> {
    type V = Seq<u8>;

    /// The bytes of the mapping.
    open spec fn view(&self) -> Seq<u8> {
        self.data@
    }
}

impl<'a> SharedMemfile<'a> {
    /// The size is that of the mapped region.
    pub open spec fn wf(&self) -> bool {
        self.size == self@.len()
    }

    /// Describes a mapped region.
    pub fn new(path: &str, data: &'a [u8]) -> (r: Self)
        ensures
            r.wf(),
            r.path@ == path@,
            r@ == data@,
    {
        SharedMemfile { path: path.to_owned(), size: data.len() as u64, data }
    }

    /// Returns a slice of the mapped data.
    pub fn data(&self) -> (r: &'a [u8])
        ensures
            r@ == self@,
    {
        self.data
    }
}

/// A memfile together with the number of references that are held to its mapping.
#[derive(Debug)]
pub struct TrackedMemfile<'a> {
    pub memfile: Arc<SharedMemfile<'a>>,
    pub ref_cnt: i32,
}

impl<'a> TrackedMemfile<'a> {
    /// What identifies the memfile: its path.
    pub open spec fn key(&self) -> PathKey {
        path_key(self.memfile.path@)
    }
}

/// How a file is to be opened
#[derive(Debug, Clone, Copy, PartialEq, Eq, Structural)]
pub struct OpenRequest {
    /// For reading
    pub read: bool,
    /// For writing
    pub write: bool,
    /// Create it if it is not there
    pub create: bool,
    /// Empty it
    pub truncate: bool,
}

/// Where writes to a mapping go
#[derive(Debug, Clone, Copy, PartialEq, Eq, Structural)]
pub enum Sharing {
    /// To a private copy of the page; other pages stay shared
    Private,
    /// To the file
    Shared,
}

/// How a file is to be mapped into memory
#[derive(Debug, Clone, Copy, PartialEq, Eq, Structural)]
pub struct MmapRequest {
    /// How many bytes
    pub len: u64,
    /// From where in the file on
    pub offset: u64,
    /// For reading
    pub read: bool,
    /// For writing
    pub write: bool,
    /// Where writes go
    pub sharing: Sharing,
    /// Fault all pages in beforehand
    pub populate: bool,
}

/// What the kernel is told about the use of memory
#[derive(Debug, Clone, Copy, PartialEq, Eq, Structural)]
pub enum Advice {
    /// It will be read in order.
    Sequential,
    /// It is not needed any longer.
    DontNeed,
    /// It will not be used soon.
    Cold,
}

/// A memfile is opened for reading only.
pub open spec fn memfile_open() -> OpenRequest {
    OpenRequest { read: true, write: false, create: false, truncate: false }
}

/// A memfile is mapped whole and privately, with all its pages faulted in.
pub open spec fn memfile_mmap(size: u64) -> MmapRequest {
    MmapRequest {
        len: size,
        offset: 0,
        read: true,
        write: true,
        sharing: Sharing::Private,
        populate: true,
    }
}

/// What came of the last step of a mapping.
pub enum MapEvent<'a> {
    /// A caller asks for the mapping.
    Requested,
    /// The file is open.
    Opened,
    /// The file could not be opened.
    OpenFailed(String),
    /// The file has this many bytes.
    Sized(u64),
    /// The size could not be found out.
    StatFailed(String),
    /// The file is mapped.
    Mapped(&'a [u8]),
    /// The file could not be mapped.
    MmapFailed(String),
    /// The kernel was told about these mapped bytes, and took it or not.
    Advised { data: &'a [u8], accepted: bool },
}

/// The next step of a mapping.
pub enum MapStep<'a> {
    /// Open the file.
    Open { options: OpenRequest },
    /// Find out the size of the open file.
    Stat,
    /// Map the open file.
    Mmap { request: MmapRequest },
    /// Tell the kernel how these mapped bytes, all of them, will be used.
    Advise { data: &'a [u8], advice: Advice },
    /// The mapping is there.
    Done(Arc<SharedMemfile<'a>>),
    /// The mapping failed.
    Failed(SharedMemfileError),
}

/// Whether a memfile with the path is among the tracked ones.
pub open spec fn tracks(entries: Seq<TrackedMemfile>, path: Seq<char>) -> bool {
    exists|i: int| 0 <= i < entries.len() && (#[trigger] entries[i]).key() == path_key(path)
}

/// Where the memfile with the path stands among the tracked ones.
pub open spec fn place(entries: Seq<TrackedMemfile>, path: Seq<char>) -> int {
    choose|i: int| 0 <= i < entries.len() && (#[trigger] entries[i]).key() == path_key(path)
}

/// No two tracked memfiles have the same path, and none is empty.
pub open spec fn well_tracked(entries: Seq<TrackedMemfile>) -> bool {
    &&& forall|i: int, j: int|
        0 <= i < j < entries.len() ==> (#[trigger] entries[i]).key() != (
        #[trigger] entries[j]).key()
    &&& forall|i: int|
        0 <= i < entries.len() ==> (#[trigger] entries[i]).memfile.wf() && entries[i].memfile.size
            > 0
}

/// How many references are held to the memfile with the path; a count that has wrapped around
/// counts as none.
pub open spec fn references_to(entries: Seq<TrackedMemfile>, path: Seq<char>) -> int {
    if tracks(entries, path) && entries[place(entries, path)].ref_cnt > 0 {
        entries[place(entries, path)].ref_cnt as int
    } else {
        0
    }
}

/// A reference count after one more reference; it wraps around.
pub open spec fn one_more(ref_cnt: i32) -> int {
    if ref_cnt == i32::MAX {
        i32::MIN as int
    } else {
        ref_cnt + 1
    }
}

/// The tracked memfiles after one more reference to the one with the path.
pub open spec fn referenced<'a>(entries: Seq<TrackedMemfile<'a>>, path: Seq<char>) -> Seq<
    TrackedMemfile<'a>,
> {
    let i = place(entries, path);
    entries.update(
        i,
        TrackedMemfile {
            memfile: entries[i].memfile,
            ref_cnt: one_more(entries[i].ref_cnt) as i32,
        },
    )
}

/// The tracked memfiles after one reference less to the one with the path: the last reference
/// takes the memfile with it. A path that is not tracked changes nothing.
pub open spec fn released<'a>(entries: Seq<TrackedMemfile<'a>>, path: Seq<char>) -> Seq<
    TrackedMemfile<'a>,
> {
    let i = place(entries, path);
    if !tracks(entries, path) {
        entries
    } else if entries[i].ref_cnt <= 1 {
        entries.remove(i)
    } else {
        entries.update(
            i,
            TrackedMemfile {
                memfile: entries[i].memfile,
                ref_cnt: (entries[i].ref_cnt - 1) as i32,
            },
        )
    }
}

/// What one step of mapping a path does. A path that is tracked is not mapped again: one more
/// reference is held to the mapping that is there. Any other path is opened, measured, mapped,
/// announced to be read in order and tracked with one reference; that the kernel does not take the
/// announcement does not matter. An empty file and every failure end it, and nothing changes.
pub open spec fn mapped<'a>(
    before: Seq<TrackedMemfile<'a>>,
    path: Seq<char>,
    event: MapEvent<'a>,
    after: Seq<TrackedMemfile<'a>>,
    step: MapStep<'a>,
) -> bool {
    if tracks(before, path) {
        &&& step == MapStep::Done(before[place(before, path)].memfile)
        &&& after == referenced(before, path)
    } else {
        &&& match event {
            MapEvent::Requested => step == (MapStep::Open { options: memfile_open() }),
            MapEvent::Opened => step is Stat,
            MapEvent::OpenFailed(cause) => step matches MapStep::Failed(
                SharedMemfileError::OpenFailed { path: p, source },
            ) && p@ == path && source@ == cause@,
            MapEvent::Sized(size) => if size == 0 {
                step matches MapStep::Failed(SharedMemfileError::EmptyFile { path: p }) && p@
                    == path
            } else {
                step == (MapStep::Mmap { request: memfile_mmap(size) })
            },
            MapEvent::StatFailed(cause) => step matches MapStep::Failed(
                SharedMemfileError::StatFailed { path: p, source },
            ) && p@ == path && source@ == cause@,
            MapEvent::Mapped(data) => step == (MapStep::Advise {
                data,
                advice: Advice::Sequential,
            }),
            MapEvent::Advised { data, .. } => if data@.len() == 0 {
                step matches MapStep::Failed(SharedMemfileError::EmptyFile { path: p }) && p@
                    == path
            } else {
                step matches MapStep::Done(memfile) && memfile.wf() && memfile.path@ == path
                    && memfile@ == data@ && after == before.push(
                    TrackedMemfile { memfile, ref_cnt: 1 },
                )
            },
            MapEvent::MmapFailed(cause) => step matches MapStep::Failed(
                SharedMemfileError::MmapFailed { path: p, source },
            ) && p@ == path && source@ == cause@,
        }
        &&& !(step is Done) ==> after == before
    }
}

/// The sum of the sizes of the tracked memfiles.
pub open spec fn sum_of_sizes(entries: Seq<TrackedMemfile>) -> nat
    decreases entries.len(),
{
    if entries.len() == 0 {
        0
    } else {
        sum_of_sizes(entries.drop_last()) + entries.last().memfile.size as nat
    }
}

/// Manages memory-mapped files that can be shared across multiple VM processes.
///
/// Uses reference counting so that multiple VMs mapping the same L0 or L1
/// memfile path share the same in-memory mapping. The mapping is only
/// given up when the last reference drops.
pub struct SharedMemfileManager<'a> {
    memfiles: Vec<TrackedMemfile<'a>>,
}

impl<'a> View for SharedMemfileManager<'a> {
    type V = Seq<TrackedMemfile<'a>>;

    /// The tracked memfiles, in the order in which they were mapped.
    closed spec fn view(&self) -> Seq<TrackedMemfile<'a>> {
        self.memfiles@
    }
}

impl<'a> SharedMemfileManager<'a> {
    /// No two tracked memfiles have the same path, and none is empty.
    pub open spec fn wf(&self) -> bool {
        well_tracked(self@)
    }

    /// Creates a new shared memfile manager that tracks nothing.
    pub fn new() -> (r: Self)
        ensures
            r.wf(),
            r@.len() == 0,
    {
        SharedMemfileManager { memfiles: Vec::new() }
    }

    fn find(&self, path: &str) -> (r: Option<usize>)
        requires
            self.wf(),
        ensures
            match r {
                Some(i) => tracks(self@, path@) && i == place(self@, path@) && i < self@.len()
                    && self@[i as int].key() == path_key(path@),
                None => !tracks(self@, path@),
            },
    {
        let mut i: usize = 0;
        while i < self.memfiles.len()
            invariant
                self.wf(),
                i <= self@.len(),
                forall|k: int| 0 <= k < i ==> (#[trigger] self@[k]).key() != path_key(path@),
            decreases self@.len() - i,
        {
            if same_path(self.memfiles[i].memfile.path.as_str(), path) {
                proof {
                    lemma_place(self@, path@, i as int);
                }
                return Some(i);
            }
            i = i + 1;
        }
        None
    }

    /// Tells whether a memfile is tracked.
    pub fn is_tracked(&self, path: &str) -> (r: bool)
        requires
            self.wf(),
        ensures
            r == tracks(self@, path@),
    {
        self.find(path).is_some()
    }

    /// Returns how many references are held to a memfile.
    pub fn references(&self, path: &str) -> (r: u64)
        requires
            self.wf(),
        ensures
            r == references_to(self@, path@),
    {
        match self.find(path) {
            Some(i) => {
                let refs: i32 = self.memfiles[i].ref_cnt;
                if refs > 0 {
                    refs as u64
                } else {
                    0
                }
            },
            None => 0,
        }
    }

    /// Maps a memfile for shared access. Multiple callers mapping the same path get the same
    /// mapping, and each of them holds a reference to it.
    ///
    /// The caller starts with `MapEvent::Requested`, does what each step says and hands back what
    /// came of it, until the step is `Done` or `Failed`.
    pub fn map(&mut self, path: &str, event: MapEvent<'a>) -> (step: MapStep<'a>)
        requires
            old(self).wf(),
        ensures
            final(self).wf(),
            mapped(old(self)@, path@, event, final(self)@, step),
    {
        if let Some(i) = self.find(path) {
            let memfile = self.memfiles[i].memfile.clone();
            let refs: i32 = self.memfiles[i].ref_cnt;
            let ref_cnt: i32 = refs.wrapping_add(1);
            self.memfiles[i] = TrackedMemfile { memfile: memfile.clone(), ref_cnt };
            assert(self@ =~= referenced(old(self)@, path@));
            return MapStep::Done(memfile);
        }
        match event {
            MapEvent::Requested => MapStep::Open {
                options: OpenRequest { read: true, write: false, create: false, truncate: false },
            },
            MapEvent::Opened => MapStep::Stat,
            MapEvent::OpenFailed(cause) => MapStep::Failed(
                SharedMemfileError::OpenFailed { path: path.to_owned(), source: cause },
            ),
            MapEvent::Sized(size) => {
                if size == 0 {
                    MapStep::Failed(SharedMemfileError::EmptyFile { path: path.to_owned() })
                } else {
                    MapStep::Mmap {
                        request: MmapRequest {
                            len: size,
                            offset: 0,
                            read: true,
                            write: true,
                            sharing: Sharing::Private,
                            populate: true,
                        },
                    }
                }
            },
            MapEvent::StatFailed(cause) => MapStep::Failed(
                SharedMemfileError::StatFailed { path: path.to_owned(), source: cause },
            ),
            MapEvent::Mapped(data) => MapStep::Advise { data, advice: Advice::Sequential },
            MapEvent::Advised { data, .. } => {
                if data.len() == 0 {
                    return MapStep::Failed(
                        SharedMemfileError::EmptyFile { path: path.to_owned() },
                    );
                }
                let memfile = Arc::new(SharedMemfile::new(path, data));
                self.memfiles.push(TrackedMemfile { memfile: memfile.clone(), ref_cnt: 1 });
                MapStep::Done(memfile)
            },
            MapEvent::MmapFailed(cause) => MapStep::Failed(
                SharedMemfileError::MmapFailed { path: path.to_owned(), source: cause },
            ),
        }
    }

    /// Gives up one reference to a memfile. The memfile is no longer tracked once the last
    /// reference is given up.
    pub fn unmap(&mut self, path: &str) -> (r: Result<(), SharedMemfileError>)
        requires
            old(self).wf(),
        ensures
            final(self).wf(),
            r is Ok,
            final(self)@ == released(old(self)@, path@),
    {
        if let Some(i) = self.find(path) {
            let refs: i32 = self.memfiles[i].ref_cnt;
            if refs <= 1 {
                self.memfiles.remove(i);
            } else {
                let memfile = self.memfiles[i].memfile.clone();
                self.memfiles[i] = TrackedMemfile { memfile, ref_cnt: refs - 1 };
            }
        }
        Ok(())
    }

    /// Returns the number of tracked shared memfiles.
    pub fn count(&self) -> (r: usize)
        ensures
            r == self@.len(),
    {
        self.memfiles.len()
    }

    /// Returns the total bytes of tracked shared memfiles.
    pub fn total_bytes(&self) -> (r: u64)
        requires
            sum_of_sizes(self@) <= u64::MAX,
        ensures
            r == sum_of_sizes(self@),
    {
        let mut total: u64 = 0;
        let mut i: usize = 0;
        proof {
            assert(self@.take(0) =~= Seq::empty());
        }
        while i < self.memfiles.len()
            invariant
                i <= self@.len(),
                total == sum_of_sizes(self@.take(i as int)),
                sum_of_sizes(self@) <= u64::MAX,
            decreases self@.len() - i,
        {
            proof {
                assert(self@.take(i + 1).drop_last() =~= self@.take(i as int));
                lemma_sum_of_prefix(self@, i + 1);
            }
            total = total + self.memfiles[i].memfile.size;
            i = i + 1;
        }
        assert(self@.take(self@.len() as int) =~= self@);
        total
    }

    /// Returns the tracked memfiles, in the order in which they were mapped.
    pub fn memfiles(&self) -> (r: Vec<Arc<SharedMemfile<'a>>>)
        ensures
            r@ == self@.map_values(|entry: TrackedMemfile<'a>| entry.memfile),
    {
        let mut r: Vec<Arc<SharedMemfile<'a>>> = Vec::new();
        let mut i: usize = 0;
        while i < self.memfiles.len()
            invariant
                i <= self@.len(),
                r@.len() == i,
                forall|k: int| 0 <= k < i ==> r@[k] == (#[trigger] self@[k]).memfile,
            decreases self@.len() - i,
        {
            r.push(self.memfiles[i].memfile.clone());
            i = i + 1;
        }
        assert(r@ =~= self@.map_values(|entry: TrackedMemfile<'a>| entry.memfile));
        r
    }

    /// Closes all tracked memfiles.
    pub fn close(&mut self)
        ensures
            final(self).wf(),
            final(self)@.len() == 0,
    {
        self.memfiles.clear();
    }
}

impl<'a> Default for SharedMemfileManager<'a> {
    fn default() -> (r: Self)
        ensures
            r.wf(),
            r@.len() == 0,
    {
        Self::new()
    }
}

/// At most one tracked memfile has a given path.
proof fn lemma_place(entries: Seq<TrackedMemfile>, path: Seq<char>, i: int)
    requires
        well_tracked(entries),
        0 <= i < entries.len(),
        entries[i].key() == path_key(path),
    ensures
        tracks(entries, path),
        place(entries, path) == i,
{
    let j = place(entries, path);
    assert(0 <= j < entries.len() && entries[j].key() == path_key(path));
    if i < j {
        assert(entries[i].key() != entries[j].key());
    }
    if j < i {
        assert(entries[j].key() != entries[i].key());
    }
}

/// The first memfiles take up no more than all of them.
proof fn lemma_sum_of_prefix(entries: Seq<TrackedMemfile>, n: int)
    requires
        0 <= n <= entries.len(),
    ensures
        sum_of_sizes(entries.take(n)) <= sum_of_sizes(entries),
    decreases entries.len(),
{
    if n == entries.len() {
        assert(entries.take(n) =~= entries);
    } else {
        assert(entries.drop_last().take(n) =~= entries.take(n));
        lemma_sum_of_prefix(entries.drop_last(), n);
    }
}

/// The tracked memfile with the path.
pub open spec fn entry_of<'a>(entries: Seq<TrackedMemfile<'a>>, path: Seq<char>) -> Option<
    TrackedMemfile<'a>,
> {
    if tracks(entries, path) {
        Some(entries[place(entries, path)])
    } else {
        None
    }
}

/// The tracked memfiles after a number of references less to the one with the path.
pub open spec fn released_times<'a>(
    entries: Seq<TrackedMemfile<'a>>,
    path: Seq<char>,
    times: nat,
) -> Seq<TrackedMemfile<'a>>
    decreases times,
{
    if times == 0 {
        entries
    } else {
        released_times(released(entries, path), path, (times - 1) as nat)
    }
}

/// Mapping a path that is tracked gives the mapping that is already there and adds nothing to
/// what is tracked but a reference.
pub proof fn law_map_reuses(entries: Seq<TrackedMemfile>, path: Seq<char>)
    requires
        well_tracked(entries),
        tracks(entries, path),
    ensures
        referenced(entries, path).len() == entries.len(),
        sum_of_sizes(referenced(entries, path)) == sum_of_sizes(entries),
        entry_of(referenced(entries, path), path) matches Some(entry) && entry.memfile
            == entries[place(entries, path)].memfile && entry.ref_cnt == one_more(
            entries[place(entries, path)].ref_cnt,
        ),
{
    let i = place(entries, path);
    let after = referenced(entries, path);
    assert(0 <= i < entries.len() && entries[i].key() == path_key(path));
    lemma_same_keys_well_tracked(entries, after);
    lemma_place(after, path, i);
    lemma_sum_depends_on_sizes(entries, after);
}

/// A step of mapping a path adds the size of a newly mapped memfile to what is tracked, and nothing
/// otherwise.
pub proof fn law_mapping_adds_its_size<'a>(
    entries: Seq<TrackedMemfile<'a>>,
    path: Seq<char>,
    event: MapEvent<'a>,
    after: Seq<TrackedMemfile<'a>>,
    step: MapStep<'a>,
)
    requires
        well_tracked(entries),
        mapped(entries, path, event, after, step),
    ensures
        sum_of_sizes(after) == sum_of_sizes(entries) + match step {
            MapStep::Done(memfile) => if tracks(entries, path) {
                0
            } else {
                memfile.size as nat
            },
            _ => 0,
        },
{
    if tracks(entries, path) {
        law_map_reuses(entries, path);
    } else if step is Done {
        assert(after.drop_last() =~= entries);
    }
}

/// What can come of a step of a mapping: a mapping that was made has the length that was asked for,
/// and it is the one that the kernel is told about.
pub open spec fn map_answers<'a>(step: MapStep<'a>, event: MapEvent<'a>) -> bool {
    match step {
        MapStep::Open { .. } => event is Opened || event is OpenFailed,
        MapStep::Stat => event is Sized || event is StatFailed,
        MapStep::Mmap { request } => match event {
            MapEvent::Mapped(data) => data@.len() == request.len,
            _ => event is MmapFailed,
        },
        MapStep::Advise { data, .. } => event matches MapEvent::Advised { data: of, .. } && of
            == data,
        MapStep::Done(_) => false,
        MapStep::Failed(_) => false,
    }
}

/// What a step of a mapping starts from: what is tracked, and what came of the last step.
pub struct MapInput<'a> {
    pub before: Seq<TrackedMemfile<'a>>,
    pub event: MapEvent<'a>,
}

/// What a step of a mapping gives: what is tracked then, and the next step.
pub struct MapOutput<'a> {
    pub after: Seq<TrackedMemfile<'a>>,
    pub step: MapStep<'a>,
}

/// Where a step of a mapping has its place in a run that maps a file.
pub open spec fn map_place(step: MapStep) -> int {
    match step {
        MapStep::Open { .. } => 0,
        MapStep::Stat => 1,
        MapStep::Mmap { .. } => 2,
        MapStep::Advise { .. } => 3,
        MapStep::Done(_) => 4,
        MapStep::Failed(_) => 5,
    }
}

/// A run of mapping a path, with nothing else mapped or unmapped meanwhile.
pub open spec fn is_map_run<'a>(
    entries: Seq<TrackedMemfile<'a>>,
    path: Seq<char>,
    run: Seq<Turn<MapInput<'a>, MapOutput<'a>>>,
) -> bool {
    is_run(
        run,
        |input: MapInput<'a>| input.before == entries && input.event is Requested,
        |input: MapInput<'a>, output: MapOutput<'a>|
            mapped(input.before, path, input.event, output.after, output.step),
        |output: MapOutput<'a>, input: MapInput<'a>|
            input.before == output.after && map_answers(output.step, input.event),
    )
}

/// A path that is tracked is mapped in one turn, without a look at the file. Every run of mapping
/// another path takes its steps in the same order, until it fails: the file is opened and measured,
/// mapped privately, whole and populated, and announced to be read in order; the memfile that is
/// then there has the measured size and the mapped bytes, whether the announcement was taken or not.
/// Nothing is tracked before that.
pub proof fn law_map_order<'a>(
    entries: Seq<TrackedMemfile<'a>>,
    path: Seq<char>,
    run: Seq<Turn<MapInput<'a>, MapOutput<'a>>>,
    i: int,
)
    requires
        is_map_run(entries, path, run),
        0 <= i < run.len(),
    ensures
        tracks(entries, path) ==> i == 0 && run[0].step.step == MapStep::Done(
            entries[place(entries, path)].memfile,
        ),
        !tracks(entries, path) ==> {
            &&& run[i].step.step is Failed || map_place(run[i].step.step) == i
            &&& forall|j: int| 0 <= j < i ==> map_place((#[trigger] run[j]).step.step) == j
            &&& !(run[i].step.step is Done) ==> run[i].step.after == entries
            &&& i == 4 ==> run[4].step.step is Done
            &&& run[i].step.step matches MapStep::Done(memfile) ==> {
                &&& i == 4
                &&& run[2].event.event == MapEvent::Sized(memfile.size)
                &&& run[2].step.step == (MapStep::Mmap { request: memfile_mmap(memfile.size) })
                &&& run[3].event.event matches MapEvent::Mapped(data)
                &&& run[3].step.step == (MapStep::Advise { data, advice: Advice::Sequential })
                &&& memfile@ == data@
                &&& memfile.path@ == path
                &&& run[4].step.after == entries.push(TrackedMemfile { memfile, ref_cnt: 1 })
            }
        },
        run[i].step.step matches MapStep::Open { options } ==> options.read && !options.write
            && !options.create && !options.truncate,
        run[i].step.step matches MapStep::Mmap { request } ==> {
            &&& run[i].event.event == MapEvent::Sized(request.len)
            &&& request.len > 0
            &&& request.offset == 0
            &&& request.read
            &&& request.write
            &&& request.sharing == Sharing::Private
            &&& request.populate
        },
    decreases i,
{
    let answers = |output: MapOutput<'a>, input: MapInput<'a>|
        input.before == output.after && map_answers(output.step, input.event);
    if i > 0 {
        law_map_order(entries, path, run, i - 1);
        assert(answered(run, i, answers));
        assert(map_answers(run[i - 1].step.step, run[i].event.event));
    }
    let follows = |input: MapInput<'a>, output: MapOutput<'a>|
        mapped(input.before, path, input.event, output.after, output.step);
    assert(follows(run[i].event, run[i].step));
    if i == 4 && !tracks(entries, path) {
        law_map_order(entries, path, run, 2);
        assert(answered(run, 2, answers));
        assert(follows(run[2].event, run[2].step));
        assert(answered(run, 3, answers));
        assert(follows(run[3].event, run[3].step));
    }
}

/// Once a path is mapped, whoever maps it again gets the same mapping at once, and no more memfiles
/// are tracked than before.
pub proof fn law_mapping_is_shared<'a>(
    entries: Seq<TrackedMemfile<'a>>,
    path: Seq<char>,
    event: MapEvent<'a>,
    first: Seq<TrackedMemfile<'a>>,
    memfile: Arc<SharedMemfile<'a>>,
    again: MapEvent<'a>,
    second: Seq<TrackedMemfile<'a>>,
    step: MapStep<'a>,
)
    requires
        well_tracked(entries),
        mapped(entries, path, event, first, MapStep::Done(memfile)),
        mapped(first, path, again, second, step),
    ensures
        step == MapStep::Done(memfile),
        second.len() == first.len(),
        sum_of_sizes(second) == sum_of_sizes(first),
{
    if tracks(entries, path) {
        let i = place(entries, path);
        assert(0 <= i < entries.len() && entries[i].key() == path_key(path));
        lemma_same_keys_well_tracked(entries, first);
        lemma_place(first, path, i);
    } else {
        lemma_pushed_well_tracked(entries, path, first.last());
        lemma_place(first, path, entries.len() as int);
    }
    law_map_reuses(first, path);
}

/// A reference that was taken and then given up leaves everything as it was.
pub proof fn law_unmap_undoes_map(entries: Seq<TrackedMemfile>, path: Seq<char>)
    requires
        well_tracked(entries),
        tracks(entries, path),
        1 <= entries[place(entries, path)].ref_cnt < i32::MAX,
    ensures
        released(referenced(entries, path), path) == entries,
{
    let i = place(entries, path);
    let after = referenced(entries, path);
    assert(0 <= i < entries.len() && entries[i].key() == path_key(path));
    lemma_same_keys_well_tracked(entries, after);
    lemma_place(after, path, i);
    assert(released(after, path) =~= entries);
}

/// A mapping that was made and then given up by its only holder is no longer tracked, and the
/// others stay as they were.
pub proof fn law_unmap_undoes_first_map<'a>(
    entries: Seq<TrackedMemfile<'a>>,
    path: Seq<char>,
    memfile: Arc<SharedMemfile<'a>>,
)
    requires
        well_tracked(entries),
        !tracks(entries, path),
        memfile.wf(),
        memfile.size > 0,
        path_key(memfile.path@) == path_key(path),
    ensures
        released(entries.push(TrackedMemfile { memfile, ref_cnt: 1 }), path) == entries,
{
    let after = entries.push(TrackedMemfile { memfile, ref_cnt: 1 });
    lemma_pushed_well_tracked(entries, path, after.last());
    lemma_place(after, path, entries.len() as int);
    assert(released(after, path) =~= entries);
}

/// A memfile stays tracked until as many references are given up as are held, and no longer.
pub proof fn law_last_reference(entries: Seq<TrackedMemfile>, path: Seq<char>, times: nat)
    requires
        well_tracked(entries),
        tracks(entries, path),
        1 <= entries[place(entries, path)].ref_cnt,
    ensures
        tracks(released_times(entries, path, times), path) <==> times < entries[place(
            entries,
            path,
        )].ref_cnt,
    decreases times,
{
    let i = place(entries, path);
    assert(0 <= i < entries.len() && entries[i].key() == path_key(path));
    if times > 0 {
        let next = released(entries, path);
        if entries[i].ref_cnt == 1 {
            assert forall|k: int| 0 <= k < next.len() implies (#[trigger] next[k]).key()
                != path_key(path) by {
                let was = if k < i {
                    k
                } else {
                    k + 1
                };
                assert(next[k] == entries[was]);
                if was < i {
                    assert(entries[was].key() != entries[i].key());
                } else {
                    assert(entries[i].key() != entries[was].key());
                }
            }
            assert(!tracks(next, path));
            lemma_released_untracked(next, path, (times - 1) as nat);
        } else {
            lemma_same_keys_well_tracked(entries, next);
            lemma_place(next, path, i);
            law_last_reference(next, path, (times - 1) as nat);
        }
    }
}

/// Every step of mapping one path, and unmapping it, leaves every other path as it was.
pub proof fn law_paths_are_independent<'a>(
    entries: Seq<TrackedMemfile<'a>>,
    path: Seq<char>,
    event: MapEvent<'a>,
    after: Seq<TrackedMemfile<'a>>,
    step: MapStep<'a>,
    other: Seq<char>,
)
    requires
        well_tracked(entries),
        mapped(entries, path, event, after, step),
        path_key(path) != path_key(other),
    ensures
        entry_of(after, other) == entry_of(entries, other),
        entry_of(released(entries, path), other) == entry_of(entries, other),
{
    if tracks(entries, path) {
        let i = place(entries, path);
        assert(0 <= i < entries.len() && entries[i].key() == path_key(path));
        lemma_same_keys_well_tracked(entries, after);
        lemma_same_keys_same_place(entries, after, other, i);
        if entries[i].ref_cnt <= 1 {
            let less = released(entries, path);
            assert(less == entries.remove(i));
            lemma_removed_well_tracked(entries, i);
            if tracks(entries, other) {
                let j = place(entries, other);
                assert(0 <= j < entries.len() && entries[j].key() == path_key(other));
                let k = if j < i {
                    j
                } else {
                    j - 1
                };
                assert(less[k] == entries[j]);
                lemma_place(less, other, k);
            } else if tracks(less, other) {
                let k = place(less, other);
                assert(0 <= k < less.len() && less[k].key() == path_key(other));
                let j = if k < i {
                    k
                } else {
                    k + 1
                };
                assert(entries[j] == less[k]);
            }
        } else {
            let less = released(entries, path);
            lemma_same_keys_well_tracked(entries, less);
            lemma_same_keys_same_place(entries, less, other, i);
        }
    } else if step is Done {
        lemma_pushed_well_tracked(entries, path, after.last());
        if tracks(entries, other) {
            let j = place(entries, other);
            assert(0 <= j < entries.len() && entries[j].key() == path_key(other));
            assert(after[j] == entries[j]);
            lemma_place(after, other, j);
        } else if tracks(after, other) {
            let j = place(after, other);
            assert(0 <= j < after.len() && after[j].key() == path_key(other));
            assert(after[j] == entries[j]);
        }
    }
}

proof fn lemma_pushed_well_tracked<'a>(
    entries: Seq<TrackedMemfile<'a>>,
    path: Seq<char>,
    entry: TrackedMemfile<'a>,
)
    requires
        well_tracked(entries),
        !tracks(entries, path),
        entry.key() == path_key(path),
        entry.memfile.wf(),
        entry.memfile.size > 0,
    ensures
        well_tracked(entries.push(entry)),
{
    let after = entries.push(entry);
    assert forall|i: int, j: int| 0 <= i < j < after.len() implies (#[trigger] after[i]).key() != (
    #[trigger] after[j]).key() by {
        assert(after[i] == entries[i]);
        if j < entries.len() {
            assert(after[j] == entries[j]);
        }
    }
    assert forall|i: int| 0 <= i < after.len() implies (#[trigger] after[i]).memfile.wf()
        && after[i].memfile.size > 0 by {
        if i < entries.len() {
            assert(after[i] == entries[i]);
        }
    }
}

proof fn lemma_released_untracked(entries: Seq<TrackedMemfile>, path: Seq<char>, times: nat)
    requires
        !tracks(entries, path),
    ensures
        released_times(entries, path, times) == entries,
    decreases times,
{
    if times > 0 {
        lemma_released_untracked(entries, path, (times - 1) as nat);
    }
}

proof fn lemma_same_keys_well_tracked(entries: Seq<TrackedMemfile>, after: Seq<TrackedMemfile>)
    requires
        well_tracked(entries),
        after.len() == entries.len(),
        forall|k: int| 0 <= k < after.len() ==> (#[trigger] after[k]).memfile == entries[k].memfile,
    ensures
        well_tracked(after),
{
    assert forall|i: int, j: int| 0 <= i < j < after.len() implies (#[trigger] after[i]).key() != (
    #[trigger] after[j]).key() by {
        assert(entries[i].key() != entries[j].key());
    }
    assert forall|i: int| 0 <= i < after.len() implies (#[trigger] after[i]).memfile.wf()
        && after[i].memfile.size > 0 by {
        assert(entries[i].memfile.wf() && entries[i].memfile.size > 0);
    }
}

proof fn lemma_same_keys_same_place(
    entries: Seq<TrackedMemfile>,
    after: Seq<TrackedMemfile>,
    other: Seq<char>,
    i: int,
)
    requires
        well_tracked(entries),
        well_tracked(after),
        0 <= i < entries.len(),
        entries[i].key() != path_key(other),
        after == entries.update(i, after[i]),
        after[i].memfile == entries[i].memfile,
    ensures
        entry_of(after, other) == entry_of(entries, other),
{
    if tracks(entries, other) {
        let j = place(entries, other);
        assert(0 <= j < entries.len() && entries[j].key() == path_key(other));
        assert(after[j] == entries[j]);
        lemma_place(after, other, j);
    } else if tracks(after, other) {
        let j = place(after, other);
        assert(0 <= j < after.len() && after[j].key() == path_key(other));
        assert(after[j] == entries[j]);
    }
}

proof fn lemma_removed_well_tracked(entries: Seq<TrackedMemfile>, i: int)
    requires
        well_tracked(entries),
        0 <= i < entries.len(),
    ensures
        well_tracked(entries.remove(i)),
{
    let after = entries.remove(i);
    assert forall|a: int, b: int| 0 <= a < b < after.len() implies (#[trigger] after[a]).key() != (
    #[trigger] after[b]).key() by {
        let x = if a < i {
            a
        } else {
            a + 1
        };
        let y = if b < i {
            b
        } else {
            b + 1
        };
        assert(after[a] == entries[x] && after[b] == entries[y]);
        assert(entries[x].key() != entries[y].key());
    }
    assert forall|a: int| 0 <= a < after.len() implies (#[trigger] after[a]).memfile.wf()
        && after[a].memfile.size > 0 by {
        let x = if a < i {
            a
        } else {
            a + 1
        };
        assert(after[a] == entries[x]);
    }
}

proof fn lemma_sum_depends_on_sizes(entries: Seq<TrackedMemfile>, after: Seq<TrackedMemfile>)
    requires
        after.len() == entries.len(),
        forall|k: int| 0 <= k < after.len() ==> (#[trigger] after[k]).memfile == entries[k].memfile,
    ensures
        sum_of_sizes(after) == sum_of_sizes(entries),
    decreases entries.len(),
{
    if entries.len() > 0 {
        lemma_sum_depends_on_sizes(entries.drop_last(), after.drop_last());
    }
}

/// Paths are tracked by what identifies them, and not by how they are spelled.
pub proof fn law_tracked_by_path(entries: Seq<TrackedMemfile>, path: Seq<char>, i: int)
    requires
        well_tracked(entries),
        0 <= i < entries.len(),
    ensures
        path_key(entries[i].memfile.path@) == path_key(path) <==> tracks(entries, path) && place(
            entries,
            path,
        ) == i,
{
    if tracks(entries, path) {
        let j = place(entries, path);
        assert(0 <= j < entries.len() && entries[j].key() == path_key(path));
        if entries[i].key() == path_key(path) {
            lemma_place(entries, path, i);
        }
    } else {
        assert(entries[i].key() != path_key(path));
    }
}

/// Each mapping of a path that is there counts one reference more, and each unmapping one less;
/// the memfile and all other entries stay as they are, until the last reference takes the entry with
/// it. A count wraps around after the largest one.
pub proof fn law_reference_counts(entries: Seq<TrackedMemfile>, path: Seq<char>, i: int)
    requires
        well_tracked(entries),
        0 <= i < entries.len(),
        path_key(entries[i].memfile.path@) == path_key(path),
    ensures
        ({
            let more = referenced(entries, path);
            &&& more.len() == entries.len()
            &&& more[i].memfile == entries[i].memfile
            &&& entries[i].ref_cnt < i32::MAX ==> more[i].ref_cnt == entries[i].ref_cnt + 1
            &&& entries[i].ref_cnt == i32::MAX ==> more[i].ref_cnt == i32::MIN
            &&& forall|k: int| 0 <= k < entries.len() && k != i ==> #[trigger] more[k] == entries[k]
        }),
        ({
            let less = released(entries, path);
            if entries[i].ref_cnt > 1 {
                &&& less.len() == entries.len()
                &&& less[i].memfile == entries[i].memfile
                &&& less[i].ref_cnt == entries[i].ref_cnt - 1
                &&& forall|k: int|
                    0 <= k < entries.len() && k != i ==> #[trigger] less[k] == entries[k]
            } else {
                &&& less.len() == entries.len() - 1
                &&& forall|k: int| 0 <= k < i ==> #[trigger] less[k] == entries[k]
                &&& forall|k: int| i <= k < less.len() ==> #[trigger] less[k] == entries[k + 1]
            }
        }),
        entries[i].ref_cnt >= 0 ==> references_to(entries, path) == entries[i].ref_cnt,
        entries[i].ref_cnt < 0 ==> references_to(entries, path) == 0,
{
    law_tracked_by_path(entries, path, i);
}

/// No references are held to a path that is not there, and giving one up changes nothing.
pub proof fn law_no_references(entries: Seq<TrackedMemfile>, path: Seq<char>)
    requires
        forall|i: int|
            0 <= i < entries.len() ==> path_key((#[trigger] entries[i]).memfile.path@) != path_key(
                path,
            ),
    ensures
        !tracks(entries, path),
        references_to(entries, path) == 0,
        released(entries, path) == entries,
{
    if tracks(entries, path) {
        let i = place(entries, path);
        assert(0 <= i < entries.len() && entries[i].key() == path_key(path));
    }
}

/// The sum of the sizes is nothing for no memfile, and each further memfile adds its size.
pub proof fn law_sizes_add_up<'a>(entries: Seq<TrackedMemfile<'a>>, entry: TrackedMemfile<'a>)
    ensures
        sum_of_sizes(Seq::<TrackedMemfile<'a>>::empty()) == 0,
        sum_of_sizes(entries.push(entry)) == sum_of_sizes(entries) + entry.memfile.size,
{
    assert(entries.push(entry).drop_last() =~= entries);
}

/// A mapping fails if the file could not be opened, measured or mapped, or is empty, and not
/// otherwise; the error names the path and, if there is one, the cause. Nothing is tracked then.
pub proof fn law_map_failures<'a>(
    entries: Seq<TrackedMemfile<'a>>,
    path: Seq<char>,
    event: MapEvent<'a>,
    after: Seq<TrackedMemfile<'a>>,
    step: MapStep<'a>,
)
    requires
        mapped(entries, path, event, after, step),
        forall|i: int|
            0 <= i < entries.len() ==> path_key((#[trigger] entries[i]).memfile.path@) != path_key(
                path,
            ),
    ensures
        step is Failed <==> match event {
            MapEvent::OpenFailed(_) => true,
            MapEvent::StatFailed(_) => true,
            MapEvent::MmapFailed(_) => true,
            MapEvent::Sized(size) => size == 0,
            MapEvent::Advised { data, .. } => data@.len() == 0,
            _ => false,
        },
        step is Failed ==> after == entries,
        step matches MapStep::Failed(error) ==> match error {
            SharedMemfileError::OpenFailed { path: p, source } => p@ == path && (event
                matches MapEvent::OpenFailed(cause) && cause@ == source@),
            SharedMemfileError::StatFailed { path: p, source } => p@ == path && (event
                matches MapEvent::StatFailed(cause) && cause@ == source@),
            SharedMemfileError::MmapFailed { path: p, source } => p@ == path && (event
                matches MapEvent::MmapFailed(cause) && cause@ == source@),
            SharedMemfileError::EmptyFile { path: p } => p@ == path && (event is Sized || event
                is Advised),
            _ => false,
        },
{
    law_no_references(entries, path);
}

/// The text of an error ends with its cause, and before that with the path, as far as it has them;
/// what else stands in it depends on the kind of the error alone.
pub proof fn law_memfile_error_text(error: SharedMemfileError, other: SharedMemfileError)
    ensures
        match (error, other) {
            (
                SharedMemfileError::MunmapFailed(cause),
                SharedMemfileError::MunmapFailed(b),
            ) => ends_with(error.text(), cause@)
                && before_end(error.text(), cause@) == before_end(other.text(), b@),
            (
                SharedMemfileError::NotFound(cause),
                SharedMemfileError::NotFound(b),
            ) => ends_with(error.text(), cause@)
                && before_end(error.text(), cause@) == before_end(other.text(), b@),
            (
                SharedMemfileError::OpenFailed { path, source },
                SharedMemfileError::OpenFailed { path: p, source: s },
            ) => {
                let head = before_end(error.text(), source@);
                let other_head = before_end(other.text(), s@);
                &&& ends_with(error.text(), source@)
                &&& ends_with(head, path@ + ": "@)
                &&& before_end(head, path@ + ": "@) == before_end(other_head, p@ + ": "@)
            },
            (
                SharedMemfileError::StatFailed { path, source },
                SharedMemfileError::StatFailed { path: p, source: s },
            ) => {
                let head = before_end(error.text(), source@);
                let other_head = before_end(other.text(), s@);
                &&& ends_with(error.text(), source@)
                &&& ends_with(head, path@ + ": "@)
                &&& before_end(head, path@ + ": "@) == before_end(other_head, p@ + ": "@)
            },
            (
                SharedMemfileError::MmapFailed { path, source },
                SharedMemfileError::MmapFailed { path: p, source: s },
            ) => {
                let head = before_end(error.text(), source@);
                let other_head = before_end(other.text(), s@);
                &&& ends_with(error.text(), source@)
                &&& ends_with(head, path@ + ": "@)
                &&& before_end(head, path@ + ": "@) == before_end(other_head, p@ + ": "@)
            },
            (SharedMemfileError::EmptyFile { path }, SharedMemfileError::EmptyFile { path: p }) => {
                &&& ends_with(error.text(), path@ + " is empty"@)
                &&& before_end(error.text(), path@ + " is empty"@) == before_end(
                    other.text(),
                    p@ + " is empty"@,
                )
            },
            _ => true,
        },
{
    lemma_memfile_error_text(error);
    lemma_memfile_error_text(other);
}

proof fn lemma_memfile_error_text(error: SharedMemfileError)
    ensures
        match error {
            SharedMemfileError::OpenFailed { path, source } => {
                let head = before_end(error.text(), source@);
                &&& ends_with(error.text(), source@)
                &&& ends_with(head, path@ + ": "@)
                &&& before_end(head, path@ + ": "@) == "Failed to open memfile "@
            },
            SharedMemfileError::StatFailed { path, source } => {
                let head = before_end(error.text(), source@);
                &&& ends_with(error.text(), source@)
                &&& ends_with(head, path@ + ": "@)
                &&& before_end(head, path@ + ": "@) == "Failed to stat memfile "@
            },
            SharedMemfileError::MmapFailed { path, source } => {
                let head = before_end(error.text(), source@);
                &&& ends_with(error.text(), source@)
                &&& ends_with(head, path@ + ": "@)
                &&& before_end(head, path@ + ": "@) == "Failed to mmap memfile "@
            },
            SharedMemfileError::EmptyFile { path } => {
                &&& ends_with(error.text(), path@ + " is empty"@)
                &&& before_end(error.text(), path@ + " is empty"@) == "Memfile "@
            },
            SharedMemfileError::MunmapFailed(cause) => {
                &&& ends_with(error.text(), cause@)
                &&& before_end(error.text(), cause@) == "Failed to munmap: "@
            },
            SharedMemfileError::NotFound(cause) => {
                &&& ends_with(error.text(), cause@)
                &&& before_end(error.text(), cause@) == "Memfile not found: "@
            },
        },
{
    match error {
        SharedMemfileError::OpenFailed { path, source } => {
            let lead = "Failed to open memfile "@;
            lemma_before_end(lead + path@ + ": "@, source@);
            assert(lead + path@ + ": "@ =~= lead + (path@ + ": "@));
            lemma_before_end(lead, path@ + ": "@);
        },
        SharedMemfileError::StatFailed { path, source } => {
            let lead = "Failed to stat memfile "@;
            lemma_before_end(lead + path@ + ": "@, source@);
            assert(lead + path@ + ": "@ =~= lead + (path@ + ": "@));
            lemma_before_end(lead, path@ + ": "@);
        },
        SharedMemfileError::MmapFailed { path, source } => {
            let lead = "Failed to mmap memfile "@;
            lemma_before_end(lead + path@ + ": "@, source@);
            assert(lead + path@ + ": "@ =~= lead + (path@ + ": "@));
            lemma_before_end(lead, path@ + ": "@);
        },
        SharedMemfileError::EmptyFile { path } => {
            assert("Memfile "@ + path@ + " is empty"@ =~= "Memfile "@ + (path@ + " is empty"@));
            lemma_before_end("Memfile "@, path@ + " is empty"@);
        },
        SharedMemfileError::MunmapFailed(cause) => {
            lemma_before_end("Failed to munmap: "@, cause@);
        },
        SharedMemfileError::NotFound(cause) => {
            lemma_before_end("Memfile not found: "@, cause@);
        },
    }
}

} // verus!
