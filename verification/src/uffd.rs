//! userfaultfd demand-paging for fast snapshot resume.
//!
//! When resuming from a layered snapshot, guest memory is not fully loaded upfront. Pages are
//! registered with userfaultfd, and page faults are resolved on demand: a page that the overlay
//! has is copied, any other is filled with zeros.
//!
//! System calls are the caller's work. The functions here say what is to be asked of the kernel
//! and take what came of it.

use crate::cow_overlay::{valid_page, CoWOverlay};
use crate::runs::{answered, is_run, Turn};
use crate::shared_memfile::PAGE_SIZE;
use crate::text::{before_end, concat, ends_with, lemma_before_end};
use vstd::prelude::*;

verus! {

/// Errors related to userfaultfd operations
#[derive(Debug)]
pub enum UffdError {
    CreateFailed(String),
    RegisterFailed(String),
    PageFaultFailed(String),
    SocketError(String),
    IoError(String),
    InvalidMessage(String),
    NotInitialized,
}

impl UffdError {
    /// The text of the error.
    pub open spec fn text(&self) -> Seq<char> {
        match self {
            UffdError::CreateFailed(cause) => "Failed to create userfaultfd: "@ + cause@,
            UffdError::RegisterFailed(cause) => "Failed to register memory region: "@ + cause@,
            UffdError::PageFaultFailed(cause) => "Failed to resolve page fault: "@ + cause@,
            UffdError::SocketError(cause) => "Socket error: "@ + cause@,
            UffdError::IoError(cause) => "IO error: "@ + cause@,
            UffdError::InvalidMessage(cause) => "Invalid message: "@ + cause@,
            UffdError::NotInitialized => "uffd not initialized"@,
        }
    }

    /// Writes the error out.
    pub fn to_string(&self) -> (r: String)
        ensures
            r@ == self.text(),
    {
        match self {
            UffdError::CreateFailed(cause) => concat(
                "Failed to create userfaultfd: ",
                cause.as_str(),
            ),
            UffdError::RegisterFailed(cause) => concat(
                "Failed to register memory region: ",
                cause.as_str(),
            ),
            UffdError::PageFaultFailed(cause) => concat(
                "Failed to resolve page fault: ",
                cause.as_str(),
            ),
            UffdError::SocketError(cause) => concat("Socket error: ", cause.as_str()),
            UffdError::IoError(cause) => concat("IO error: ", cause.as_str()),
            UffdError::InvalidMessage(cause) => concat("Invalid message: ", cause.as_str()),
            UffdError::NotInitialized => "uffd not initialized".to_owned(),
        }
    }
}

// userfaultfd constants
pub const UFFD_API: u64 = 0xAA;

pub const UFFD_EVENT_PAGEFAULT: u64 = 18446744073709551612;  // 0xFFFFFFFFFFFFFFFC

pub const UFFD_EVENT_REMOVE: u64 = 18446744073709551611;  // 0xFFFFFFFFFFFFFFFB

pub const UFFDIO_REGISTER_MODE_MISSING: u64 = 1;

pub const UFFDIO_ZEROPAGE_MODE_DONTWAKE: u64 = 1;

// userfaultfd ioctls
pub const UFFDIO: u64 = 0xAA;

pub const UFFDIO_API: u64 = 0x03;

pub const UFFDIO_REGISTER: u64 = 0x00;

pub const UFFDIO_COPY: u64 = 0x03;

pub const UFFDIO_ZEROPAGE: u64 = 0x04;

// ioctl encoding
pub const IOC_NRBITS: u64 = 8;

pub const IOC_TYPEBITS: u64 = 8;

pub const IOC_SIZEBITS: u64 = 14;

pub const IOC_NRSHIFT: u64 = 0;

pub const IOC_TYPESHIFT: u64 = IOC_NRSHIFT + IOC_NRBITS;

pub const IOC_SIZESHIFT: u64 = IOC_TYPESHIFT + IOC_TYPEBITS;

pub const IOC_DIRSHIFT: u64 = IOC_SIZESHIFT + IOC_SIZEBITS;

pub const IOC_WRITE: u64 = 1;

/// How long one poll waits, in milliseconds
pub const POLL_TIMEOUT_MS: i32 = 100;

/// The request number of a write ioctl: number, type, size and direction side by side, from the
/// least significant bit on.
pub open spec fn iow_number(type_: u64, nr: u64, size: u64) -> int {
    nr + type_ * 0x100 + size * 0x1_0000 + 0x4000_0000
}

/// Whether type, number and size of an ioctl fit their fields.
pub open spec fn ioctl_fields_fit(type_: u64, nr: u64, size: u64) -> bool {
    type_ < 0x100 && nr < 0x100 && size < 0x4000
}

/// Encodes the request number of a write ioctl.
pub fn iow(type_: u64, nr: u64, size: u64) -> (r: u64)
    ensures
        r == (1u64 << 30) | (type_ << 8) | (nr << 0) | (size << 16),
        ioctl_fields_fit(type_, nr, size) ==> r == iow_number(type_, nr, size),
{
    proof {
        if ioctl_fields_fit(type_, nr, size) {
            assert((1u64 << 30) | (type_ << 8) | (nr << 0) | (size << 16) == nr + type_ * 0x100
                + size * 0x1_0000 + 0x4000_0000) by (bit_vector)
                requires
                    type_ < 0x100,
                    nr < 0x100,
                    size < 0x4000,
            ;
        }
    }
    (IOC_WRITE << IOC_DIRSHIFT) | (type_ << IOC_TYPESHIFT) | (nr << IOC_NRSHIFT) | (size
        << IOC_SIZESHIFT)
}

/// Two ioctls whose fields fit have the same request number only if all their fields agree.
pub proof fn law_iow_injective(type_: u64, nr: u64, size: u64, type2: u64, nr2: u64, size2: u64)
    requires
        ioctl_fields_fit(type_, nr, size),
        ioctl_fields_fit(type2, nr2, size2),
        iow_number(type_, nr, size) == iow_number(type2, nr2, size2),
    ensures
        type_ == type2,
        nr == nr2,
        size == size2,
{
}

/// Size of `UffdioApi` in bytes
pub const UFFDIO_API_SIZE: u64 = 24;

/// Size of `UffdioRegister` in bytes
pub const UFFDIO_REGISTER_SIZE: u64 = 32;

/// Size of `UffdioCopy` in bytes
pub const UFFDIO_COPY_SIZE: u64 = 40;

/// Size of `UffdioZeropage` in bytes
pub const UFFDIO_ZEROPAGE_SIZE: u64 = 32;

/// A message from userfaultfd
#[derive(Debug, Clone, Copy)]
pub struct UffdMsg {
    pub event: u64,
    pub flags: u64,
    pub address: u64,
    pub ptid: u32,
}

/// What userfaultfd is told to copy
#[derive(Debug, Clone, Copy)]
pub struct UffdioCopy<'o> {
    pub dst: u64,
    pub src: &'o [u8],
    pub len: u64,
    pub mode: u64,
    pub copy: i64,
}

/// What userfaultfd is told to fill with zeros
#[derive(Debug, Clone, Copy)]
pub struct UffdioZeropage {
    pub start: u64,
    pub len: u64,
    pub mode: u64,
    pub zeropage: i64,
}

/// What userfaultfd is told to watch
#[derive(Debug, Clone, Copy)]
pub struct UffdioRegister {
    pub start: u64,
    pub len: u64,
    pub mode: u64,
    pub ioctls: u64,
}

/// The handshake with userfaultfd
#[derive(Debug, Clone, Copy)]
pub struct UffdioApi {
    pub api: u64,
    pub features: u64,
    pub ioctls: u64,
}

/// Memory region registered with userfaultfd
#[derive(Debug, Clone, Copy)]
pub struct UffdRegion {
    /// Start address of the region
    pub start: u64,
    /// Size of the region in bytes
    pub size: u64,
}

/// Statistics for uffd page fault handling
#[derive(Debug, Clone, Copy)]
pub struct UffdStats {
    pub page_faults: u64,
    pub pages_served: u64,
    pub zero_pages: u64,
    pub remove_events: u64,
}

impl Default for UffdStats {
    fn default() -> (r: Self)
        ensures
            r == (UffdStats { page_faults: 0, pages_served: 0, zero_pages: 0, remove_events: 0 }),
    {
        UffdStats { page_faults: 0, pages_served: 0, zero_pages: 0, remove_events: 0 }
    }
}

/// Where the page fault handling stands: what was asked for last.
#[derive(Debug, Clone, Copy)]
pub enum FaultPhase {
    /// Not handling page faults
    Stopped,
    /// About to look whether to go on
    Checking,
    /// Waiting for an event
    Polling,
    /// Reading an event
    Reading,
    /// Copying a page
    Copying,
    /// Filling a page with zeros
    Zeroing,
}

/// What came of the last action of page fault handling.
pub enum UffdEvent {
    /// Nothing was to be done.
    Tick,
    /// The poll returned; whether a signal interrupted it.
    Polled { ret: i32, interrupted: bool },
    /// The read returned, with the message if it is positive; whether nothing was there to read.
    ReadDone { n: i64, would_block: bool, msg: UffdMsg },
    /// The copy ioctl returned.
    CopyDone { ret: i32 },
    /// The zero page ioctl returned.
    ZeropageDone { ret: i32 },
}

/// The next action of page fault handling.
pub enum UffdAction<'o> {
    /// Go on with `UffdEvent::Tick`.
    CheckRunning,
    /// Poll the descriptor for an event.
    Poll { timeout_ms: i32 },
    /// Read one message.
    Read,
    /// Issue the copy ioctl.
    Copy { request: u64, copy: UffdioCopy<'o> },
    /// Issue the zero page ioctl.
    Zeropage { request: u64, zero: UffdioZeropage },
    /// Handle no more page faults.
    Stop,
}

/// The offset of the page that holds an address.
pub open spec fn page_start(address: u64) -> int {
    address - address % PAGE_SIZE
}

/// An event answers what was asked for last.
pub open spec fn answers(phase: FaultPhase, event: UffdEvent) -> bool {
    match event {
        UffdEvent::Tick => phase is Checking,
        UffdEvent::Polled { .. } => phase is Polling,
        UffdEvent::ReadDone { .. } => phase is Reading,
        UffdEvent::CopyDone { .. } => phase is Copying,
        UffdEvent::ZeropageDone { .. } => phase is Zeroing,
    }
}

/// The statistics after an event.
pub open spec fn stats_after(stats: UffdStats, event: UffdEvent) -> UffdStats {
    match event {
        UffdEvent::ReadDone { n, would_block, msg } => if n <= 0 {
            stats
        } else if msg.event == UFFD_EVENT_PAGEFAULT {
            UffdStats { page_faults: (stats.page_faults + 1) as u64, ..stats }
        } else if msg.event == UFFD_EVENT_REMOVE {
            UffdStats { remove_events: (stats.remove_events + 1) as u64, ..stats }
        } else {
            stats
        },
        UffdEvent::CopyDone { ret } => if ret < 0 {
            stats
        } else {
            UffdStats { pages_served: (stats.pages_served + 1) as u64, ..stats }
        },
        UffdEvent::ZeropageDone { ret } => if ret < 0 {
            stats
        } else {
            UffdStats { zero_pages: (stats.zero_pages + 1) as u64, ..stats }
        },
        _ => stats,
    }
}

/// The phase after an event.
pub open spec fn phase_after(
    running: bool,
    memory_size: nat,
    event: UffdEvent,
) -> FaultPhase {
    match event {
        UffdEvent::Tick => if running {
            FaultPhase::Polling
        } else {
            FaultPhase::Stopped
        },
        UffdEvent::Polled { ret, interrupted } => if ret < 0 && !interrupted {
            FaultPhase::Stopped
        } else if ret <= 0 {
            FaultPhase::Checking
        } else {
            FaultPhase::Reading
        },
        UffdEvent::ReadDone { n, would_block, msg } => if n < 0 && !would_block {
            FaultPhase::Stopped
        } else if n <= 0 || msg.event != UFFD_EVENT_PAGEFAULT {
            FaultPhase::Checking
        } else if valid_page(page_start(msg.address), memory_size as int) {
            FaultPhase::Copying
        } else {
            FaultPhase::Zeroing
        },
        UffdEvent::CopyDone { .. } => FaultPhase::Checking,
        UffdEvent::ZeropageDone { .. } => FaultPhase::Checking,
    }
}

/// The address of a page fault that an event reports.
pub open spec fn fault_address(event: UffdEvent) -> u64 {
    match event {
        UffdEvent::ReadDone { msg, .. } => msg.address,
        _ => 0,
    }
}

/// The action that a phase stands for. A page fault is resolved from the memory as the instance
/// sees it: the page that holds the faulting address is copied there, or filled with zeros where
/// the memory has no such page.
pub open spec fn action_for(
    phase: FaultPhase,
    memory: Seq<u8>,
    address: u64,
    action: UffdAction,
) -> bool {
    match phase {
        FaultPhase::Stopped => action is Stop,
        FaultPhase::Checking => action is CheckRunning,
        FaultPhase::Polling => action matches UffdAction::Poll { timeout_ms } && timeout_ms
            == POLL_TIMEOUT_MS,
        FaultPhase::Reading => action is Read,
        FaultPhase::Copying => {
            &&& action matches UffdAction::Copy { request, copy }
            &&& request == iow_number(UFFDIO, UFFDIO_COPY, UFFDIO_COPY_SIZE)
            &&& copy.dst == address
            &&& copy.src@ == memory.subrange(
                page_start(address),
                page_start(address) + PAGE_SIZE,
            )
            &&& copy.len == PAGE_SIZE
            &&& copy.mode == 0
            &&& copy.copy == 0
        },
        FaultPhase::Zeroing => {
            &&& action matches UffdAction::Zeropage { request, zero }
            &&& request == iow_number(UFFDIO, UFFDIO_ZEROPAGE, UFFDIO_ZEROPAGE_SIZE)
            &&& zero.start == page_start(address)
            &&& zero.len == PAGE_SIZE
            &&& zero.mode == UFFDIO_ZEROPAGE_MODE_DONTWAKE
            &&& zero.zeropage == 0
        },
    }
}

/// What came of the last step of creating a handler.
pub enum CreateEvent {
    /// A caller asks for the handler.
    Requested,
    /// The userfaultfd system call returned; the cause if it failed.
    SyscallReturned { value: i64, cause: String },
    /// The handshake ioctl returned.
    ApiReturned { fd: i32, ret: i32 },
    /// The descriptor was closed after a failed handshake, for this cause.
    Closed { cause: String },
}

/// The next step of creating a handler.
pub enum CreateStep {
    /// Make the userfaultfd system call.
    Syscall { close_on_exec: bool, non_blocking: bool },
    /// Issue the handshake ioctl.
    EnableApi { fd: i32, request: u64, api: UffdioApi },
    /// Close the descriptor.
    Close { fd: i32 },
    /// The handler is there.
    Ready(Userfaultfd),
    /// The handler could not be created.
    Failed(UffdError),
}

/// The userfaultfd handler for demand-paging during snapshot resume.
#[derive(Debug)]
pub struct Userfaultfd {
    /// The uffd file descriptor
    uffd: i32,
    /// Memory regions registered with uffd
    regions: Vec<UffdRegion>,
    /// Running flag
    running: bool,
    /// Statistics
    stats: UffdStats,
    /// Where the page fault handling stands
    phase: FaultPhase,
}

/// What one step of creating a handler does: the system call is made, then the handshake; after a
/// failed handshake the descriptor is closed.
pub open spec fn creates_handler(event: CreateEvent, step: CreateStep) -> bool {
    match event {
        CreateEvent::Requested => step == (CreateStep::Syscall {
            close_on_exec: true,
            non_blocking: true,
        }),
        CreateEvent::SyscallReturned { value, cause } => if value < 0 {
            step matches CreateStep::Failed(UffdError::CreateFailed(c)) && c@ == cause@
        } else {
            &&& step matches CreateStep::EnableApi { fd, request, api }
            &&& fd == value as i32
            &&& request == iow_number(UFFDIO, UFFDIO_API, UFFDIO_API_SIZE)
            &&& api == (UffdioApi { api: UFFD_API, features: 0, ioctls: 0 })
        },
        CreateEvent::ApiReturned { fd, ret } => if ret < 0 {
            step == (CreateStep::Close { fd })
        } else {
            step matches CreateStep::Ready(handler) && handler.is_new(fd)
        },
        CreateEvent::Closed { cause } => step matches CreateStep::Failed(
            UffdError::CreateFailed(c),
        ) && c@ == cause@,
    }
}

impl Userfaultfd {
    /// The file descriptor.
    pub closed spec fn spec_fd(&self) -> i32 {
        self.uffd
    }

    /// The registered memory regions, in the order of their registration.
    pub closed spec fn spec_regions(&self) -> Seq<UffdRegion> {
        self.regions@
    }

    /// Whether page faults are to be handled.
    pub closed spec fn spec_running(&self) -> bool {
        self.running
    }

    /// The statistics.
    pub closed spec fn spec_stats(&self) -> UffdStats {
        self.stats
    }

    /// Where the page fault handling stands.
    pub closed spec fn spec_phase(&self) -> FaultPhase {
        self.phase
    }

    /// Each page fault is resolved at most once: with a page or with zeros. One that is being
    /// resolved is not counted as resolved yet.
    pub open spec fn wf(&self) -> bool {
        self.spec_stats().pages_served + self.spec_stats().zero_pages + (if self.spec_phase()
            is Copying || self.spec_phase() is Zeroing {
            1int
        } else {
            0
        }) <= self.spec_stats().page_faults
    }

    /// There is room to count one more event.
    pub open spec fn can_count(&self) -> bool {
        self.spec_stats().page_faults < u64::MAX && self.spec_stats().remove_events < u64::MAX
    }

    /// Creates a handler for a descriptor.
    fn with_fd(uffd: i32) -> (r: Self)
        ensures
            r.is_new(uffd),
    {
        Userfaultfd {
            uffd,
            regions: Vec::new(),
            running: false,
            stats: UffdStats::default(),
            phase: FaultPhase::Stopped,
        }
    }

    /// A handler for the descriptor that watches nothing yet, is not running and has counted
    /// nothing.
    pub open spec fn is_new(&self, fd: i32) -> bool {
        &&& self.wf()
        &&& self.spec_fd() == fd
        &&& self.spec_regions().len() == 0
        &&& !self.spec_running()
        &&& self.spec_phase() is Stopped
        &&& self.spec_stats() == (UffdStats {
            page_faults: 0,
            pages_served: 0,
            zero_pages: 0,
            remove_events: 0,
        })
    }

    /// Creates a new userfaultfd handler: makes the system call, then the handshake.
    ///
    /// The caller starts with `CreateEvent::Requested`, does what each step says and hands back
    /// what came of it, until the step is `Ready` or `Failed`.
    pub fn new(event: CreateEvent) -> (step: CreateStep)
        ensures
            creates_handler(event, step),
    {
        match event {
            CreateEvent::Requested => CreateStep::Syscall {
                close_on_exec: true,
                non_blocking: true,
            },
            CreateEvent::SyscallReturned { value, cause } => {
                if value < 0 {
                    return CreateStep::Failed(UffdError::CreateFailed(cause));
                }
                let fd: i32 = #[verifier::truncate]
                (value as i32);
                CreateStep::EnableApi {
                    fd,
                    request: iow(UFFDIO, UFFDIO_API, UFFDIO_API_SIZE),
                    api: UffdioApi { api: UFFD_API, features: 0, ioctls: 0 },
                }
            },
            CreateEvent::ApiReturned { fd, ret } => {
                if ret < 0 {
                    CreateStep::Close { fd }
                } else {
                    CreateStep::Ready(Userfaultfd::with_fd(fd))
                }
            },
            CreateEvent::Closed { cause } => CreateStep::Failed(UffdError::CreateFailed(cause)),
        }
    }

    /// Returns the uffd file descriptor.
    pub fn fd(&self) -> (r: i32)
        ensures
            r == self.spec_fd(),
    {
        self.uffd
    }

    /// What is to be asked of the kernel to watch a memory region for missing pages.
    pub fn register_request(&self, start: u64, size: u64) -> (r: (u64, UffdioRegister))
        ensures
            r.0 == iow_number(UFFDIO, UFFDIO_REGISTER, UFFDIO_REGISTER_SIZE),
            r.0 == 0x4020_AA00,
            r.1.mode == 1,
            r.1 == (UffdioRegister {
                start,
                len: size,
                mode: UFFDIO_REGISTER_MODE_MISSING,
                ioctls: 0,
            }),
    {
        (
            iow(UFFDIO, UFFDIO_REGISTER, UFFDIO_REGISTER_SIZE),
            UffdioRegister { start, len: size, mode: UFFDIO_REGISTER_MODE_MISSING, ioctls: 0 },
        )
    }

    /// Registers a memory region, given what the register ioctl returned and, if it failed, the
    /// cause.
    pub fn register_region(&mut self, start: u64, size: u64, ret: i32, cause: String) -> (r: Result<
        (),
        UffdError,
    >)
        ensures
            final(self).spec_fd() == old(self).spec_fd(),
            final(self).spec_running() == old(self).spec_running(),
            final(self).spec_stats() == old(self).spec_stats(),
            final(self).spec_phase() == old(self).spec_phase(),
            match r {
                Ok(_) => ret >= 0 && final(self).spec_regions() == old(self).spec_regions().push(
                    UffdRegion { start, size },
                ),
                Err(UffdError::RegisterFailed(c)) => ret < 0 && c@ == cause@
                    && final(self).spec_regions() == old(self).spec_regions(),
                Err(_) => false,
            },
    {
        if ret < 0 {
            return Err(UffdError::RegisterFailed(cause));
        }
        self.regions.push(UffdRegion { start, size });
        Ok(())
    }

    /// Returns the registered memory regions.
    pub fn regions(&self) -> (r: &Vec<UffdRegion>)
        ensures
            r@ == self.spec_regions(),
    {
        &self.regions
    }

    /// Starts the page fault handling: the first event is `UffdEvent::Tick`.
    pub fn start(&mut self)
        ensures
            final(self).wf(),
            final(self).spec_fd() == old(self).spec_fd(),
            final(self).spec_regions() == old(self).spec_regions(),
            final(self).spec_running(),
            final(self).spec_phase() is Checking,
            final(self).spec_stats() == (UffdStats {
                page_faults: 0,
                pages_served: 0,
                zero_pages: 0,
                remove_events: 0,
            }),
    {
        self.running = true;
        self.phase = FaultPhase::Checking;
        self.stats = UffdStats::default();
    }

    /// Stops the page fault handling at the next look.
    pub fn stop(&mut self)
        ensures
            final(self).spec_fd() == old(self).spec_fd(),
            final(self).spec_regions() == old(self).spec_regions(),
            !final(self).spec_running(),
            final(self).spec_phase() == old(self).spec_phase(),
            final(self).spec_stats() == old(self).spec_stats(),
    {
        self.running = false;
    }

    /// Returns the current statistics.
    pub fn stats(&self) -> (r: &UffdStats)
        ensures
            *r == self.spec_stats(),
    {
        &self.stats
    }

    /// Tells whether there is room to count one more event.
    pub fn has_room(&self) -> (r: bool)
        ensures
            r == self.can_count(),
    {
        self.stats.page_faults < u64::MAX && self.stats.remove_events < u64::MAX
    }

    /// One step of the page fault handling: takes what came of the last action, and says what is
    /// to be done next.
    pub fn handle<'o>(&mut self, overlay: &'o CoWOverlay<'_>, event: UffdEvent) -> (action:
        UffdAction<'o>)
        requires
            old(self).wf(),
            old(self).can_count(),
            answers(old(self).spec_phase(), event),
            overlay.wf(),
        ensures
            final(self).wf(),
            final(self).spec_fd() == old(self).spec_fd(),
            final(self).spec_regions() == old(self).spec_regions(),
            final(self).spec_running() == old(self).spec_running(),
            final(self).spec_stats() == stats_after(old(self).spec_stats(), event),
            final(self).spec_phase() == phase_after(
                old(self).spec_running(),
                overlay@.len(),
                event,
            ),
            action_for(final(self).spec_phase(), overlay@, fault_address(event), action),
            event matches UffdEvent::ReadDone { n, msg, .. } ==> (n > 0 && msg.event
                == 0xFFFF_FFFF_FFFF_FFFC ==> match action {
                UffdAction::Copy { copy, .. } => {
                    &&& copy.dst == msg.address
                    &&& copy.src@.len() == copy.len == 4096
                    &&& forall|k: int|
                        0 <= k < 4096 ==> #[trigger] copy.src@[k] == overlay@[msg.address
                            - msg.address % 4096 + k]
                },
                UffdAction::Zeropage { zero, .. } => {
                    &&& zero.start % 4096 == 0
                    &&& zero.len == 4096
                    &&& zero.start <= msg.address < zero.start + zero.len
                },
                _ => false,
            }),
    {
        match event {
            UffdEvent::Tick => {
                if self.running {
                    self.phase = FaultPhase::Polling;
                    UffdAction::Poll { timeout_ms: POLL_TIMEOUT_MS }
                } else {
                    self.phase = FaultPhase::Stopped;
                    UffdAction::Stop
                }
            },
            UffdEvent::Polled { ret, interrupted } => {
                if ret < 0 && !interrupted {
                    self.phase = FaultPhase::Stopped;
                    UffdAction::Stop
                } else if ret <= 0 {
                    self.phase = FaultPhase::Checking;
                    UffdAction::CheckRunning
                } else {
                    self.phase = FaultPhase::Reading;
                    UffdAction::Read
                }
            },
            UffdEvent::ReadDone { n, would_block, msg } => {
                if n < 0 && !would_block {
                    self.phase = FaultPhase::Stopped;
                    UffdAction::Stop
                } else if n <= 0 {
                    self.phase = FaultPhase::Checking;
                    UffdAction::CheckRunning
                } else if msg.event == UFFD_EVENT_PAGEFAULT {
                    self.stats.page_faults = self.stats.page_faults + 1;
                    self.resolve(overlay, msg)
                } else {
                    if msg.event == UFFD_EVENT_REMOVE {
                        self.stats.remove_events = self.stats.remove_events + 1;
                    }
                    self.phase = FaultPhase::Checking;
                    UffdAction::CheckRunning
                }
            },
            UffdEvent::CopyDone { ret } => {
                if ret >= 0 {
                    self.stats.pages_served = self.stats.pages_served + 1;
                }
                self.phase = FaultPhase::Checking;
                UffdAction::CheckRunning
            },
            UffdEvent::ZeropageDone { ret } => {
                if ret >= 0 {
                    self.stats.zero_pages = self.stats.zero_pages + 1;
                }
                self.phase = FaultPhase::Checking;
                UffdAction::CheckRunning
            },
        }
    }

    /// Says how a page fault is resolved.
    fn resolve<'o>(&mut self, overlay: &'o CoWOverlay<'_>, msg: UffdMsg) -> (action: UffdAction<'o>)
        requires
            overlay.wf(),
        ensures
            final(self).spec_fd() == old(self).spec_fd(),
            final(self).spec_regions() == old(self).spec_regions(),
            final(self).spec_running() == old(self).spec_running(),
            final(self).spec_stats() == old(self).spec_stats(),
            final(self).spec_phase() == if valid_page(
                page_start(msg.address),
                overlay@.len() as int,
            ) {
                FaultPhase::Copying
            } else {
                FaultPhase::Zeroing
            },
            action_for(final(self).spec_phase(), overlay@, msg.address, action),
    {
        let addr: u64 = msg.address;
        let page_offset: u64 = addr & !(PAGE_SIZE - 1);
        assert(addr & !4095u64 == addr - addr % 4096) by (bit_vector);
        match overlay.read_page(page_offset) {
            Some(page_data) => {
                self.phase = FaultPhase::Copying;
                UffdAction::Copy {
                    request: iow(UFFDIO, UFFDIO_COPY, UFFDIO_COPY_SIZE),
                    copy: UffdioCopy {
                        dst: addr,
                        src: page_data,
                        len: PAGE_SIZE,
                        mode: 0,
                        copy: 0,
                    },
                }
            },
            None => {
                self.phase = FaultPhase::Zeroing;
                UffdAction::Zeropage {
                    request: iow(UFFDIO, UFFDIO_ZEROPAGE, UFFDIO_ZEROPAGE_SIZE),
                    zero: UffdioZeropage {
                        start: page_offset,
                        len: PAGE_SIZE,
                        mode: UFFDIO_ZEROPAGE_MODE_DONTWAKE,
                        zeropage: 0,
                    },
                }
            },
        }
    }
}

/// The page that resolves a fault holds, at the faulting address, the byte that the memory holds
/// there as the instance sees it.
pub proof fn law_fault_gets_its_page(memory: Seq<u8>, address: u64, action: UffdAction)
    requires
        valid_page(page_start(address), memory.len() as int),
        action_for(FaultPhase::Copying, memory, address, action),
    ensures
        action matches UffdAction::Copy { copy, .. } && copy.src@.len() == PAGE_SIZE
            && copy.src@[address as int % PAGE_SIZE as int] == memory[address as int],
{
}

/// A page fault in a page that does not lie whole within the memory is filled with zeros, and no
/// other is.
pub proof fn law_zeros_only_outside(running: bool, memory_size: nat, event: UffdEvent)
    requires
        event matches UffdEvent::ReadDone { n, msg, .. } && n > 0 && msg.event
            == UFFD_EVENT_PAGEFAULT,
    ensures
        phase_after(running, memory_size, event) is Zeroing <==> page_start(fault_address(event))
            + PAGE_SIZE > memory_size,
        phase_after(running, memory_size, event) is Copying <==> page_start(fault_address(event))
            + PAGE_SIZE <= memory_size,
{
    assert(page_start(fault_address(event)) % (PAGE_SIZE as int) == 0);
}

/// Every page fault is resolved where it happened, at any address: a copy goes to the faulting
/// address and brings the page around it, and zeros fill a whole page that the faulting address lies
/// in. The faulting thread is woken by the copy and not by the zeros.
pub proof fn law_fault_is_resolved_in_place(
    running: bool,
    memory: Seq<u8>,
    event: UffdEvent,
    action: UffdAction,
)
    requires
        event matches UffdEvent::ReadDone { n, msg, .. } && n > 0 && msg.event
            == 0xFFFF_FFFF_FFFF_FFFC,
        action_for(
            phase_after(running, memory.len(), event),
            memory,
            fault_address(event),
            action,
        ),
    ensures
        event matches UffdEvent::ReadDone { msg, .. } && match action {
            UffdAction::Copy { request, copy } => {
                &&& request == 0x4028_AA03
                &&& copy.dst == msg.address
                &&& copy.src@.len() == 4096
                &&& forall|k: int|
                    0 <= k < 4096 ==> #[trigger] copy.src@[k] == memory[msg.address - msg.address
                        % 4096 + k]
                &&& copy.len == 4096
                &&& copy.mode == 0
                &&& copy.copy == 0
                &&& msg.address - msg.address % 4096 + 4096 <= memory.len()
            },
            UffdAction::Zeropage { request, zero } => {
                &&& request == 0x4020_AA04
                &&& zero.start % 4096 == 0
                &&& zero.len == 4096
                &&& zero.start <= msg.address < zero.start + zero.len
                &&& zero.mode == 1
                &&& zero.zeropage == 0
                &&& zero.start + zero.len > memory.len()
            },
            _ => false,
        },
{
    assert(page_start(fault_address(event)) % (PAGE_SIZE as int) == 0);
}

/// The handling goes on as long as it is to run and nothing fails: it waits for an event, reads it
/// if there is one, resolves it if it is a page fault, and looks again. It ends when it is to stop,
/// or when waiting or reading fails for good.
pub proof fn law_handling_goes_on(
    running: bool,
    memory: Seq<u8>,
    event: UffdEvent,
    action: UffdAction,
)
    requires
        action_for(
            phase_after(running, memory.len(), event),
            memory,
            fault_address(event),
            action,
        ),
    ensures
        action is Stop <==> match event {
            UffdEvent::Tick => !running,
            UffdEvent::Polled { ret, interrupted } => ret < 0 && !interrupted,
            UffdEvent::ReadDone { n, would_block, .. } => n < 0 && !would_block,
            _ => false,
        },
        action is Poll <==> event is Tick && running,
        action matches UffdAction::Poll { timeout_ms } ==> timeout_ms == 100,
        action is Read <==> (event matches UffdEvent::Polled { ret, .. } && ret > 0),
        action is Copy || action is Zeropage <==> (event matches UffdEvent::ReadDone { n, msg, .. }
            && n > 0 && msg.event == 0xFFFF_FFFF_FFFF_FFFC),
{
}

/// Each event counts in one place or not at all: a page fault and a removal when they are read, a
/// page and a page of zeros when the kernel has taken them.
pub proof fn law_events_are_counted(stats: UffdStats, event: UffdEvent)
    requires
        stats.page_faults < u64::MAX,
        stats.pages_served < u64::MAX,
        stats.zero_pages < u64::MAX,
        stats.remove_events < u64::MAX,
    ensures
        ({
            let after = stats_after(stats, event);
            let read = |of: u64|
                event matches UffdEvent::ReadDone { n, msg, .. } && n > 0 && msg.event == of;
            let counted = |was: u64, is: u64, counts: bool| is == was + (if counts {
                1int
            } else {
                0
            });
            &&& counted(stats.page_faults, after.page_faults, read(0xFFFF_FFFF_FFFF_FFFC))
            &&& counted(stats.remove_events, after.remove_events, read(0xFFFF_FFFF_FFFF_FFFB))
            &&& counted(
                stats.pages_served,
                after.pages_served,
                event matches UffdEvent::CopyDone { ret } && ret >= 0,
            )
            &&& counted(
                stats.zero_pages,
                after.zero_pages,
                event matches UffdEvent::ZeropageDone { ret } && ret >= 0,
            )
        }),
{
}

/// Once stopped, the handling ends with the next look, whatever the memory.
pub proof fn law_stop_ends_handling(memory_size: nat)
    ensures
        phase_after(false, memory_size, UffdEvent::Tick) is Stopped,
{
}

/// What came of the last step of receiving a descriptor.
pub enum ListenEvent {
    /// A caller waits for a descriptor.
    Requested,
    /// The socket path makes an address.
    AddressReady,
    /// The socket is open.
    SocketOpened,
    /// The socket has its address.
    Bound,
    /// The socket listens.
    Listening,
    /// There is a connection.
    Accepted { conn: i32 },
    /// The receive call returned: the cause if it failed, and the descriptor that came as
    /// ancillary data, if any.
    Received { n: i64, cause: String, fd: Option<i32> },
    /// The last step failed, for this cause.
    Failed(String),
}

/// The next step of receiving a descriptor.
pub enum ListenStep {
    /// Make an address of the socket path.
    BuildAddress { path: String },
    /// Open a Unix stream socket.
    OpenSocket { close_on_exec: bool },
    /// Give the socket its address.
    Bind,
    /// Listen, with room for so many connections that wait.
    Listen { backlog: i32 },
    /// Wait for a connection.
    Accept,
    /// Receive so many bytes with ancillary data.
    Receive { conn: i32, len: usize },
    /// Close connection and socket; this is what comes of it.
    Finish(Result<i32, UffdError>),
    /// The descriptor cannot be received.
    Failed(UffdError),
}

/// What one step of receiving a descriptor does: a socket is opened, given its address and listened
/// on; a message is received over the first connection. Every failure ends it.
pub open spec fn receives_uffd(
    socket_path: Seq<char>,
    event: ListenEvent,
    step: ListenStep,
) -> bool {
    match event {
        ListenEvent::Requested => step matches ListenStep::BuildAddress { path } && path@
            == socket_path,
        ListenEvent::AddressReady => step == (ListenStep::OpenSocket { close_on_exec: true }),
        ListenEvent::SocketOpened => step is Bind,
        ListenEvent::Bound => step == (ListenStep::Listen { backlog: 1 }),
        ListenEvent::Listening => step is Accept,
        ListenEvent::Accepted { conn } => step == (ListenStep::Receive { conn, len: 1 }),
        ListenEvent::Received { n, cause, fd } => if n < 0 {
            step matches ListenStep::Finish(Err(UffdError::SocketError(c))) && c@ == cause@
        } else {
            match fd {
                Some(fd) => step == ListenStep::Finish(Ok(fd)),
                None => step matches ListenStep::Finish(Err(UffdError::InvalidMessage(c)))
                    && c@ == "No ancillary data"@,
            }
        },
        ListenEvent::Failed(cause) => step matches ListenStep::Failed(
            UffdError::SocketError(c),
        ) && c@ == cause@,
    }
}

/// Listens on a Unix socket for a uffd file descriptor from the hypervisor.
///
/// The caller starts with `ListenEvent::Requested`, does what each step says and hands back what
/// came of it, until the step is `Finish` or `Failed`.
pub fn listen_for_uffd(socket_path: &str, event: ListenEvent) -> (step: ListenStep)
    ensures
        receives_uffd(socket_path@, event, step),
{
    match event {
        ListenEvent::Requested => ListenStep::BuildAddress { path: socket_path.to_owned() },
        ListenEvent::AddressReady => ListenStep::OpenSocket { close_on_exec: true },
        ListenEvent::SocketOpened => ListenStep::Bind,
        ListenEvent::Bound => ListenStep::Listen { backlog: 1 },
        ListenEvent::Listening => ListenStep::Accept,
        ListenEvent::Accepted { conn } => ListenStep::Receive { conn, len: 1 },
        ListenEvent::Received { n, cause, fd } => {
            if n < 0 {
                return ListenStep::Finish(Err(UffdError::SocketError(cause)));
            }
            match fd {
                Some(fd) => ListenStep::Finish(Ok(fd)),
                None => ListenStep::Finish(
                    Err(UffdError::InvalidMessage("No ancillary data".to_owned())),
                ),
            }
        },
        ListenEvent::Failed(cause) => ListenStep::Failed(UffdError::SocketError(cause)),
    }
}

/// What can come of a step of creating a handler.
pub open spec fn create_answers(step: CreateStep, event: CreateEvent) -> bool {
    match step {
        CreateStep::Syscall { .. } => event is SyscallReturned,
        CreateStep::EnableApi { fd, .. } => event matches CreateEvent::ApiReturned { fd: of, .. }
            && of == fd,
        CreateStep::Close { .. } => event is Closed,
        CreateStep::Ready(_) => false,
        CreateStep::Failed(_) => false,
    }
}

/// A run of creating a handler.
pub open spec fn is_create_run(run: Seq<Turn<CreateEvent, CreateStep>>) -> bool {
    is_run(
        run,
        |event: CreateEvent| event is Requested,
        |event: CreateEvent, step: CreateStep| creates_handler(event, step),
        |step: CreateStep, event: CreateEvent| create_answers(step, event),
    )
}

/// In every run a handler is there only after the system call gave a descriptor and the handshake
/// over it succeeded; it is a new handler for that descriptor. A failed handshake closes the same
/// descriptor before the run fails.
pub proof fn law_create_order(run: Seq<Turn<CreateEvent, CreateStep>>, i: int)
    requires
        is_create_run(run),
        0 <= i < run.len(),
    ensures
        i == 0 <==> run[i].step is Syscall,
        i > 0 ==> run[1].event is SyscallReturned,
        i > 1 ==> run[1].step is EnableApi && run[2].event is ApiReturned,
        run[i].step matches CreateStep::Ready(handler) ==> {
            &&& i == 2
            &&& run[1].event matches CreateEvent::SyscallReturned { value, .. }
            &&& value >= 0
            &&& handler.is_new(value as i32)
        },
        run[i].step matches CreateStep::Close { fd } ==> {
            &&& i == 2
            &&& run[1].event matches CreateEvent::SyscallReturned { value, .. }
            &&& fd == value as i32
        },
        i > 2 ==> i == 3 && run[2].step is Close && run[3].step is Failed,
        run[i].step matches CreateStep::Syscall { close_on_exec, non_blocking } ==> close_on_exec
            && non_blocking,
        run[i].step matches CreateStep::EnableApi { fd, request, api } ==> {
            &&& run[i].event matches CreateEvent::SyscallReturned { value, .. }
            &&& value >= 0
            &&& fd == value as i32
            &&& request == 0x4018_AA03
            &&& api.api == 0xAA
            &&& api.features == 0
            &&& api.ioctls == 0
        },
        run[i].step matches CreateStep::Ready(handler) ==> {
            &&& run[2].event matches CreateEvent::ApiReturned { fd, ret }
            &&& ret >= 0
            &&& handler.spec_fd() == fd
            &&& handler.spec_regions().len() == 0
            &&& !handler.spec_running()
            &&& handler.spec_stats().page_faults == 0
            &&& handler.spec_stats().pages_served == 0
            &&& handler.spec_stats().zero_pages == 0
            &&& handler.spec_stats().remove_events == 0
        },
        run[i].step matches CreateStep::Failed(error) ==> {
            &&& error matches UffdError::CreateFailed(text)
            &&& match run[i].event {
                CreateEvent::SyscallReturned { value, cause } => value < 0 && text@ == cause@,
                CreateEvent::Closed { cause } => text@ == cause@,
                _ => false,
            }
        },
        run[i].event matches CreateEvent::ApiReturned { ret, .. } ==> (run[i].step is Close <==> ret
            < 0),
    decreases i,
{
    let answers = |step: CreateStep, event: CreateEvent| create_answers(step, event);
    if i > 0 {
        law_create_order(run, i - 1);
        assert(answered(run, i, answers));
        assert(create_answers(run[i - 1].step, run[i].event));
    }
    assert(creates_handler(run[i].event, run[i].step));
    if i == 2 {
        assert(creates_handler(run[1].event, run[1].step));
    }
}

/// What can come of a step of receiving a descriptor.
pub open spec fn listen_answers(step: ListenStep, event: ListenEvent) -> bool {
    match step {
        ListenStep::BuildAddress { .. } => event is AddressReady || event is Failed,
        ListenStep::OpenSocket { .. } => event is SocketOpened || event is Failed,
        ListenStep::Bind => event is Bound || event is Failed,
        ListenStep::Listen { .. } => event is Listening || event is Failed,
        ListenStep::Accept => event is Accepted || event is Failed,
        ListenStep::Receive { .. } => event is Received,
        ListenStep::Finish(_) => false,
        ListenStep::Failed(_) => false,
    }
}

/// Where a step of receiving a descriptor has its place in a run.
pub open spec fn listen_place(step: ListenStep) -> int {
    match step {
        ListenStep::BuildAddress { .. } => 0,
        ListenStep::OpenSocket { .. } => 1,
        ListenStep::Bind => 2,
        ListenStep::Listen { .. } => 3,
        ListenStep::Accept => 4,
        ListenStep::Receive { .. } => 5,
        ListenStep::Finish(_) => 6,
        ListenStep::Failed(_) => 7,
    }
}

/// A run of receiving a descriptor.
pub open spec fn is_listen_run(
    socket_path: Seq<char>,
    run: Seq<Turn<ListenEvent, ListenStep>>,
) -> bool {
    is_run(
        run,
        |event: ListenEvent| event is Requested,
        |event: ListenEvent, step: ListenStep| receives_uffd(socket_path, event, step),
        |step: ListenStep, event: ListenEvent| listen_answers(step, event),
    )
}

/// Every run of receiving a descriptor takes its steps in the same order, until it fails; the
/// message is received over the connection that was accepted.
pub proof fn law_listen_order(
    socket_path: Seq<char>,
    run: Seq<Turn<ListenEvent, ListenStep>>,
    i: int,
)
    requires
        is_listen_run(socket_path, run),
        0 <= i < run.len(),
    ensures
        run[i].step is Failed || listen_place(run[i].step) == i,
        forall|j: int| 0 <= j < i ==> listen_place((#[trigger] run[j]).step) == j,
        run[i].step matches ListenStep::Receive { conn, .. } ==> {
            &&& i == 5
            &&& run[5].event matches ListenEvent::Accepted { conn: accepted }
            &&& accepted == conn
        },
        run[i].step matches ListenStep::BuildAddress { path } ==> path@ == socket_path,
        run[i].step matches ListenStep::OpenSocket { close_on_exec } ==> close_on_exec,
        run[i].step matches ListenStep::Listen { backlog } ==> backlog == 1,
        run[i].step matches ListenStep::Receive { len, .. } ==> len == 1,
        run[i].step matches ListenStep::Finish(result) ==> {
            &&& run[i].event matches ListenEvent::Received { n, cause, fd }
            &&& match result {
                Ok(received) => n >= 0 && fd == Some(received),
                Err(UffdError::SocketError(text)) => n < 0 && text@ == cause@,
                Err(UffdError::InvalidMessage(text)) => n >= 0 && fd is None && text@
                    == "No ancillary data"@,
                Err(_) => false,
            }
        },
        run[i].step is Failed <==> run[i].event is Failed,
        run[i].event matches ListenEvent::Failed(cause) ==> (run[i].step
            matches ListenStep::Failed(UffdError::SocketError(text)) && text@ == cause@),
    decreases i,
{
    let answers = |step: ListenStep, event: ListenEvent| listen_answers(step, event);
    if i > 0 {
        law_listen_order(socket_path, run, i - 1);
        assert(answered(run, i, answers));
        assert(listen_answers(run[i - 1].step, run[i].event));
    }
    assert(receives_uffd(socket_path, run[i].event, run[i].step));
}

/// The text of an error ends with its cause, and what stands before that depends on the kind of the
/// error alone.
pub proof fn law_uffd_error_text(error: UffdError, other: UffdError)
    ensures
        match (error, other) {
            (
                UffdError::CreateFailed(cause),
                UffdError::CreateFailed(b),
            ) => ends_with(error.text(), cause@)
                && before_end(error.text(), cause@) == before_end(other.text(), b@),
            (
                UffdError::RegisterFailed(cause),
                UffdError::RegisterFailed(b),
            ) => ends_with(error.text(), cause@)
                && before_end(error.text(), cause@) == before_end(other.text(), b@),
            (
                UffdError::PageFaultFailed(cause),
                UffdError::PageFaultFailed(b),
            ) => ends_with(error.text(), cause@)
                && before_end(error.text(), cause@) == before_end(other.text(), b@),
            (
                UffdError::SocketError(cause),
                UffdError::SocketError(b),
            ) => ends_with(error.text(), cause@)
                && before_end(error.text(), cause@) == before_end(other.text(), b@),
            (UffdError::IoError(cause), UffdError::IoError(b)) => ends_with(error.text(), cause@)
                && before_end(error.text(), cause@) == before_end(other.text(), b@),
            (
                UffdError::InvalidMessage(cause),
                UffdError::InvalidMessage(b),
            ) => ends_with(error.text(), cause@)
                && before_end(error.text(), cause@) == before_end(other.text(), b@),
            _ => true,
        },
{
    lemma_uffd_error_text(error);
    lemma_uffd_error_text(other);
}

proof fn lemma_uffd_error_text(error: UffdError)
    ensures
        match error {
            UffdError::CreateFailed(cause) => {
                &&& ends_with(error.text(), cause@)
                &&& before_end(error.text(), cause@) == "Failed to create userfaultfd: "@
            },
            UffdError::RegisterFailed(cause) => {
                &&& ends_with(error.text(), cause@)
                &&& before_end(error.text(), cause@) == "Failed to register memory region: "@
            },
            UffdError::PageFaultFailed(cause) => {
                &&& ends_with(error.text(), cause@)
                &&& before_end(error.text(), cause@) == "Failed to resolve page fault: "@
            },
            UffdError::SocketError(cause) => {
                &&& ends_with(error.text(), cause@)
                &&& before_end(error.text(), cause@) == "Socket error: "@
            },
            UffdError::IoError(cause) => {
                &&& ends_with(error.text(), cause@)
                &&& before_end(error.text(), cause@) == "IO error: "@
            },
            UffdError::InvalidMessage(cause) => {
                &&& ends_with(error.text(), cause@)
                &&& before_end(error.text(), cause@) == "Invalid message: "@
            },
            _ => true,
        },
{
    match error {
        UffdError::CreateFailed(cause) => {
            lemma_before_end("Failed to create userfaultfd: "@, cause@);
        },
        UffdError::RegisterFailed(cause) => {
            lemma_before_end("Failed to register memory region: "@, cause@);
        },
        UffdError::PageFaultFailed(cause) => {
            lemma_before_end("Failed to resolve page fault: "@, cause@);
        },
        UffdError::SocketError(cause) => {
            lemma_before_end("Socket error: "@, cause@);
        },
        UffdError::IoError(cause) => {
            lemma_before_end("IO error: "@, cause@);
        },
        UffdError::InvalidMessage(cause) => {
            lemma_before_end("Invalid message: "@, cause@);
        },
        _ => {},
    }
}

} // verus!
