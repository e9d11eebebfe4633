//! Three-layer snapshot composition for fast VM startup and memory sharing.
//!
//! - **Layer 0 (L0)**: Infrastructure — guest kernel, agent, base system
//! - **Layer 1 (L1)**: Runtime — language runtime, application frameworks
//! - **Layer 2 (L2)**: Per-instance — private state, dirty pages
//!
//! L0 and L1 are shared across all VMs; L2 is a per-instance CoW overlay that tracks dirty pages.

use crate::cow_overlay::{
    checkpoint_bitmap_path, checkpoint_data_path, created, CoWOverlay, CoWOverlayError,
    OverlayEvent, OverlayStep,
};
use crate::paths::{join, joined, path_key};
use crate::runs::{answered, is_run, Turn};
use crate::shared_memfile::{
    law_mapping_adds_its_size, map_answers, mapped, references_to, sum_of_sizes, MapEvent, MapStep,
    SharedMemfile, SharedMemfileError, SharedMemfileManager, TrackedMemfile,
};
use crate::text::{before_end, concat, ends_with, lemma_before_end};
use crate::uffd::UffdError;
use std::sync::Arc;
use vstd::prelude::*;

verus! {

/// Errors related to snapshot layer operations
#[derive(Debug)]
pub enum SnapshotLayerError {
    SharedMemfile(SharedMemfileError),
    CoWOverlay(CoWOverlayError),
    Uffd(UffdError),
    LayerNotFound(String),
    InvalidConfig(String),
    Io(String),
    Serialization(String),
}

impl SnapshotLayerError {
    /// The text of the error.
    pub open spec fn text(&self) -> Seq<char> {
        match self {
            SnapshotLayerError::SharedMemfile(error) => "Shared memfile error: "@ + error.text(),
            SnapshotLayerError::CoWOverlay(error) => "CoW overlay error: "@ + error.text(),
            SnapshotLayerError::Uffd(error) => "userfaultfd error: "@ + error.text(),
            SnapshotLayerError::LayerNotFound(cause) => "Layer not found: "@ + cause@,
            SnapshotLayerError::InvalidConfig(cause) => "Invalid layer configuration: "@ + cause@,
            SnapshotLayerError::Io(cause) => "IO error: "@ + cause@,
            SnapshotLayerError::Serialization(cause) => "Serialization error: "@ + cause@,
        }
    }

    /// Writes the error out.
    pub fn to_string(&self) -> (r: String)
        ensures
            r@ == self.text(),
    {
        match self {
            SnapshotLayerError::SharedMemfile(error) => concat(
                "Shared memfile error: ",
                error.to_string().as_str(),
            ),
            SnapshotLayerError::CoWOverlay(error) => concat(
                "CoW overlay error: ",
                error.to_string().as_str(),
            ),
            SnapshotLayerError::Uffd(error) => concat(
                "userfaultfd error: ",
                error.to_string().as_str(),
            ),
            SnapshotLayerError::LayerNotFound(cause) => concat(
                "Layer not found: ",
                cause.as_str(),
            ),
            SnapshotLayerError::InvalidConfig(cause) => concat(
                "Invalid layer configuration: ",
                cause.as_str(),
            ),
            SnapshotLayerError::Io(cause) => concat("IO error: ", cause.as_str()),
            SnapshotLayerError::Serialization(cause) => concat(
                "Serialization error: ",
                cause.as_str(),
            ),
        }
    }
}

/// Layer identifier
#[derive(Debug, Clone, Copy, PartialEq, Eq, Hash, Structural)]
pub enum Layer {
    /// Infrastructure layer (kernel, agent, base system)
    L0,
    /// Runtime layer (language runtime, frameworks)
    L1,
    /// Per-instance layer (private state, dirty pages)
    L2,
}

impl Layer {
    /// The name of the layer.
    pub open spec fn text(&self) -> Seq<char> {
        match self {
            Layer::L0 => "L0"@,
            Layer::L1 => "L1"@,
            Layer::L2 => "L2"@,
        }
    }

    /// Writes the name of the layer.
    pub fn to_string(&self) -> (r: String)
        ensures
            r@ == self.text(),
    {
        match self {
            Layer::L0 => "L0".to_owned(),
            Layer::L1 => "L1".to_owned(),
            Layer::L2 => "L2".to_owned(),
        }
    }
}

/// Reference to a snapshot layer's files
#[derive(Debug)]
pub struct LayerRef {
    /// Layer identifier
    pub layer: Layer,
    /// Path to the memory file (memfile)
    pub memfile_path: String,
    /// Path to the snapshot state file (snapfile)
    pub snapfile_path: String,
    /// Size of the memory file in bytes
    pub memfile_size: u64,
    /// Build ID for compatibility checking
    pub build_id: String,
}

impl Clone for LayerRef {
    fn clone(&self) -> (r: Self)
        ensures
            r == *self,
    {
        LayerRef {
            layer: self.layer,
            memfile_path: self.memfile_path.clone(),
            snapfile_path: self.snapfile_path.clone(),
            memfile_size: self.memfile_size,
            build_id: self.build_id.clone(),
        }
    }
}

fn clone_layer_ref(layer: Option<&LayerRef>) -> (r: Option<LayerRef>)
    ensures
        match layer {
            Some(layer) => r == Some(*layer),
            None => r is None,
        },
{
    match layer {
        Some(layer) => Some(layer.clone()),
        None => None,
    }
}

/// Metadata for a layered snapshot
#[derive(Debug)]
pub struct LayeredSnapshotMetadata {
    /// Whether layered snapshots are enabled
    pub enabled: bool,
    /// L0 layer reference
    pub l0: Option<LayerRef>,
    /// L1 layer reference
    pub l1: Option<LayerRef>,
    /// L2 memfile size in bytes (per-instance)
    pub l2_memfile_size: u64,
    /// Total guest memory size in bytes
    pub guest_memory_size: u64,
}

impl Clone for LayeredSnapshotMetadata {
    fn clone(&self) -> (r: Self)
        ensures
            r == *self,
    {
        LayeredSnapshotMetadata {
            enabled: self.enabled,
            l0: clone_layer_ref(self.l0.as_ref()),
            l1: clone_layer_ref(self.l1.as_ref()),
            l2_memfile_size: self.l2_memfile_size,
            guest_memory_size: self.guest_memory_size,
        }
    }
}

/// Memory layer for the VM, representing one layer's contribution to
/// the guest physical address space.
#[derive(Debug)]
pub struct MemoryLayer<'b> {
    /// The mapped data
    pub data: &'b [u8],
    /// Size of this layer's data
    pub size: u64,
    /// Whether this layer is shared across VMs
    pub shared: bool,
    /// Path to the pre-merged file (if applicable)
    pub pre_merged_path: Option<String>,
}

impl<'b> MemoryLayer<'b> {
    /// The layer holds these bytes and is shared.
    pub open spec fn is_shared_layer(&self, bytes: Seq<u8>) -> bool {
        &&& self.data@ == bytes
        &&& self.size == bytes.len()
        &&& self.shared
        &&& self.pre_merged_path is None
    }

    /// The layer holds these bytes, is private and is backed by the file at the path.
    pub open spec fn is_private_layer(&self, bytes: Seq<u8>, path: Seq<char>) -> bool {
        &&& self.data@ == bytes
        &&& self.size == bytes.len()
        &&& !self.shared
        &&& self.pre_merged_path matches Some(p)
        &&& p@ == path
    }
}

/// Statistics for the layered snapshot system
#[derive(Debug)]
pub struct LayeredSnapshotStats {
    /// Number of active VMs sharing L0
    pub l0_shared_vms: u64,
    /// Number of active VMs sharing L1
    pub l1_shared_vms: u64,
    /// Total shared memory bytes
    pub shared_memory_bytes: u64,
    /// Total overlay memory bytes
    pub overlay_memory_bytes: u64,
}

impl Default for LayeredSnapshotStats {
    fn default() -> (r: Self)
        ensures
            r == (LayeredSnapshotStats {
                l0_shared_vms: 0,
                l1_shared_vms: 0,
                shared_memory_bytes: 0,
                overlay_memory_bytes: 0,
            }),
    {
        LayeredSnapshotStats {
            l0_shared_vms: 0,
            l1_shared_vms: 0,
            shared_memory_bytes: 0,
            overlay_memory_bytes: 0,
        }
    }
}

/// What a merged memfile is made of.
#[derive(Debug)]
pub struct MergedMemfile<'a> {
    /// The size of the merged file
    pub total_size: u64,
    /// The pieces of the merged file, in order
    pub parts: Vec<&'a [u8]>,
}

/// Pieces one after the other.
pub open spec fn concatenated(parts: Seq<&[u8]>) -> Seq<u8>
    decreases parts.len(),
{
    if parts.len() == 0 {
        Seq::empty()
    } else {
        concatenated(parts.drop_last()) + parts.last()@
    }
}

/// The bytes of a memfile that may be absent.
pub open spec fn bytes_of(memfile: Option<Arc<SharedMemfile>>) -> Seq<u8> {
    match memfile {
        Some(memfile) => memfile@,
        None => Seq::empty(),
    }
}

/// What comes next in the initialization.
pub enum InitEvent<'a> {
    /// A caller asks for the initialization.
    Requested,
    /// The mapping of the L0 memfile goes on.
    L0(MapEvent<'a>),
    /// The mapping of the L1 memfile goes on.
    L1(MapEvent<'a>),
}

/// The next step of the initialization.
pub enum InitStep<'a> {
    /// Start mapping the memfile of the layer with `MapEvent::Requested`.
    Begin { layer: Layer },
    /// Go on with mapping the memfile of the layer: open it, measure it or map it.
    Continue { layer: Layer, step: MapStep<'a> },
    /// The initialization is complete.
    Done,
    /// The initialization failed.
    Failed(SnapshotLayerError),
}

/// Manages the three-layer snapshot system.
///
/// This is the main entry point for creating and restoring layered snapshots.
pub struct SnapshotLayerManager<'a> {
    /// Manager for shared memfiles (L0, L1)
    shared_manager: SharedMemfileManager<'a>,
    /// L0 memfile (shared across all VMs)
    l0_memfile: Option<Arc<SharedMemfile<'a>>>,
    /// L1 memfile (shared across all VMs)
    l1_memfile: Option<Arc<SharedMemfile<'a>>>,
    /// Layered snapshot metadata
    metadata: Option<LayeredSnapshotMetadata>,
    /// Statistics
    stats: LayeredSnapshotStats,
    /// Guest memory size
    guest_memory_size: u64,
}

/// A memfile that is present is well-formed and not empty.
pub open spec fn sound_memfile(memfile: Option<Arc<SharedMemfile>>) -> bool {
    memfile matches Some(memfile) ==> memfile.wf() && memfile.size > 0
}

/// How many references are held to the memfile of a layer: none if the layer is absent.
pub open spec fn users_of(
    entries: Seq<TrackedMemfile>,
    memfile: Option<Arc<SharedMemfile>>,
) -> int {
    match memfile {
        Some(memfile) => references_to(entries, memfile.path@),
        None => 0,
    }
}

/// What an event adds to the tracked memfiles can be counted.
pub open spec fn countable(entries: Seq<TrackedMemfile>, event: MapEvent) -> bool {
    event matches MapEvent::Advised { data, .. } ==> sum_of_sizes(entries) + data@.len()
        <= u64::MAX
}

impl<'a> SnapshotLayerManager<'a> {
    /// The manager of the shared memfiles.
    pub closed spec fn spec_shared(&self) -> SharedMemfileManager<'a> {
        self.shared_manager
    }

    /// The L0 memfile.
    pub closed spec fn spec_l0(&self) -> Option<Arc<SharedMemfile<'a>>> {
        self.l0_memfile
    }

    /// The L1 memfile.
    pub closed spec fn spec_l1(&self) -> Option<Arc<SharedMemfile<'a>>> {
        self.l1_memfile
    }

    /// The metadata.
    pub closed spec fn spec_metadata(&self) -> Option<LayeredSnapshotMetadata> {
        self.metadata
    }

    /// The statistics.
    pub closed spec fn spec_stats(&self) -> LayeredSnapshotStats {
        self.stats
    }

    /// The guest memory size.
    pub closed spec fn spec_guest_memory_size(&self) -> u64 {
        self.guest_memory_size
    }

    /// What is tracked is well tracked, the memfiles of the layers are sound, and the statistics
    /// tell how much memory is shared and how many hold on to each layer.
    pub open spec fn wf(&self) -> bool {
        &&& self.spec_shared().wf()
        &&& sound_memfile(self.spec_l0())
        &&& sound_memfile(self.spec_l1())
        &&& self.spec_stats().shared_memory_bytes == sum_of_sizes(self.spec_shared()@)
        &&& self.spec_stats().l0_shared_vms == users_of(self.spec_shared()@, self.spec_l0())
        &&& self.spec_stats().l1_shared_vms == users_of(self.spec_shared()@, self.spec_l1())
    }

    /// The manager is well-formed and has the same layers, metadata and tracked memfiles as another.
    pub open spec fn same_layers(&self, other: &Self) -> bool {
        &&& self.wf()
        &&& self.spec_shared() == other.spec_shared()
        &&& self.spec_l0() == other.spec_l0()
        &&& self.spec_l1() == other.spec_l1()
        &&& self.spec_metadata() == other.spec_metadata()
        &&& self.spec_guest_memory_size() == other.spec_guest_memory_size()
    }

    /// The memfile under a new overlay: L1, or else L0.
    pub open spec fn overlay_base(&self) -> Option<Arc<SharedMemfile<'a>>> {
        if self.spec_l1() is Some {
            self.spec_l1()
        } else {
            self.spec_l0()
        }
    }

    /// The data of L0 followed by the data of L1.
    pub open spec fn merged_bytes(&self) -> Seq<u8> {
        bytes_of(self.spec_l0()) + bytes_of(self.spec_l1())
    }

    /// Creates a new snapshot layer manager.
    pub fn new() -> (r: Self)
        ensures
            r.wf(),
            r.spec_shared()@.len() == 0,
            r.spec_l0() is None,
            r.spec_l1() is None,
            r.spec_metadata() is None,
            r.spec_guest_memory_size() == 0,
            r.spec_stats() == (LayeredSnapshotStats {
                l0_shared_vms: 0,
                l1_shared_vms: 0,
                shared_memory_bytes: 0,
                overlay_memory_bytes: 0,
            }),
    {
        SnapshotLayerManager {
            shared_manager: SharedMemfileManager::new(),
            l0_memfile: None,
            l1_memfile: None,
            metadata: None,
            stats: LayeredSnapshotStats::default(),
            guest_memory_size: 0,
        }
    }

    /// What one step of the initialization does to this manager: the memfiles of the layers that the
    /// metadata names are mapped, L0 first, unless layered snapshots are disabled; then the metadata
    /// is kept. A failed mapping ends it.
    pub open spec fn initializes(
        &self,
        metadata: LayeredSnapshotMetadata,
        event: InitEvent<'a>,
        after: &Self,
        step: InitStep<'a>,
    ) -> bool {
        match event {
            InitEvent::Requested => {
                &&& after.spec_shared() == self.spec_shared()
                &&& after.spec_l0() == self.spec_l0()
                &&& after.spec_l1() == self.spec_l1()
                &&& after.spec_guest_memory_size() == if metadata.enabled {
                    metadata.guest_memory_size
                } else {
                    self.spec_guest_memory_size()
                }
                &&& if metadata.enabled && metadata.l0 is Some {
                    &&& step == (InitStep::Begin { layer: Layer::L0 })
                    &&& after.spec_metadata() == self.spec_metadata()
                } else if metadata.enabled && metadata.l1 is Some {
                    &&& step == (InitStep::Begin { layer: Layer::L1 })
                    &&& after.spec_metadata() == self.spec_metadata()
                } else {
                    &&& step is Done
                    &&& after.spec_metadata() == Some(metadata)
                }
            },
            InitEvent::L0(map_event) => {
                &&& after.spec_guest_memory_size() == self.spec_guest_memory_size()
                &&& after.spec_l1() == self.spec_l1()
                &&& exists|inner: MapStep<'a>|
                    {
                        &&& #[trigger] mapped(
                            self.spec_shared()@,
                            metadata.l0->0.memfile_path@,
                            map_event,
                            after.spec_shared()@,
                            inner,
                        )
                        &&& match inner {
                            MapStep::Done(memfile) => {
                                &&& after.spec_l0() == Some(memfile)
                                &&& if metadata.l1 is Some {
                                    &&& step == (InitStep::Begin { layer: Layer::L1 })
                                    &&& after.spec_metadata()
                                        == self.spec_metadata()
                                } else {
                                    &&& step is Done
                                    &&& after.spec_metadata() == Some(metadata)
                                }
                            },
                            MapStep::Failed(error) => {
                                &&& step == InitStep::Failed(
                                    SnapshotLayerError::SharedMemfile(error),
                                )
                                &&& after.spec_l0() == self.spec_l0()
                                &&& after.spec_metadata() == self.spec_metadata()
                            },
                            _ => {
                                &&& step == (InitStep::Continue { layer: Layer::L0, step: inner })
                                &&& after.spec_l0() == self.spec_l0()
                                &&& after.spec_metadata() == self.spec_metadata()
                            },
                        }
                    }
            },
            InitEvent::L1(map_event) => {
                &&& after.spec_guest_memory_size() == self.spec_guest_memory_size()
                &&& after.spec_l0() == self.spec_l0()
                &&& exists|inner: MapStep<'a>|
                    {
                        &&& #[trigger] mapped(
                            self.spec_shared()@,
                            metadata.l1->0.memfile_path@,
                            map_event,
                            after.spec_shared()@,
                            inner,
                        )
                        &&& match inner {
                            MapStep::Done(memfile) => {
                                &&& after.spec_l1() == Some(memfile)
                                &&& step is Done
                                &&& after.spec_metadata() == Some(metadata)
                            },
                            MapStep::Failed(error) => {
                                &&& step == InitStep::Failed(
                                    SnapshotLayerError::SharedMemfile(error),
                                )
                                &&& after.spec_l1() == self.spec_l1()
                                &&& after.spec_metadata() == self.spec_metadata()
                            },
                            _ => {
                                &&& step == (InitStep::Continue { layer: Layer::L1, step: inner })
                                &&& after.spec_l1() == self.spec_l1()
                                &&& after.spec_metadata() == self.spec_metadata()
                            },
                        }
                    }
            },
        }
    }

    /// Brings the statistics up to date with what is mapped.
    fn refresh_stats(&mut self)
        requires
            old(self).spec_shared().wf(),
            sound_memfile(old(self).spec_l0()),
            sound_memfile(old(self).spec_l1()),
            sum_of_sizes(old(self).spec_shared()@) <= u64::MAX,
        ensures
            final(self).wf(),
            final(self).spec_shared() == old(self).spec_shared(),
            final(self).spec_l0() == old(self).spec_l0(),
            final(self).spec_l1() == old(self).spec_l1(),
            final(self).spec_metadata() == old(self).spec_metadata(),
            final(self).spec_guest_memory_size() == old(self).spec_guest_memory_size(),
            final(self).spec_stats().overlay_memory_bytes
                == old(self).spec_stats().overlay_memory_bytes,
    {
        self.stats.shared_memory_bytes = self.shared_manager.total_bytes();
        self.stats.l0_shared_vms = match &self.l0_memfile {
            Some(memfile) => self.shared_manager.references(memfile.path.as_str()),
            None => 0,
        };
        self.stats.l1_shared_vms = match &self.l1_memfile {
            Some(memfile) => self.shared_manager.references(memfile.path.as_str()),
            None => 0,
        };
    }

    /// Initializes the layered snapshot system with the given metadata: maps the memfiles of the
    /// L0 and L1 layers that the metadata names, in this order, unless layered snapshots are
    /// disabled. The metadata is kept once all is mapped; the statistics follow what is mapped.
    ///
    /// The caller starts with `InitEvent::Requested`, does what each step says and hands back what
    /// came of it, until the step is `Done` or `Failed`.
    pub fn initialize(
        &mut self,
        metadata: &LayeredSnapshotMetadata,
        event: InitEvent<'a>,
    ) -> (step: InitStep<'a>)
        requires
            old(self).wf(),
            event is L0 ==> metadata.l0 is Some,
            event is L1 ==> metadata.l1 is Some,
            event matches InitEvent::L0(map_event) ==> countable(
                old(self).spec_shared()@,
                map_event,
            ),
            event matches InitEvent::L1(map_event) ==> countable(
                old(self).spec_shared()@,
                map_event,
            ),
        ensures
            final(self).wf(),
            final(self).spec_stats().overlay_memory_bytes
                == old(self).spec_stats().overlay_memory_bytes,
            old(self).initializes(*metadata, event, final(self), step),
    {
        match event {
            InitEvent::Requested => {
                if metadata.enabled {
                    self.guest_memory_size = metadata.guest_memory_size;
                    if metadata.l0.is_some() {
                        return InitStep::Begin { layer: Layer::L0 };
                    }
                    if metadata.l1.is_some() {
                        return InitStep::Begin { layer: Layer::L1 };
                    }
                }
                self.metadata = Some(metadata.clone());
                InitStep::Done
            },
            InitEvent::L0(map_event) => {
                let path: &str = match &metadata.l0 {
                    Some(l0) => l0.memfile_path.as_str(),
                    None => "",
                };
                let ghost answer = map_event;
                let inner = self.shared_manager.map(path, map_event);
                let ghost outcome = inner;
                proof {
                    law_mapping_adds_its_size(
                        old(self).spec_shared()@,
                        metadata.l0->0.memfile_path@,
                        answer,
                        self.spec_shared()@,
                        outcome,
                    );
                }
                let step = match inner {
                    MapStep::Done(memfile) => {
                        self.l0_memfile = Some(memfile);
                        if metadata.l1.is_some() {
                            InitStep::Begin { layer: Layer::L1 }
                        } else {
                            self.metadata = Some(metadata.clone());
                            InitStep::Done
                        }
                    },
                    MapStep::Failed(error) => InitStep::Failed(
                        SnapshotLayerError::SharedMemfile(error),
                    ),
                    inner => InitStep::Continue { layer: Layer::L0, step: inner },
                };
                self.refresh_stats();
                proof {
                    assert(mapped(
                        old(self).spec_shared()@,
                        metadata.l0->0.memfile_path@,
                        answer,
                        self.spec_shared()@,
                        outcome,
                    ));
                }
                step
            },
            InitEvent::L1(map_event) => {
                let path: &str = match &metadata.l1 {
                    Some(l1) => l1.memfile_path.as_str(),
                    None => "",
                };
                let ghost answer = map_event;
                let inner = self.shared_manager.map(path, map_event);
                let ghost outcome = inner;
                proof {
                    law_mapping_adds_its_size(
                        old(self).spec_shared()@,
                        metadata.l1->0.memfile_path@,
                        answer,
                        self.spec_shared()@,
                        outcome,
                    );
                }
                let step = match inner {
                    MapStep::Done(memfile) => {
                        self.l1_memfile = Some(memfile);
                        self.metadata = Some(metadata.clone());
                        InitStep::Done
                    },
                    MapStep::Failed(error) => InitStep::Failed(
                        SnapshotLayerError::SharedMemfile(error),
                    ),
                    inner => InitStep::Continue { layer: Layer::L1, step: inner },
                };
                self.refresh_stats();
                proof {
                    assert(mapped(
                        old(self).spec_shared()@,
                        metadata.l1->0.memfile_path@,
                        answer,
                        self.spec_shared()@,
                        outcome,
                    ));
                }
                step
            },
        }
    }

    /// Returns whether layered snapshots are enabled.
    pub fn is_enabled(&self) -> (r: bool)
        ensures
            r == (self.spec_metadata() matches Some(metadata) && metadata.enabled),
    {
        match &self.metadata {
            Some(metadata) => metadata.enabled,
            None => false,
        }
    }

    /// Returns the layered snapshot metadata.
    pub fn metadata(&self) -> (r: Option<&LayeredSnapshotMetadata>)
        ensures
            match self.spec_metadata() {
                Some(metadata) => r == Some(&metadata),
                None => r is None,
            },
    {
        self.metadata.as_ref()
    }

    /// Returns the L0 memfile.
    pub fn l0_memfile(&self) -> (r: Option<&Arc<SharedMemfile<'a>>>)
        ensures
            match self.spec_l0() {
                Some(memfile) => r == Some(&memfile),
                None => r is None,
            },
    {
        self.l0_memfile.as_ref()
    }

    /// Returns the L1 memfile.
    pub fn l1_memfile(&self) -> (r: Option<&Arc<SharedMemfile<'a>>>)
        ensures
            match self.spec_l1() {
                Some(memfile) => r == Some(&memfile),
                None => r is None,
            },
    {
        self.l1_memfile.as_ref()
    }

    /// Returns the guest memory size.
    pub fn guest_memory_size(&self) -> (r: u64)
        ensures
            r == self.spec_guest_memory_size(),
    {
        self.guest_memory_size
    }

    /// Creates a CoW overlay for a new VM instance (L2) over the L1 memfile, or else over the L0
    /// memfile, and counts its memory until it is closed.
    pub fn create_overlay(&mut self, overlay_path: &str, event: OverlayEvent<'a>) -> (r: Result<
        OverlayStep<'a>,
        SnapshotLayerError,
    >)
        requires
            old(self).wf(),
            event matches OverlayEvent::Mapped(data)
                ==> old(self).spec_stats().overlay_memory_bytes + (*data)@.len() <= u64::MAX,
        ensures
            final(self).same_layers(old(self)),
            final(self).wf(),
            final(self).spec_shared() == old(self).spec_shared(),
            final(self).spec_l0() == old(self).spec_l0(),
            final(self).spec_l1() == old(self).spec_l1(),
            final(self).spec_metadata() == old(self).spec_metadata(),
            final(self).spec_guest_memory_size() == old(self).spec_guest_memory_size(),
            final(self).spec_stats().overlay_memory_bytes
                == old(self).spec_stats().overlay_memory_bytes + match r {
                Ok(OverlayStep::Ready(overlay)) => overlay.overlay_bytes().len(),
                _ => 0,
            },
            match old(self).overlay_base() {
                None => r matches Err(SnapshotLayerError::LayerNotFound(cause)) && cause@
                    == "No base layer available for overlay"@,
                Some(base) => match r {
                    Ok(step) => !(step is Failed) && created(base, overlay_path@, event, step),
                    Err(SnapshotLayerError::CoWOverlay(error)) => created(
                        base,
                        overlay_path@,
                        event,
                        OverlayStep::Failed(error),
                    ),
                    Err(_) => false,
                },
            },
            old(self).spec_l1() matches Some(l1) ==> match r {
                Ok(OverlayStep::Ready(overlay)) => overlay.spec_base() == l1 && overlay@ == l1@,
                Ok(OverlayStep::SetLen { size }) => size == l1@.len(),
                Ok(OverlayStep::Mmap { request }) => request.len == l1@.len(),
                Err(error) => error is CoWOverlay,
                _ => true,
            },
            old(self).spec_l1() is None ==> match old(self).spec_l0() {
                Some(l0) => match r {
                    Ok(OverlayStep::Ready(overlay)) => overlay.spec_base() == l0 && overlay@ == l0@,
                    Ok(OverlayStep::SetLen { size }) => size == l0@.len(),
                    Ok(OverlayStep::Mmap { request }) => request.len == l0@.len(),
                    Err(error) => error is CoWOverlay,
                    _ => true,
                },
                None => r matches Err(SnapshotLayerError::LayerNotFound(_)),
            },
    {
        let base: &Arc<SharedMemfile<'a>> = match (&self.l1_memfile, &self.l0_memfile) {
            (Some(l1), _) => l1,
            (None, Some(l0)) => l0,
            (None, None) => {
                return Err(
                    SnapshotLayerError::LayerNotFound(
                        "No base layer available for overlay".to_owned(),
                    ),
                );
            },
        };
        match CoWOverlay::create(base, overlay_path, event) {
            OverlayStep::Failed(error) => Err(SnapshotLayerError::CoWOverlay(error)),
            OverlayStep::Ready(overlay) => {
                self.stats.overlay_memory_bytes = self.stats.overlay_memory_bytes + overlay.size();
                Ok(OverlayStep::Ready(overlay))
            },
            step => Ok(step),
        }
    }

    /// Closes an overlay that was created here: its memory is no longer counted.
    pub fn close_overlay(&mut self, overlay: CoWOverlay<'a>)
        requires
            old(self).wf(),
            overlay.wf(),
            overlay.overlay_bytes().len() <= old(self).spec_stats().overlay_memory_bytes,
        ensures
            final(self).same_layers(old(self)),
            final(self).wf(),
            final(self).spec_shared() == old(self).spec_shared(),
            final(self).spec_l0() == old(self).spec_l0(),
            final(self).spec_l1() == old(self).spec_l1(),
            final(self).spec_metadata() == old(self).spec_metadata(),
            final(self).spec_guest_memory_size() == old(self).spec_guest_memory_size(),
            final(self).spec_stats().overlay_memory_bytes
                == old(self).spec_stats().overlay_memory_bytes - overlay.overlay_bytes().len(),
    {
        self.stats.overlay_memory_bytes = self.stats.overlay_memory_bytes - overlay.size();
    }

    /// Builds memory layers for a VM instance.
    ///
    /// Returns the memory layers that compose the guest physical address space: L0 and L1, as far
    /// as they are there, and the overlay.
    pub fn build_memory_layers<'b>(&'b self, overlay: &'b CoWOverlay<'a>) -> (r: Result<
        Vec<MemoryLayer<'b>>,
        SnapshotLayerError,
    >)
        requires
            self.wf(),
            overlay.wf(),
        ensures
            r matches Ok(layers) && {
                let above_l0: int = if self.spec_l0() is Some {
                    1
                } else {
                    0
                };
                let above_l1: int = if self.spec_l1() is Some {
                    above_l0 + 1
                } else {
                    above_l0
                };
                &&& layers@.len() == above_l1 + 1
                &&& self.spec_l0() matches Some(l0) ==> layers@[0].is_shared_layer(l0@)
                &&& self.spec_l1() matches Some(l1) ==> layers@[above_l0].is_shared_layer(l1@)
                &&& layers@[above_l1].is_private_layer(
                    overlay.overlay_bytes(),
                    overlay.spec_path(),
                )
                &&& self.spec_l0() matches Some(l0) ==> layers@[0].data@ == l0@
                &&& self.spec_l1() matches Some(l1) ==> layers@[above_l0].data@ == l1@
                &&& layers@[above_l1].data@ == overlay.overlay_bytes()
                &&& layers@[above_l1].pre_merged_path matches Some(path)
                &&& path@ == overlay.spec_path()
                &&& forall|k: int|
                    0 <= k < layers@.len() ==> {
                        &&& (#[trigger] layers@[k]).size == layers@[k].data@.len()
                        &&& layers@[k].shared <==> k < above_l1
                        &&& layers@[k].pre_merged_path is Some <==> k == above_l1
                    }
            },
    {
        let mut layers: Vec<MemoryLayer<'b>> = Vec::new();
        if let Some(l0) = &self.l0_memfile {
            layers.push(
                MemoryLayer {
                    data: l0.data(),
                    size: l0.size,
                    shared: true,
                    pre_merged_path: None,
                },
            );
        }
        if let Some(l1) = &self.l1_memfile {
            layers.push(
                MemoryLayer {
                    data: l1.data(),
                    size: l1.size,
                    shared: true,
                    pre_merged_path: None,
                },
            );
        }
        layers.push(
            MemoryLayer {
                data: overlay.overlay_data(),
                size: overlay.size(),
                shared: false,
                pre_merged_path: Some(overlay.overlay_path().to_owned()),
            },
        );
        Ok(layers)
    }

    /// Creates a pre-merged memfile from L0+L1 for efficient cross-VM sharing: the concatenation
    /// of L0 and L1 data.
    pub fn create_merged_memfile(&self) -> (r: Result<MergedMemfile<'a>, SnapshotLayerError>)
        requires
            self.wf(),
            self.merged_bytes().len() <= u64::MAX,
        ensures
            match r {
                Ok(merged) => {
                    &&& self.merged_bytes().len() > 0
                    &&& merged.total_size == self.merged_bytes().len()
                    &&& concatenated(merged.parts@) == self.merged_bytes()
                },
                Err(SnapshotLayerError::InvalidConfig(cause)) => self.merged_bytes().len() == 0
                    && cause@ == "No layers to merge"@,
                Err(_) => false,
            },
            match (self.spec_l0(), self.spec_l1()) {
                (Some(l0), Some(l1)) => {
                    &&& r matches Ok(merged)
                    &&& merged.total_size == l0@.len() + l1@.len()
                    &&& merged.parts@.len() == 2
                    &&& merged.parts@[0]@ == l0@
                    &&& merged.parts@[1]@ == l1@
                },
                (Some(only), None) | (None, Some(only)) => {
                    &&& r matches Ok(merged)
                    &&& merged.total_size == only@.len()
                    &&& merged.parts@.len() == 1
                    &&& merged.parts@[0]@ == only@
                },
                (None, None) => r is Err,
            },
    {
        let mut total_size: u64 = 0;
        let mut parts: Vec<&'a [u8]> = Vec::new();
        if let Some(l0) = &self.l0_memfile {
            total_size = total_size + l0.size;
            parts.push(l0.data());
            assert(parts@.drop_last() =~= Seq::empty());
            assert(concatenated(parts@.drop_last()) =~= Seq::empty());
        }
        let ghost first = parts@;
        assert(concatenated(first) =~= bytes_of(self.spec_l0()));
        if let Some(l1) = &self.l1_memfile {
            total_size = total_size + l1.size;
            parts.push(l1.data());
            assert(parts@.drop_last() =~= first);
        }
        assert(concatenated(parts@) =~= self.merged_bytes());
        if total_size == 0 {
            return Err(SnapshotLayerError::InvalidConfig("No layers to merge".to_owned()));
        }
        Ok(MergedMemfile { total_size, parts })
    }

    /// Returns the shared memfile manager.
    pub fn shared_manager(&self) -> (r: &SharedMemfileManager<'a>)
        ensures
            *r == self.spec_shared(),
    {
        &self.shared_manager
    }

    /// Returns the current statistics.
    pub fn stats(&self) -> (r: &LayeredSnapshotStats)
        ensures
            *r == self.spec_stats(),
    {
        &self.stats
    }

    /// Cleans up resources: nothing is tracked any longer, and there are no base layers.
    pub fn cleanup(&mut self)
        ensures
            final(self).wf(),
            final(self).spec_shared()@.len() == 0,
            final(self).spec_l0() is None,
            final(self).spec_l1() is None,
            final(self).spec_metadata() == old(self).spec_metadata(),
            final(self).spec_stats() == (LayeredSnapshotStats {
                l0_shared_vms: 0,
                l1_shared_vms: 0,
                shared_memory_bytes: 0,
                overlay_memory_bytes: old(self).spec_stats().overlay_memory_bytes,
            }),
            final(self).spec_guest_memory_size() == old(self).spec_guest_memory_size(),
    {
        self.shared_manager.close();
        self.l0_memfile = None;
        self.l1_memfile = None;
        self.refresh_stats();
    }
}

impl<'a> Default for SnapshotLayerManager<'a> {
    fn default() -> (r: Self)
        ensures
            r.wf(),
            r.spec_shared()@.len() == 0,
            r.spec_l0() is None,
            r.spec_l1() is None,
            r.spec_metadata() is None,
            r.spec_guest_memory_size() == 0,
            r.spec_stats() == (LayeredSnapshotStats {
                l0_shared_vms: 0,
                l1_shared_vms: 0,
                shared_memory_bytes: 0,
                overlay_memory_bytes: 0,
            }),
    {
        Self::new()
    }
}

/// What came of the last step of creating a layered snapshot.
pub enum SnapshotEvent {
    /// A caller asks for the snapshot of a VM that is already paused or not.
    Requested { paused: bool },
    /// The VM is paused.
    VmPaused,
    /// The VM could not be paused.
    VmPauseFailed(String),
    /// The output directory is there.
    DirectoryReady,
    /// The snapshot of the VM is taken.
    VmSnapshotted,
    /// The snapshot of the VM could not be taken.
    VmSnapshotFailed(String),
    /// The snapshot state is saved.
    StateSaved,
    /// The configuration of the VM is locked.
    ConfigLocked,
    /// The configuration of the VM could not be locked.
    ConfigLockFailed(String),
    /// The configuration of the VM is saved.
    ConfigSaved,
    /// A file operation failed.
    IoFailed(String),
    /// Something could not be written as JSON.
    SerializationFailed(String),
}

/// The next step of creating a layered snapshot.
pub enum SnapshotStep {
    /// Pause the VM.
    PauseVm,
    /// Create the directory with all its parents.
    CreateDirectory { path: String },
    /// Take a snapshot of the VM.
    SnapshotVm,
    /// Write the snapshot of the VM as JSON to the file.
    SaveState { path: String },
    /// Lock the configuration of the VM.
    LockConfig,
    /// Write the configuration of the VM as JSON to the file.
    SaveConfig { path: String },
    /// The snapshot is there.
    Done(LayeredSnapshotMetadata),
    /// The snapshot failed.
    Failed(SnapshotLayerError),
}

/// A layer reference that may be absent is the same as another.
pub open spec fn same_layer_ref(layer: Option<LayerRef>, given: Option<&LayerRef>) -> bool {
    match given {
        Some(given) => layer == Some(*given),
        None => layer is None,
    }
}

/// What one step of creating a layered snapshot does: a VM that is not paused is paused; then its
/// snapshot is taken, and its state and its configuration are saved in the output directory. Every
/// failure ends it.
pub open spec fn snapshots_vm(
    output_dir: Seq<char>,
    l0_config: Option<&LayerRef>,
    l1_config: Option<&LayerRef>,
    event: SnapshotEvent,
    step: SnapshotStep,
) -> bool {
    match event {
        SnapshotEvent::Requested { paused } => if paused {
            step matches SnapshotStep::CreateDirectory { path } && path@ == output_dir
        } else {
            step is PauseVm
        },
        SnapshotEvent::VmPaused => step matches SnapshotStep::CreateDirectory { path } && path@
            == output_dir,
        SnapshotEvent::VmPauseFailed(cause) => step matches SnapshotStep::Failed(
            SnapshotLayerError::InvalidConfig(text),
        ) && text@ == "Failed to pause VM: "@ + cause@,
        SnapshotEvent::DirectoryReady => step is SnapshotVm,
        SnapshotEvent::VmSnapshotted => step matches SnapshotStep::SaveState { path } && path@
            == joined(output_dir, "state.json"@),
        SnapshotEvent::VmSnapshotFailed(cause) => step matches SnapshotStep::Failed(
            SnapshotLayerError::InvalidConfig(text),
        ) && text@ == "Failed to snapshot VM: "@ + cause@,
        SnapshotEvent::StateSaved => step is LockConfig,
        SnapshotEvent::ConfigLocked => step matches SnapshotStep::SaveConfig { path } && path@
            == joined(output_dir, "config.json"@),
        SnapshotEvent::ConfigLockFailed(cause) => step matches SnapshotStep::Failed(
            SnapshotLayerError::InvalidConfig(text),
        ) && text@ == "Failed to lock VM config: "@ + cause@,
        SnapshotEvent::ConfigSaved => step matches SnapshotStep::Done(metadata)
            && metadata.enabled && same_layer_ref(metadata.l0, l0_config) && same_layer_ref(
            metadata.l1,
            l1_config,
        ) && metadata.l2_memfile_size == 0 && metadata.guest_memory_size == 0,
        SnapshotEvent::IoFailed(cause) => step matches SnapshotStep::Failed(
            SnapshotLayerError::Io(text),
        ) && text@ == cause@,
        SnapshotEvent::SerializationFailed(cause) => step matches SnapshotStep::Failed(
            SnapshotLayerError::Serialization(text),
        ) && text@ == cause@,
    }
}

/// Creates a layered snapshot from a paused VM: pauses the VM if it is not already paused, takes
/// the snapshot of the VM, then saves its state and its configuration in the output directory. The
/// sizes in the metadata are left to the caller.
///
/// The caller starts with `SnapshotEvent::Requested`, does what each step says and hands back what
/// came of it, until the step is `Done` or `Failed`.
pub fn create_layered_snapshot(
    output_dir: &str,
    l0_config: Option<&LayerRef>,
    l1_config: Option<&LayerRef>,
    event: SnapshotEvent,
) -> (step: SnapshotStep)
    ensures
        snapshots_vm(output_dir@, l0_config, l1_config, event, step),
{
    match event {
        SnapshotEvent::Requested { paused } => {
            if paused {
                SnapshotStep::CreateDirectory { path: output_dir.to_owned() }
            } else {
                SnapshotStep::PauseVm
            }
        },
        SnapshotEvent::VmPaused => SnapshotStep::CreateDirectory { path: output_dir.to_owned() },
        SnapshotEvent::VmPauseFailed(cause) => SnapshotStep::Failed(
            SnapshotLayerError::InvalidConfig(concat("Failed to pause VM: ", cause.as_str())),
        ),
        SnapshotEvent::DirectoryReady => SnapshotStep::SnapshotVm,
        SnapshotEvent::VmSnapshotted => SnapshotStep::SaveState {
            path: join(output_dir, "state.json"),
        },
        SnapshotEvent::VmSnapshotFailed(cause) => SnapshotStep::Failed(
            SnapshotLayerError::InvalidConfig(concat("Failed to snapshot VM: ", cause.as_str())),
        ),
        SnapshotEvent::StateSaved => SnapshotStep::LockConfig,
        SnapshotEvent::ConfigLocked => SnapshotStep::SaveConfig {
            path: join(output_dir, "config.json"),
        },
        SnapshotEvent::ConfigLockFailed(cause) => SnapshotStep::Failed(
            SnapshotLayerError::InvalidConfig(concat("Failed to lock VM config: ", cause.as_str())),
        ),
        SnapshotEvent::ConfigSaved => SnapshotStep::Done(
            LayeredSnapshotMetadata {
                enabled: true,
                l0: clone_layer_ref(l0_config),
                l1: clone_layer_ref(l1_config),
                l2_memfile_size: 0,
                guest_memory_size: 0,
            },
        ),
        SnapshotEvent::IoFailed(cause) => SnapshotStep::Failed(SnapshotLayerError::Io(cause)),
        SnapshotEvent::SerializationFailed(cause) => SnapshotStep::Failed(
            SnapshotLayerError::Serialization(cause),
        ),
    }
}

/// What came of the last step of restoring a VM.
pub enum RestoreEvent {
    /// A caller asks for the VM.
    Requested,
    /// The layer manager is initialized.
    Initialized,
    /// The overlay is there.
    OverlayCreated,
    /// Whether there is a file at the path of the checkpoint itself, and whether there are its data
    /// file and its bitmap file.
    CheckpointProbed { itself: bool, data: bool, bitmap: bool },
    /// The checkpoint is loaded into the overlay.
    CheckpointLoaded,
    /// Page faults are handled.
    UffdReady,
    /// The state file is read.
    StateRead,
    /// The state is parsed.
    StateParsed,
    /// The VM is restored.
    VmRestored,
    /// The VM could not be restored.
    VmRestoreFailed(String),
    /// The last step failed otherwise; userfaultfd fails with `SnapshotLayerError::Uffd`.
    Failed(SnapshotLayerError),
}

/// The next step of restoring a VM.
pub enum RestoreStep {
    /// Initialize a new layer manager with the metadata.
    Initialize,
    /// Create the overlay at the path over the base layers.
    CreateOverlay { path: String },
    /// Look which of these files exist.
    ProbeCheckpoint { path: String, data_path: String, bitmap_path: String },
    /// Load the checkpoint at the path into the overlay.
    LoadCheckpoint { path: String },
    /// Set up a userfaultfd handler over the overlay for demand-paging, and start it.
    SetUpUffd,
    /// Read the state file.
    ReadState { path: String },
    /// Parse what was read from the state file.
    ParseState,
    /// Restore the VM from the parsed state.
    RestoreVm,
    /// The VM is restored.
    Done,
    /// The VM could not be restored.
    Failed(SnapshotLayerError),
}

/// Whether there is a checkpoint to load: a file at its own path, or both files that saving one
/// writes. A single one of the two is what a save that broke off has left, and no checkpoint.
pub open spec fn checkpoint_exists(itself: bool, data: bool, bitmap: bool) -> bool {
    itself || (data && bitmap)
}

/// What one step of restoring a VM does: the base layers are mapped, the overlay is created over
/// them, the L2 checkpoint is loaded into it if there is one, userfaultfd is set up over it, and
/// the VM state is read, parsed and restored. Every failure ends it.
pub open spec fn restores_vm(
    metadata: LayeredSnapshotMetadata,
    snapshot_dir: Seq<char>,
    overlay_dir: Seq<char>,
    event: RestoreEvent,
    step: RestoreStep,
) -> bool {
    match event {
        RestoreEvent::Requested => if metadata.enabled {
            step is Initialize
        } else {
            step matches RestoreStep::Failed(SnapshotLayerError::InvalidConfig(text)) && text@
                == "Layered snapshots not enabled"@
        },
        RestoreEvent::Initialized => step matches RestoreStep::CreateOverlay { path } && path@
            == joined(overlay_dir, "l2.overlay"@),
        RestoreEvent::OverlayCreated => step matches RestoreStep::ProbeCheckpoint {
            path,
            data_path,
            bitmap_path,
        } && path@ == joined(snapshot_dir, "l2.checkpoint"@) && data_path@ == joined(
            snapshot_dir,
            "l2.checkpoint"@,
        ) + ".data"@ && bitmap_path@ == joined(snapshot_dir, "l2.checkpoint"@) + ".bitmap"@,
        RestoreEvent::CheckpointProbed { itself, data, bitmap } => if checkpoint_exists(
            itself,
            data,
            bitmap,
        ) {
            step matches RestoreStep::LoadCheckpoint { path } && path@ == joined(
                snapshot_dir,
                "l2.checkpoint"@,
            )
        } else {
            step is SetUpUffd
        },
        RestoreEvent::CheckpointLoaded => step is SetUpUffd,
        RestoreEvent::UffdReady => step matches RestoreStep::ReadState { path } && path@
            == joined(snapshot_dir, "state.json"@),
        RestoreEvent::StateRead => step is ParseState,
        RestoreEvent::StateParsed => step is RestoreVm,
        RestoreEvent::VmRestored => step is Done,
        RestoreEvent::VmRestoreFailed(cause) => step matches RestoreStep::Failed(
            SnapshotLayerError::InvalidConfig(text),
        ) && text@ == "Failed to restore VM: "@ + cause@,
        RestoreEvent::Failed(error) => step == RestoreStep::Failed(error),
    }
}

/// Restores a VM from a layered snapshot: maps the base layers, creates the overlay over them,
/// loads the L2 checkpoint into it if there is one, sets up userfaultfd for demand-paging, and
/// restores the VM state.
///
/// The caller starts with `RestoreEvent::Requested`, does what each step says and hands back what
/// came of it, until the step is `Done` or `Failed`.
pub fn restore_from_layered_snapshot(
    metadata: &LayeredSnapshotMetadata,
    snapshot_dir: &str,
    overlay_dir: &str,
    event: RestoreEvent,
) -> (step: RestoreStep)
    ensures
        restores_vm(*metadata, snapshot_dir@, overlay_dir@, event, step),
{
    match event {
        RestoreEvent::Requested => {
            if metadata.enabled {
                RestoreStep::Initialize
            } else {
                RestoreStep::Failed(
                    SnapshotLayerError::InvalidConfig("Layered snapshots not enabled".to_owned()),
                )
            }
        },
        RestoreEvent::Initialized => RestoreStep::CreateOverlay {
            path: join(overlay_dir, "l2.overlay"),
        },
        RestoreEvent::OverlayCreated => {
            let checkpoint = join(snapshot_dir, "l2.checkpoint");
            let data_path = checkpoint_data_path(checkpoint.as_str());
            let bitmap_path = checkpoint_bitmap_path(checkpoint.as_str());
            RestoreStep::ProbeCheckpoint { path: checkpoint, data_path, bitmap_path }
        },
        RestoreEvent::CheckpointProbed { itself, data, bitmap } => {
            if itself || (data && bitmap) {
                RestoreStep::LoadCheckpoint { path: join(snapshot_dir, "l2.checkpoint") }
            } else {
                RestoreStep::SetUpUffd
            }
        },
        RestoreEvent::CheckpointLoaded => RestoreStep::SetUpUffd,
        RestoreEvent::UffdReady => RestoreStep::ReadState {
            path: join(snapshot_dir, "state.json"),
        },
        RestoreEvent::StateRead => RestoreStep::ParseState,
        RestoreEvent::StateParsed => RestoreStep::RestoreVm,
        RestoreEvent::VmRestored => RestoreStep::Done,
        RestoreEvent::VmRestoreFailed(cause) => RestoreStep::Failed(
            SnapshotLayerError::InvalidConfig(concat("Failed to restore VM: ", cause.as_str())),
        ),
        RestoreEvent::Failed(error) => RestoreStep::Failed(error),
    }
}

/// What can come of a step of the initialization.
pub open spec fn init_answers<'a>(step: InitStep<'a>, event: InitEvent<'a>) -> bool {
    match step {
        InitStep::Begin { layer } => match event {
            InitEvent::L0(inner) => layer == Layer::L0 && inner is Requested,
            InitEvent::L1(inner) => layer == Layer::L1 && inner is Requested,
            InitEvent::Requested => false,
        },
        InitStep::Continue { layer, step: asked } => match event {
            InitEvent::L0(inner) => layer == Layer::L0 && map_answers(asked, inner),
            InitEvent::L1(inner) => layer == Layer::L1 && map_answers(asked, inner),
            InitEvent::Requested => false,
        },
        InitStep::Done => false,
        InitStep::Failed(_) => false,
    }
}

/// What a step of the initialization starts from: the manager, and what came of the last step.
pub struct InitInput<'a> {
    pub before: SnapshotLayerManager<'a>,
    pub event: InitEvent<'a>,
}

/// What a step of the initialization gives: the manager then, and the next step.
pub struct InitOutput<'a> {
    pub after: SnapshotLayerManager<'a>,
    pub step: InitStep<'a>,
}

/// A run of the initialization of a manager.
pub open spec fn is_init_run<'a>(
    manager: SnapshotLayerManager<'a>,
    metadata: LayeredSnapshotMetadata,
    run: Seq<Turn<InitInput<'a>, InitOutput<'a>>>,
) -> bool {
    is_run(
        run,
        |input: InitInput<'a>| input.before == manager && input.event is Requested,
        |input: InitInput<'a>, output: InitOutput<'a>|
            input.before.initializes(metadata, input.event, &output.after, output.step),
        |output: InitOutput<'a>, input: InitInput<'a>|
            input.before == output.after && init_answers(output.step, input.event),
    )
}

/// The memfile is the one of the layer that a reference names; there is none to ask for without a
/// reference.
pub open spec fn is_mapped_layer(
    memfile: Option<Arc<SharedMemfile>>,
    layer_ref: Option<LayerRef>,
) -> bool {
    layer_ref matches Some(layer_ref) ==> memfile matches Some(memfile) && path_key(memfile.path@)
        == path_key(layer_ref.memfile_path@)
}

/// A step that is about the L1 memfile.
pub open spec fn is_about_l1(step: InitStep) -> bool {
    match step {
        InitStep::Begin { layer } => layer == Layer::L1,
        InitStep::Continue { layer, .. } => layer == Layer::L1,
        _ => false,
    }
}

/// In every run of the initialization the L1 memfile is mapped only after the L0 memfile is there,
/// and the run is done only when both are, as far as the metadata names them. The metadata is kept
/// then, and not before; the memory size of the guest is taken from it. A layer that the metadata
/// does not name stays as it was. Without layered snapshots the run is done at once.
pub proof fn law_init_order<'a>(
    manager: SnapshotLayerManager<'a>,
    metadata: LayeredSnapshotMetadata,
    run: Seq<Turn<InitInput<'a>, InitOutput<'a>>>,
    i: int,
)
    requires
        is_init_run(manager, metadata, run),
        0 <= i < run.len(),
    ensures
        !metadata.enabled ==> i == 0 && run[0].step.step is Done,
        is_about_l1(run[i].step.step) ==> is_mapped_layer(run[i].step.after.spec_l0(), metadata.l0),
        run[i].step.step is Done && metadata.enabled ==> is_mapped_layer(
            run[i].step.after.spec_l0(),
            metadata.l0,
        ) && is_mapped_layer(run[i].step.after.spec_l1(), metadata.l1),
        run[i].step.after.spec_metadata() == if run[i].step.step is Done {
            Some(metadata)
        } else {
            manager.spec_metadata()
        },
        run[i].step.after.spec_guest_memory_size() == if metadata.enabled {
            metadata.guest_memory_size
        } else {
            manager.spec_guest_memory_size()
        },
        !metadata.enabled || metadata.l0 is None ==> {
            &&& run[i].step.after.spec_l0() == manager.spec_l0()
            &&& !(run[i].event.event is L0)
        },
        !metadata.enabled || metadata.l1 is None ==> {
            &&& run[i].step.after.spec_l1() == manager.spec_l1()
            &&& !(run[i].event.event is L1)
        },
        !metadata.enabled ==> run[i].step.after.spec_shared() == manager.spec_shared(),
        !(run[i].step.step is Done) ==> run[i].step.after.spec_l1() == manager.spec_l1(),
        run[i].step.step matches InitStep::Begin { layer } ==> (layer == Layer::L0
            ==> run[i].step.after.spec_l0() == manager.spec_l0()),
        run[i].step.step matches InitStep::Continue { layer, .. } ==> (layer == Layer::L0
            ==> run[i].step.after.spec_l0() == manager.spec_l0()),
        run[i].event.event is L0 && run[i].step.step is Failed ==> run[i].step.after.spec_l0()
            == manager.spec_l0(),
        run[i].step.step is Failed ==> i > 0,
    decreases i,
{
    let answers = |output: InitOutput<'a>, input: InitInput<'a>|
        input.before == output.after && init_answers(output.step, input.event);
    if i > 0 {
        law_init_order(manager, metadata, run, i - 1);
        assert(answered(run, i, answers));
        assert(init_answers(run[i - 1].step.step, run[i].event.event));
    }
    let follows = |input: InitInput<'a>, output: InitOutput<'a>|
        input.before.initializes(metadata, input.event, &output.after, output.step);
    assert(follows(run[i].event, run[i].step));
}

/// What can come of a step of creating a layered snapshot.
pub open spec fn snapshot_answers(step: SnapshotStep, event: SnapshotEvent) -> bool {
    match step {
        SnapshotStep::PauseVm => event is VmPaused || event is VmPauseFailed,
        SnapshotStep::CreateDirectory { .. } => event is DirectoryReady || event is IoFailed,
        SnapshotStep::SnapshotVm => event is VmSnapshotted || event is VmSnapshotFailed,
        SnapshotStep::SaveState { .. } => event is StateSaved || event is IoFailed || event
            is SerializationFailed,
        SnapshotStep::LockConfig => event is ConfigLocked || event is ConfigLockFailed,
        SnapshotStep::SaveConfig { .. } => event is ConfigSaved || event is IoFailed || event
            is SerializationFailed,
        SnapshotStep::Done(_) => false,
        SnapshotStep::Failed(_) => false,
    }
}

/// Where a step of creating a layered snapshot has its place in a run that starts with the pause.
pub open spec fn snapshot_place(step: SnapshotStep) -> int {
    match step {
        SnapshotStep::PauseVm => 0,
        SnapshotStep::CreateDirectory { .. } => 1,
        SnapshotStep::SnapshotVm => 2,
        SnapshotStep::SaveState { .. } => 3,
        SnapshotStep::LockConfig => 4,
        SnapshotStep::SaveConfig { .. } => 5,
        SnapshotStep::Done(_) => 6,
        SnapshotStep::Failed(_) => 7,
    }
}

/// A run of creating a layered snapshot of a VM that is already paused or not.
pub open spec fn is_snapshot_run(
    output_dir: Seq<char>,
    l0_config: Option<&LayerRef>,
    l1_config: Option<&LayerRef>,
    paused: bool,
    run: Seq<Turn<SnapshotEvent, SnapshotStep>>,
) -> bool {
    is_run(
        run,
        |event: SnapshotEvent| event == (SnapshotEvent::Requested { paused }),
        |event: SnapshotEvent, step: SnapshotStep|
            snapshots_vm(output_dir, l0_config, l1_config, event, step),
        |step: SnapshotStep, event: SnapshotEvent| snapshot_answers(step, event),
    )
}

/// Every run of creating a layered snapshot takes its steps in the same order, until it fails; the
/// pause is left out if the VM is paused. So a snapshot is taken only of a paused VM, and what is
/// returned comes after its state and its configuration are saved, in files of the output directory
/// that is created first. What is returned names just the layers that were given.
pub proof fn law_snapshot_order(
    output_dir: Seq<char>,
    l0_config: Option<&LayerRef>,
    l1_config: Option<&LayerRef>,
    paused: bool,
    run: Seq<Turn<SnapshotEvent, SnapshotStep>>,
    i: int,
)
    requires
        is_snapshot_run(output_dir, l0_config, l1_config, paused, run),
        0 <= i < run.len(),
    ensures
        ({
            let skipped: int = if paused {
                1
            } else {
                0
            };
            &&& run[i].step is Failed || snapshot_place(run[i].step) == i + skipped
            &&& forall|j: int|
                0 <= j < i ==> snapshot_place((#[trigger] run[j]).step) == j + skipped
        }),
        run[i].step is SnapshotVm && !paused ==> {
            &&& i == 2
            &&& run[0].step is PauseVm
            &&& run[1].event is VmPaused
        },
        run[i].step matches SnapshotStep::CreateDirectory { path } ==> path@ == output_dir,
        run[i].step matches SnapshotStep::SaveState { path } ==> path@ == joined(
            output_dir,
            "state.json"@,
        ),
        run[i].step matches SnapshotStep::SaveConfig { path } ==> path@ == joined(
            output_dir,
            "config.json"@,
        ),
        run[i].step matches SnapshotStep::Done(metadata) ==> {
            &&& metadata.enabled
            &&& l0_config matches Some(l0) ==> metadata.l0 == Some(*l0)
            &&& l0_config is None ==> metadata.l0 is None
            &&& l1_config matches Some(l1) ==> metadata.l1 == Some(*l1)
            &&& l1_config is None ==> metadata.l1 is None
            &&& metadata.l2_memfile_size == 0
            &&& metadata.guest_memory_size == 0
        },
    decreases i,
{
    let answers = |step: SnapshotStep, event: SnapshotEvent| snapshot_answers(step, event);
    if i > 0 {
        law_snapshot_order(output_dir, l0_config, l1_config, paused, run, i - 1);
        assert(answered(run, i, answers));
        assert(snapshot_answers(run[i - 1].step, run[i].event));
    }
    assert(snapshots_vm(output_dir, l0_config, l1_config, run[i].event, run[i].step));
    if i > 1 {
        assert(answered(run, 1, answers));
        assert(snapshots_vm(output_dir, l0_config, l1_config, run[1].event, run[1].step));
    }
}

/// What can come of a step of restoring a VM.
pub open spec fn restore_answers(step: RestoreStep, event: RestoreEvent) -> bool {
    match step {
        RestoreStep::Initialize => event is Initialized || event is Failed,
        RestoreStep::CreateOverlay { .. } => event is OverlayCreated || event is Failed,
        RestoreStep::ProbeCheckpoint { .. } => event is CheckpointProbed,
        RestoreStep::LoadCheckpoint { .. } => event is CheckpointLoaded || event is Failed,
        RestoreStep::SetUpUffd => event is UffdReady || event is Failed,
        RestoreStep::ReadState { .. } => event is StateRead || event is Failed,
        RestoreStep::ParseState => event is StateParsed || event is Failed,
        RestoreStep::RestoreVm => event is VmRestored || event is VmRestoreFailed,
        RestoreStep::Done => false,
        RestoreStep::Failed(_) => false,
    }
}

/// Where a step of restoring a VM has its place in a run that loads a checkpoint.
pub open spec fn restore_place(step: RestoreStep) -> int {
    match step {
        RestoreStep::Initialize => 0,
        RestoreStep::CreateOverlay { .. } => 1,
        RestoreStep::ProbeCheckpoint { .. } => 2,
        RestoreStep::LoadCheckpoint { .. } => 3,
        RestoreStep::SetUpUffd => 4,
        RestoreStep::ReadState { .. } => 5,
        RestoreStep::ParseState => 6,
        RestoreStep::RestoreVm => 7,
        RestoreStep::Done => 8,
        RestoreStep::Failed(_) => 9,
    }
}

/// A run of restoring a VM.
pub open spec fn is_restore_run(
    metadata: LayeredSnapshotMetadata,
    snapshot_dir: Seq<char>,
    overlay_dir: Seq<char>,
    run: Seq<Turn<RestoreEvent, RestoreStep>>,
) -> bool {
    is_run(
        run,
        |event: RestoreEvent| event is Requested,
        |event: RestoreEvent, step: RestoreStep|
            restores_vm(metadata, snapshot_dir, overlay_dir, event, step),
        |step: RestoreStep, event: RestoreEvent| restore_answers(step, event),
    )
}

/// Whether a run of restoring a VM passes over the loading of a checkpoint: there is none.
pub open spec fn skips_checkpoint(run: Seq<Turn<RestoreEvent, RestoreStep>>) -> bool {
    run.len() > 3 && match run[3].event {
        RestoreEvent::CheckpointProbed { itself, data, bitmap } => !checkpoint_exists(
            itself,
            data,
            bitmap,
        ),
        _ => false,
    }
}

/// Every run of restoring a VM takes its steps in the same order, until it fails; the loading is
/// left out if there is no checkpoint. So a VM is restored only when its layers are mapped, its
/// overlay is there with the checkpoint in it, and its page faults are handled; and nothing is
/// restored unless layered snapshots are enabled.
pub proof fn law_restore_order(
    metadata: LayeredSnapshotMetadata,
    snapshot_dir: Seq<char>,
    overlay_dir: Seq<char>,
    run: Seq<Turn<RestoreEvent, RestoreStep>>,
    i: int,
)
    requires
        is_restore_run(metadata, snapshot_dir, overlay_dir, run),
        0 <= i < run.len(),
    ensures
        ({
            let skipped: int = if skips_checkpoint(run) {
                1
            } else {
                0
            };
            let place = |j: int|
                if j < 3 {
                    j
                } else {
                    j + skipped
                };
            &&& run[i].step is Failed || restore_place(run[i].step) == place(i)
            &&& forall|j: int| 0 <= j < i ==> restore_place((#[trigger] run[j]).step) == place(j)
            &&& run[i].step is RestoreVm ==> {
                &&& metadata.enabled
                &&& i == 7 - skipped
                &&& run[1].event is Initialized
                &&& run[2].event is OverlayCreated
                &&& run[3].event is CheckpointProbed
                &&& run[3].step is LoadCheckpoint <==> !skips_checkpoint(run)
                &&& run[4 - skipped].step is SetUpUffd
                &&& run[5 - skipped].event is UffdReady
            }
        }),
    decreases i,
{
    let answers = |step: RestoreStep, event: RestoreEvent| restore_answers(step, event);
    if i > 0 {
        law_restore_order(metadata, snapshot_dir, overlay_dir, run, i - 1);
        assert(answered(run, i, answers));
        assert(restore_answers(run[i - 1].step, run[i].event));
    }
    assert(restores_vm(metadata, snapshot_dir, overlay_dir, run[i].event, run[i].step));
    if i > 5 {
        assert(restores_vm(metadata, snapshot_dir, overlay_dir, run[0].event, run[0].step));
        assert(answered(run, 1, answers));
        assert(restores_vm(metadata, snapshot_dir, overlay_dir, run[1].event, run[1].step));
        assert(answered(run, 2, answers));
        assert(restores_vm(metadata, snapshot_dir, overlay_dir, run[2].event, run[2].step));
        assert(answered(run, 3, answers));
        assert(restores_vm(metadata, snapshot_dir, overlay_dir, run[3].event, run[3].step));
        assert(answered(run, 4, answers));
        assert(restores_vm(metadata, snapshot_dir, overlay_dir, run[4].event, run[4].step));
        assert(answered(run, 5, answers));
        assert(restores_vm(metadata, snapshot_dir, overlay_dir, run[5].event, run[5].step));
    }
}

/// A merged memfile holds the L0 data first and the L1 data after it, and nothing else.
pub proof fn law_merged_layout(manager: &SnapshotLayerManager)
    requires
        manager.wf(),
    ensures
        match (manager.spec_l0(), manager.spec_l1()) {
            (Some(l0), Some(l1)) => {
                &&& manager.merged_bytes().len() == l0@.len() + l1@.len()
                &&& manager.merged_bytes().take(l0@.len() as int) == l0@
                &&& manager.merged_bytes().skip(l0@.len() as int) == l1@
            },
            (Some(only), None) | (None, Some(only)) => manager.merged_bytes() == only@,
            (None, None) => true,
        },
        manager.merged_bytes().len() == 0 <==> manager.spec_l0() is None && manager.spec_l1()
            is None,
{
    let first = bytes_of(manager.spec_l0());
    assert(manager.merged_bytes().take(first.len() as int) =~= first);
    assert(manager.merged_bytes().skip(first.len() as int) =~= bytes_of(manager.spec_l1()));
}

/// A step of creating a layered snapshot fails if the last one failed, and not otherwise. The error
/// says what could not be done to the VM, and why; what failed in a file is passed on as it is.
pub proof fn law_snapshot_failures(
    output_dir: Seq<char>,
    l0_config: Option<&LayerRef>,
    l1_config: Option<&LayerRef>,
    event: SnapshotEvent,
    step: SnapshotStep,
)
    requires
        snapshots_vm(output_dir, l0_config, l1_config, event, step),
    ensures
        step is Failed <==> event is VmPauseFailed || event is VmSnapshotFailed || event
            is ConfigLockFailed || event is IoFailed || event is SerializationFailed,
        step matches SnapshotStep::Failed(error) ==> match error {
            SnapshotLayerError::InvalidConfig(text) => {
                ||| event matches SnapshotEvent::VmPauseFailed(cause) && text@
                    == "Failed to pause VM: "@ + cause@
                ||| event matches SnapshotEvent::VmSnapshotFailed(cause) && text@
                    == "Failed to snapshot VM: "@ + cause@
                ||| event matches SnapshotEvent::ConfigLockFailed(cause) && text@
                    == "Failed to lock VM config: "@ + cause@
            },
            SnapshotLayerError::Io(text) => event matches SnapshotEvent::IoFailed(cause) && text@
                == cause@,
            SnapshotLayerError::Serialization(text) => event
                matches SnapshotEvent::SerializationFailed(cause) && text@ == cause@,
            _ => false,
        },
{
}

/// What a run of restoring a VM asks for depends on the two directories alone: the overlay is
/// created in the one, and the checkpoint and the state are looked for in the other. The checkpoint
/// that is looked for is the one that is loaded, and it is loaded just if there is a file at its
/// path or both files beside it. What failed is passed on as it is.
pub proof fn law_restore_files(
    metadata: LayeredSnapshotMetadata,
    snapshot_dir: Seq<char>,
    overlay_dir: Seq<char>,
    run: Seq<Turn<RestoreEvent, RestoreStep>>,
    i: int,
)
    requires
        is_restore_run(metadata, snapshot_dir, overlay_dir, run),
        0 <= i < run.len(),
    ensures
        run[i].step matches RestoreStep::CreateOverlay { path } ==> path@ == joined(
            overlay_dir,
            "l2.overlay"@,
        ),
        run[i].step matches RestoreStep::ReadState { path } ==> path@ == joined(
            snapshot_dir,
            "state.json"@,
        ),
        run[i].step matches RestoreStep::ProbeCheckpoint { path, data_path, bitmap_path } ==> path@
            == joined(snapshot_dir, "l2.checkpoint"@) && data_path@ == path@ + ".data"@
            && bitmap_path@ == path@ + ".bitmap"@,
        run[i].step matches RestoreStep::LoadCheckpoint { path } ==> i == 3 && (run[2].step
            matches RestoreStep::ProbeCheckpoint { path: probed, .. } && path@ == probed@),
        run[i].event matches RestoreEvent::CheckpointProbed { itself, data, bitmap } ==> (
        run[i].step is LoadCheckpoint <==> itself || (data && bitmap)) && (run[i].step is SetUpUffd
            <==> !itself && !(data && bitmap)),
        run[i].step is Failed <==> (i == 0 && !metadata.enabled) || run[i].event is Failed
            || run[i].event is VmRestoreFailed,
        run[i].event matches RestoreEvent::Failed(error) ==> run[i].step == RestoreStep::Failed(
            error,
        ),
        run[i].event matches RestoreEvent::VmRestoreFailed(cause) ==> (run[i].step
            matches RestoreStep::Failed(SnapshotLayerError::InvalidConfig(text)) && text@
            == "Failed to restore VM: "@ + cause@),
        !metadata.enabled ==> (run[0].step matches RestoreStep::Failed(
            SnapshotLayerError::InvalidConfig(text),
        ) && text@ == "Layered snapshots not enabled"@),
{
    law_restore_order(metadata, snapshot_dir, overlay_dir, run, i);
    let answers = |step: RestoreStep, event: RestoreEvent| restore_answers(step, event);
    assert(restores_vm(metadata, snapshot_dir, overlay_dir, run[0].event, run[0].step));
    if i > 0 {
        assert(answered(run, i, answers));
        assert(restore_answers(run[i - 1].step, run[i].event));
        assert(restores_vm(metadata, snapshot_dir, overlay_dir, run[i - 1].event, run[i - 1].step));
    }
    assert(restores_vm(metadata, snapshot_dir, overlay_dir, run[i].event, run[i].step));
}

/// Restoring reads the state where creating a snapshot in the same directory saved it, whatever
/// layers the one was given and the metadata of the other names.
pub proof fn law_restore_reads_saved_state(
    dir: Seq<char>,
    l0_config: Option<&LayerRef>,
    l1_config: Option<&LayerRef>,
    paused: bool,
    saving: Seq<Turn<SnapshotEvent, SnapshotStep>>,
    i: int,
    metadata: LayeredSnapshotMetadata,
    overlay_dir: Seq<char>,
    restoring: Seq<Turn<RestoreEvent, RestoreStep>>,
    j: int,
)
    requires
        is_snapshot_run(dir, l0_config, l1_config, paused, saving),
        is_restore_run(metadata, dir, overlay_dir, restoring),
        0 <= i < saving.len(),
        0 <= j < restoring.len(),
        saving[i].step is SaveState,
        restoring[j].step is ReadState,
    ensures
        saving[i].step->SaveState_path@ == restoring[j].step->ReadState_path@,
{
    law_snapshot_order(dir, l0_config, l1_config, paused, saving, i);
    law_restore_files(metadata, dir, overlay_dir, restoring, j);
}

/// Restoring from the same directories takes the same steps for any two metadata: all that matters
/// of them is whether layered snapshots are enabled, and that only at the start.
pub proof fn law_restore_ignores_layer_paths(
    metadata: LayeredSnapshotMetadata,
    other: LayeredSnapshotMetadata,
    snapshot_dir: Seq<char>,
    overlay_dir: Seq<char>,
    event: RestoreEvent,
    step: RestoreStep,
)
    requires
        event is Requested ==> metadata.enabled == other.enabled,
        restores_vm(metadata, snapshot_dir, overlay_dir, event, step),
    ensures
        restores_vm(other, snapshot_dir, overlay_dir, event, step),
{
}

/// A new overlay lies over L1 whenever there is one, and reads as L1 does, whatever the two layers
/// hold; only without L1 it lies over L0.
pub proof fn law_overlay_lies_over_top_layer<'a>(
    manager: &SnapshotLayerManager<'a>,
    base: Arc<SharedMemfile<'a>>,
    overlay_path: Seq<char>,
    event: OverlayEvent<'a>,
    overlay: CoWOverlay<'a>,
)
    requires
        manager.overlay_base() == Some(base),
        created(base, overlay_path, event, OverlayStep::Ready(overlay)),
    ensures
        manager.spec_l1() matches Some(l1) ==> overlay.spec_base() == l1 && overlay@ == l1@,
        manager.spec_l1() is None ==> (manager.spec_l0() matches Some(l0) && overlay.spec_base()
            == l0 && overlay@ == l0@),
        overlay.spec_path() == overlay_path,
{
}

/// The statistics tell how much memory is shared, and how many references are held to the memfile of
/// each layer.
pub proof fn law_stats(manager: &SnapshotLayerManager)
    requires
        manager.wf(),
    ensures
        manager.spec_stats().shared_memory_bytes == sum_of_sizes(manager.spec_shared()@),
        manager.spec_l0() matches Some(l0) ==> manager.spec_stats().l0_shared_vms == references_to(
            manager.spec_shared()@,
            l0.path@,
        ),
        manager.spec_l0() is None ==> manager.spec_stats().l0_shared_vms == 0,
        manager.spec_l1() matches Some(l1) ==> manager.spec_stats().l1_shared_vms == references_to(
            manager.spec_shared()@,
            l1.path@,
        ),
        manager.spec_l1() is None ==> manager.spec_stats().l1_shared_vms == 0,
{
}

/// Pieces one after the other: nothing for no piece, and each further piece at the end.
pub proof fn law_concatenated(parts: Seq<&[u8]>, part: &[u8])
    ensures
        concatenated(Seq::empty()) == Seq::<u8>::empty(),
        concatenated(parts.push(part)) == concatenated(parts) + part@,
{
    assert(parts.push(part).drop_last() =~= parts);
}

/// The text of an error ends with its cause, and what stands before that depends on the kind of the
/// error alone.
pub proof fn law_layer_error_text(error: SnapshotLayerError, other: SnapshotLayerError)
    ensures
        match (error, other) {
            (
                SnapshotLayerError::LayerNotFound(cause),
                SnapshotLayerError::LayerNotFound(b),
            ) => ends_with(error.text(), cause@)
                && before_end(error.text(), cause@) == before_end(other.text(), b@),
            (
                SnapshotLayerError::InvalidConfig(cause),
                SnapshotLayerError::InvalidConfig(b),
            ) => ends_with(error.text(), cause@)
                && before_end(error.text(), cause@) == before_end(other.text(), b@),
            (
                SnapshotLayerError::Io(cause),
                SnapshotLayerError::Io(b),
            ) => ends_with(error.text(), cause@)
                && before_end(error.text(), cause@) == before_end(other.text(), b@),
            (
                SnapshotLayerError::Serialization(cause),
                SnapshotLayerError::Serialization(b),
            ) => ends_with(error.text(), cause@)
                && before_end(error.text(), cause@) == before_end(other.text(), b@),
            (
                SnapshotLayerError::SharedMemfile(cause),
                SnapshotLayerError::SharedMemfile(b),
            ) => ends_with(
                error.text(),
                cause.text(),
            ) && before_end(error.text(), cause.text()) == before_end(other.text(), b.text()),
            (SnapshotLayerError::CoWOverlay(cause), SnapshotLayerError::CoWOverlay(b)) => ends_with(
                error.text(),
                cause.text(),
            ) && before_end(error.text(), cause.text()) == before_end(other.text(), b.text()),
            (SnapshotLayerError::Uffd(cause), SnapshotLayerError::Uffd(b)) => ends_with(
                error.text(),
                cause.text(),
            ) && before_end(error.text(), cause.text()) == before_end(other.text(), b.text()),
            _ => true,
        },
{
    lemma_layer_error_text(error);
    lemma_layer_error_text(other);
}

proof fn lemma_layer_error_text(error: SnapshotLayerError)
    ensures
        match error {
            SnapshotLayerError::SharedMemfile(cause) => {
                &&& ends_with(error.text(), cause.text())
                &&& before_end(error.text(), cause.text()) == "Shared memfile error: "@
            },
            SnapshotLayerError::CoWOverlay(cause) => {
                &&& ends_with(error.text(), cause.text())
                &&& before_end(error.text(), cause.text()) == "CoW overlay error: "@
            },
            SnapshotLayerError::Uffd(cause) => {
                &&& ends_with(error.text(), cause.text())
                &&& before_end(error.text(), cause.text()) == "userfaultfd error: "@
            },
            SnapshotLayerError::LayerNotFound(cause) => {
                &&& ends_with(error.text(), cause@)
                &&& before_end(error.text(), cause@) == "Layer not found: "@
            },
            SnapshotLayerError::InvalidConfig(cause) => {
                &&& ends_with(error.text(), cause@)
                &&& before_end(error.text(), cause@) == "Invalid layer configuration: "@
            },
            SnapshotLayerError::Io(cause) => {
                &&& ends_with(error.text(), cause@)
                &&& before_end(error.text(), cause@) == "IO error: "@
            },
            SnapshotLayerError::Serialization(cause) => {
                &&& ends_with(error.text(), cause@)
                &&& before_end(error.text(), cause@) == "Serialization error: "@
            },
        },
{
    match error {
        SnapshotLayerError::SharedMemfile(cause) => {
            lemma_before_end("Shared memfile error: "@, cause.text());
        },
        SnapshotLayerError::CoWOverlay(cause) => {
            lemma_before_end("CoW overlay error: "@, cause.text());
        },
        SnapshotLayerError::Uffd(cause) => {
            lemma_before_end("userfaultfd error: "@, cause.text());
        },
        SnapshotLayerError::LayerNotFound(cause) => {
            lemma_before_end("Layer not found: "@, cause@);
        },
        SnapshotLayerError::InvalidConfig(cause) => {
            lemma_before_end("Invalid layer configuration: "@, cause@);
        },
        SnapshotLayerError::Io(cause) => {
            lemma_before_end("IO error: "@, cause@);
        },
        SnapshotLayerError::Serialization(cause) => {
            lemma_before_end("Serialization error: "@, cause@);
        },
    }
}

/// Initializing maps the memfile that the reference of a layer names, and goes on with just what the
/// mapping asks for. The layer gets the memfile that comes of it; the error is that of the mapping.
pub proof fn law_init_maps_the_layer<'a>(
    manager: &SnapshotLayerManager<'a>,
    metadata: LayeredSnapshotMetadata,
    layer: Layer,
    of: LayerRef,
    map_event: MapEvent<'a>,
    after: &SnapshotLayerManager<'a>,
    step: InitStep<'a>,
)
    requires
        layer == Layer::L0 && metadata.l0 == Some(of) && manager.initializes(
            metadata,
            InitEvent::L0(map_event),
            after,
            step,
        ) || layer == Layer::L1 && metadata.l1 == Some(of) && manager.initializes(
            metadata,
            InitEvent::L1(map_event),
            after,
            step,
        ),
    ensures
        exists|inner: MapStep<'a>|
            {
                &&& #[trigger] mapped(
                    manager.spec_shared()@,
                    of.memfile_path@,
                    map_event,
                    after.spec_shared()@,
                    inner,
                )
                &&& match step {
                    InitStep::Continue { layer: asks, step: asked } => asks == layer && asked
                        == inner && !(inner is Done) && !(inner is Failed),
                    InitStep::Failed(error) => inner matches MapStep::Failed(cause) && error
                        == SnapshotLayerError::SharedMemfile(cause),
                    InitStep::Begin { layer: next } => inner matches MapStep::Done(memfile) && layer
                        == Layer::L0 && next == Layer::L1 && metadata.l1 is Some && after.spec_l0()
                        == Some(memfile),
                    InitStep::Done => inner matches MapStep::Done(memfile) && if layer == Layer::L0 {
                        metadata.l1 is None && after.spec_l0() == Some(memfile)
                    } else {
                        after.spec_l1() == Some(memfile)
                    },
                }
            },
{
}

} // verus!
