//! The snapshot commands: from their arguments to what is to be done.

use crate::layered::{LayeredSnapshotMetadata, LayeredSnapshotOrchestrator, SnapshotType};
use crate::runs::{answered, is_run, Turn};
use crate::text::{concat, law_trimmed_is_the_middle, trim, trimmed, white_space};
use vstd::prelude::*;

verus! {

/// Arguments of the command that creates a layered snapshot
#[derive(Debug)]
pub struct LayeredSnapshotArgs {
    /// Target path for storing the layered snapshot
    pub path: String,
    /// Kernel path
    pub kernel: String,
    /// L0 rootfs path
    pub l0_rootfs: String,
    /// L1 rootfs path
    pub l1_rootfs: String,
    /// Number of vCPUs
    pub vcpus: u32,
    /// Memory size in MB
    pub memory_mb: u32,
    /// Snapshot type
    pub snapshot_type: String,
}

/// What came of the last step of the command that creates a layered snapshot.
pub enum LayeredCommandEvent {
    /// The snapshot type is parsed, or it is not valid, for this cause.
    TypeParsed(Result<SnapshotType, String>),
    /// The layered snapshots are created.
    Created(LayeredSnapshotMetadata),
    /// The layered snapshots could not be created.
    CreateFailed(String),
}

/// The next step of the command that creates a layered snapshot.
pub enum LayeredCommandStep {
    /// Create the layered snapshots.
    Create(LayeredSnapshotOrchestrator),
    /// Report that the snapshots are there.
    Report(LayeredSnapshotMetadata),
    /// The command failed.
    Failed(String),
}

/// What one step of the command that creates a layered snapshot does: an orchestrator with the
/// settings of the arguments creates the snapshots, which are then reported. Every failure ends it.
pub open spec fn executes_layered(
    args: LayeredSnapshotArgs,
    event: LayeredCommandEvent,
    step: LayeredCommandStep,
) -> bool {
    match event {
        LayeredCommandEvent::TypeParsed(Ok(snapshot_type)) => step matches
            LayeredCommandStep::Create(orchestrator) && orchestrator.base_path@ == args.path@
            && orchestrator.kernel_path@ == args.kernel@ && orchestrator.l0_rootfs@
            == args.l0_rootfs@ && orchestrator.l1_rootfs@ == args.l1_rootfs@
            && orchestrator.vcpus == args.vcpus && orchestrator.memory_mb == args.memory_mb
            && orchestrator.snapshot_type == snapshot_type,
        LayeredCommandEvent::TypeParsed(Err(cause)) => step matches LayeredCommandStep::Failed(
            text,
        ) && text@ == "invalid snapshot type: "@ + cause@,
        LayeredCommandEvent::Created(metadata) => step == LayeredCommandStep::Report(metadata),
        LayeredCommandEvent::CreateFailed(cause) => step matches LayeredCommandStep::Failed(
            text,
        ) && text@ == "failed to create layered snapshot: "@ + cause@,
    }
}

/// Executes the command that creates a layered snapshot.
///
/// The caller starts with the parsed snapshot type, does what each step says and hands back what
/// came of it, until the step is `Report` or `Failed`.
pub fn execute_layered(args: &LayeredSnapshotArgs, event: LayeredCommandEvent) -> (step:
    LayeredCommandStep)
    ensures
        executes_layered(*args, event, step),
{
    match event {
        LayeredCommandEvent::TypeParsed(Ok(snapshot_type)) => LayeredCommandStep::Create(
            LayeredSnapshotOrchestrator::new(
                args.path.as_str(),
                args.kernel.as_str(),
                args.l0_rootfs.as_str(),
                args.l1_rootfs.as_str(),
                args.vcpus,
                args.memory_mb,
                snapshot_type,
            ),
        ),
        LayeredCommandEvent::TypeParsed(Err(cause)) => LayeredCommandStep::Failed(
            concat("invalid snapshot type: ", cause.as_str()),
        ),
        LayeredCommandEvent::Created(metadata) => LayeredCommandStep::Report(metadata),
        LayeredCommandEvent::CreateFailed(cause) => LayeredCommandStep::Failed(
            concat("failed to create layered snapshot: ", cause.as_str()),
        ),
    }
}

/// Arguments of the command that creates a snapshot
#[derive(Debug)]
pub struct SnapshotArgs {
    /// Target path
    pub path: String,
    /// Disk info
    pub disk: String,
    /// Resource info
    pub resource: String,
    /// PMEM path
    pub pmem: String,
    /// Kernel path
    pub kernel: String,
    /// Don't create tap
    pub notap: bool,
    /// Force
    pub force: bool,
    /// App snapshot
    pub app_snapshot: bool,
    /// Vm id
    pub vm_id: Option<String>,
    /// Snapshot type: 'full', 'incremental' (saves only CoW anonymous pages, cumulative since
    /// restore) or 'soft-dirty' (true delta of pages dirtied since the previous soft-dirty
    /// snapshot; falls back to 'incremental' on kernels without CONFIG_MEM_SOFT_DIRTY)
    pub snapshot_type: String,
    /// Optional existing path or file URL for storing memory range data on a separate volume
    pub memory_vol: Option<String>,
    /// Logical container id persisted in app snapshot metadata
    pub container_id: Option<String>,
}

/// What the arguments of the snapshot command that hold a description were parsed to, or why they
/// could not be. `R`, `D` and `P` describe the resources, the disks and the PMEM devices of a VM.
#[derive(Debug)]
pub struct ParsedArgs<R, D, P> {
    /// The resource info
    pub resource: Result<R, String>,
    /// The disk info
    pub disk: Result<Vec<D>, String>,
    /// The PMEM info
    pub pmem: Result<Vec<P>, String>,
    /// The snapshot type
    pub snapshot_type: Result<SnapshotType, String>,
}

/// A snapshot that is to be taken
#[derive(Debug)]
pub struct Snapshot<R, D, P> {
    /// Instance id
    pub id: String,
    /// Resources of the VM
    pub res: R,
    /// Disks of the VM
    pub disk: Vec<D>,
    /// PMEM devices of the VM
    pub pmem: Vec<P>,
    /// Target path
    pub path: String,
    /// Kernel path
    pub kernel: String,
    /// Create tap
    pub tap: bool,
    /// Force
    pub force: bool,
    /// App snapshot
    pub app_snapshot: bool,
    /// Snapshot type
    pub snapshot_type: SnapshotType,
    /// Where the memory data is stored, if not with the rest
    pub memory_vol_url: Option<String>,
    /// Logical container id
    pub container_id: Option<String>,
}

/// A hexadecimal digit as identifiers have it.
pub open spec fn is_hex_digit(c: char) -> bool {
    '0' <= c <= '9' || 'a' <= c <= 'f'
}

/// The text of a random identifier: five groups of hexadecimal digits with hyphens between them,
/// and the marks of its version and variant.
pub open spec fn is_random_id(id: Seq<char>) -> bool {
    &&& id.len() == 36
    &&& forall|i: int|
        0 <= i < 36 ==> if i == 8 || i == 13 || i == 18 || i == 23 {
            #[trigger] id[i] == '-'
        } else {
            is_hex_digit(id[i])
        }
    &&& id[14] == '4'
    &&& id[19] == '8' || id[19] == '9' || id[19] == 'a' || id[19] == 'b'
}

/// Makes a random identifier with `uuid::Uuid::new_v4` and writes it with its `Display`.
///
/// Every identifier of this version is written as 36 characters: lower-case hexadecimal digits and
/// four hyphens, with the version digit 4 and a variant digit from 8 to b. Nothing is claimed of
/// the other digits: they are random, and so is whether two identifiers differ. The call panics if
/// the operating system has no random bytes to give.
#[verifier::external_body]
fn random_id() -> (r: String)
    ensures
        is_random_id(r@),
{
    uuid::Uuid::new_v4().to_string()
}

/// The container id that is kept: without surrounding white space, and only if something is left.
pub open spec fn kept_container_id(container_id: Option<String>) -> Option<Seq<char>> {
    match container_id {
        Some(id) => if trimmed(id@).len() > 0 {
            Some(trimmed(id@))
        } else {
            None
        },
        None => None,
    }
}

/// The text of an optional string.
pub open spec fn text_of(value: Option<String>) -> Option<Seq<char>> {
    match value {
        Some(value) => Some(value@),
        None => None,
    }
}

/// Why arguments do not give a snapshot; the first of several reasons counts.
pub open spec fn rejection<R, D, P>(args: SnapshotArgs, parsed: ParsedArgs<R, D, P>) -> Option<
    Seq<char>,
> {
    if let Err(cause) = parsed.resource {
        Some(cause@)
    } else if let Err(cause) = parsed.disk {
        Some(cause@)
    } else if let Err(cause) = parsed.pmem {
        Some(cause@)
    } else if let Err(cause) = parsed.snapshot_type {
        Some("invalid snapshot type: "@ + cause@)
    } else if args.app_snapshot && args.vm_id is None {
        Some("not specify the vmid in app snapshot mode"@)
    } else {
        None
    }
}

impl<R, D, P> Snapshot<R, D, P> {
    /// Everything but the id is what the arguments say.
    pub open spec fn follows(&self, args: SnapshotArgs, parsed: ParsedArgs<R, D, P>) -> bool {
        &&& parsed.resource == Ok::<R, String>(self.res)
        &&& parsed.disk == Ok::<Vec<D>, String>(self.disk)
        &&& parsed.pmem == Ok::<Vec<P>, String>(self.pmem)
        &&& parsed.snapshot_type == Ok::<SnapshotType, String>(self.snapshot_type)
        &&& self.path == args.path
        &&& self.kernel == args.kernel
        &&& self.tap == !args.notap
        &&& self.force == args.force
        &&& self.app_snapshot == args.app_snapshot
        &&& self.memory_vol_url == args.memory_vol
        &&& text_of(self.container_id) == kept_container_id(args.container_id)
    }

    /// Makes the snapshot that the arguments ask for, with a random id unless an app snapshot is
    /// taken: that has the id of its VM.
    pub fn try_from(args: SnapshotArgs, parsed: ParsedArgs<R, D, P>) -> (r: Result<Self, String>)
        ensures
            match r {
                Ok(snapshot) => {
                    &&& rejection(args, parsed) is None
                    &&& snapshot.follows(args, parsed)
                    &&& if args.app_snapshot {
                        args.vm_id == Some(snapshot.id)
                    } else {
                        is_random_id(snapshot.id@)
                    }
                },
                Err(cause) => rejection(args, parsed) == Some(cause@),
            },
    {
        Self::with_id(random_id(), args, parsed)
    }

    /// Makes the snapshot that the arguments ask for, with the given id unless an app snapshot is
    /// taken: that has the id of its VM.
    pub fn with_id(id: String, args: SnapshotArgs, parsed: ParsedArgs<R, D, P>) -> (r: Result<
        Self,
        String,
    >)
        ensures
            match r {
                Ok(snapshot) => {
                    &&& rejection(args, parsed) is None
                    &&& snapshot.follows(args, parsed)
                    &&& if args.app_snapshot {
                        args.vm_id == Some(snapshot.id)
                    } else {
                        snapshot.id == id
                    }
                },
                Err(cause) => rejection(args, parsed) == Some(cause@),
            },
    {
        let res = match parsed.resource {
            Ok(res) => res,
            Err(cause) => {
                return Err(cause);
            },
        };
        let disk = match parsed.disk {
            Ok(disk) => disk,
            Err(cause) => {
                return Err(cause);
            },
        };
        let pmem = match parsed.pmem {
            Ok(pmem) => pmem,
            Err(cause) => {
                return Err(cause);
            },
        };
        let snapshot_type = match parsed.snapshot_type {
            Ok(snapshot_type) => snapshot_type,
            Err(cause) => {
                return Err(concat("invalid snapshot type: ", cause.as_str()));
            },
        };
        let container_id = keep_container_id(args.container_id);
        let id = if args.app_snapshot {
            match args.vm_id {
                Some(vm_id) => vm_id,
                None => {
                    return Err("not specify the vmid in app snapshot mode".to_owned());
                },
            }
        } else {
            id
        };
        Ok(
            Snapshot {
                id,
                res,
                disk,
                pmem,
                path: args.path,
                kernel: args.kernel,
                tap: !args.notap,
                force: args.force,
                app_snapshot: args.app_snapshot,
                snapshot_type,
                memory_vol_url: args.memory_vol,
                container_id,
            },
        )
    }
}

fn keep_container_id(container_id: Option<String>) -> (r: Option<String>)
    ensures
        text_of(r) == kept_container_id(container_id),
{
    match container_id {
        Some(id) => {
            let kept = trim(id.as_str());
            if kept.as_str().unicode_len() > 0 {
                Some(kept)
            } else {
                None
            }
        },
        None => None,
    }
}

/// What came of the last step of the snapshot command.
pub enum CommandEvent<R, D, P> {
    /// A caller asks for the snapshot.
    Requested,
    /// The instance has this id; these arguments are given, and they are parsed to this.
    Parsed { id: String, args: SnapshotArgs, parsed: ParsedArgs<R, D, P> },
    /// The snapshot is taken.
    Handled,
    /// The snapshot could not be taken.
    HandleFailed(String),
}

/// The next step of the snapshot command.
pub enum CommandStep<R, D, P> {
    /// Report the id of the instance, then parse the arguments.
    Parse { id: String },
    /// Take the snapshot.
    Handle(Snapshot<R, D, P>),
    /// Report success.
    Report,
    /// The command failed.
    Failed(String),
}

/// What one step of the snapshot command does: the instance gets an id, and the snapshot that the
/// parsed arguments ask for is taken and reported. Every failure ends it.
pub open spec fn executes<R, D, P>(
    event: CommandEvent<R, D, P>,
    step: CommandStep<R, D, P>,
) -> bool {
    match event {
        CommandEvent::Requested => step matches CommandStep::Parse { id } && is_random_id(id@),
        CommandEvent::Parsed { id, args, parsed } => match rejection(args, parsed) {
            Some(cause) => step matches CommandStep::Failed(text) && text@
                == "failed to create snapshot: "@ + cause,
            None => step matches CommandStep::Handle(snapshot) && snapshot.follows(args, parsed)
                && if args.app_snapshot {
                args.vm_id == Some(snapshot.id)
            } else {
                snapshot.id == id
            },
        },
        CommandEvent::Handled => step is Report,
        CommandEvent::HandleFailed(cause) => step matches CommandStep::Failed(text) && text@
            == "failed to handle snapshot: "@ + cause@,
    }
}

/// Executes the snapshot command.
///
/// The caller starts with `CommandEvent::Requested`, does what each step says and hands back what
/// came of it, until the step is `Report` or `Failed`. The instance gets a random id; an app
/// snapshot has the id of its VM in the end.
pub fn execute<R, D, P>(event: CommandEvent<R, D, P>) -> (step: CommandStep<R, D, P>)
    ensures
        executes(event, step),
{
    match event {
        CommandEvent::Requested => CommandStep::Parse { id: random_id() },
        CommandEvent::Parsed { id, args, parsed } => {
            match Snapshot::with_id(id, args, parsed) {
                Ok(snapshot) => CommandStep::Handle(snapshot),
                Err(cause) => CommandStep::Failed(
                    concat("failed to create snapshot: ", cause.as_str()),
                ),
            }
        },
        CommandEvent::Handled => CommandStep::Report,
        CommandEvent::HandleFailed(cause) => CommandStep::Failed(
            concat("failed to handle snapshot: ", cause.as_str()),
        ),
    }
}

/// What can come of a step of the snapshot command.
pub open spec fn command_answers<R, D, P>(
    step: CommandStep<R, D, P>,
    event: CommandEvent<R, D, P>,
) -> bool {
    match step {
        CommandStep::Parse { id } => event matches CommandEvent::Parsed { id: kept, .. } && kept
            == id,
        CommandStep::Handle(_) => event is Handled || event is HandleFailed,
        CommandStep::Report => false,
        CommandStep::Failed(_) => false,
    }
}

/// A run of the snapshot command.
pub open spec fn is_command_run<R, D, P>(
    run: Seq<Turn<CommandEvent<R, D, P>, CommandStep<R, D, P>>>,
) -> bool {
    is_run(
        run,
        |event: CommandEvent<R, D, P>| event is Requested,
        |event: CommandEvent<R, D, P>, step: CommandStep<R, D, P>| executes(event, step),
        |step: CommandStep<R, D, P>, event: CommandEvent<R, D, P>| command_answers(step, event),
    )
}

/// In every run of the snapshot command a snapshot is taken only of accepted arguments, with a
/// random id or, for an app snapshot, with the id of its VM, and with the other settings of the
/// arguments; success is reported only after that.
pub proof fn law_command_order<R, D, P>(
    run: Seq<Turn<CommandEvent<R, D, P>, CommandStep<R, D, P>>>,
    i: int,
)
    requires
        is_command_run(run),
        0 <= i < run.len(),
    ensures
        i == 0 <==> run[i].step is Parse,
        run[i].step matches CommandStep::Handle(snapshot) ==> {
            &&& i == 1
            &&& run[1].event matches CommandEvent::Parsed { args, parsed, .. }
            &&& rejection(args, parsed) is None
            &&& snapshot.follows(args, parsed)
            &&& if args.app_snapshot {
                args.vm_id == Some(snapshot.id)
            } else {
                is_random_id(snapshot.id@)
            }
            &&& parsed.resource == Ok::<R, String>(snapshot.res)
            &&& parsed.disk == Ok::<Vec<D>, String>(snapshot.disk)
            &&& parsed.pmem == Ok::<Vec<P>, String>(snapshot.pmem)
            &&& parsed.snapshot_type == Ok::<SnapshotType, String>(snapshot.snapshot_type)
            &&& snapshot.path == args.path
            &&& snapshot.kernel == args.kernel
            &&& snapshot.tap <==> !args.notap
            &&& snapshot.force == args.force
            &&& snapshot.app_snapshot == args.app_snapshot
            &&& snapshot.memory_vol_url == args.memory_vol
        },
        run[i].step matches CommandStep::Failed(text) ==> {
            ||| {
                &&& run[i].event matches CommandEvent::Parsed { args, parsed, .. }
                &&& rejection(args, parsed) matches Some(cause)
                &&& text@ == "failed to create snapshot: "@ + cause
            }
            ||| run[i].event matches CommandEvent::HandleFailed(cause) && text@
                == "failed to handle snapshot: "@ + cause@
        },
        run[i].event is Handled ==> run[i].step is Report,
        run[i].step is Report ==> i == 2 && run[1].step is Handle && run[2].event is Handled,
    decreases i,
{
    let answers = |step: CommandStep<R, D, P>, event: CommandEvent<R, D, P>|
        command_answers(step, event);
    if i > 0 {
        law_command_order(run, i - 1);
        assert(answered(run, i, answers));
        assert(command_answers(run[i - 1].step, run[i].event));
    }
    assert(executes(run[i].event, run[i].step));
    if i == 1 {
        assert(executes(run[0].event, run[0].step));
    }
}

/// What can come of a step of the command that creates a layered snapshot.
pub open spec fn layered_command_answers(
    step: LayeredCommandStep,
    event: LayeredCommandEvent,
) -> bool {
    match step {
        LayeredCommandStep::Create(_) => event is Created || event is CreateFailed,
        LayeredCommandStep::Report(_) => false,
        LayeredCommandStep::Failed(_) => false,
    }
}

/// A run of the command that creates a layered snapshot.
pub open spec fn is_layered_command_run(
    args: LayeredSnapshotArgs,
    run: Seq<Turn<LayeredCommandEvent, LayeredCommandStep>>,
) -> bool {
    is_run(
        run,
        |event: LayeredCommandEvent| event is TypeParsed,
        |event: LayeredCommandEvent, step: LayeredCommandStep|
            executes_layered(args, event, step),
        |step: LayeredCommandStep, event: LayeredCommandEvent|
            layered_command_answers(step, event),
    )
}

/// In every run of the command that creates a layered snapshot the snapshots are created first,
/// with the settings of the arguments, and what is reported is what was created.
pub proof fn law_layered_command_order(
    args: LayeredSnapshotArgs,
    run: Seq<Turn<LayeredCommandEvent, LayeredCommandStep>>,
    i: int,
)
    requires
        is_layered_command_run(args, run),
        0 <= i < run.len(),
    ensures
        i <= 1,
        run[i].step is Create ==> i == 0,
        run[i].step matches LayeredCommandStep::Report(metadata) ==> i == 1 && run[0].step
            is Create && run[1].event == LayeredCommandEvent::Created(metadata),
        run[i].step matches LayeredCommandStep::Create(orchestrator) ==> {
            &&& orchestrator.base_path@ == args.path@
            &&& orchestrator.kernel_path@ == args.kernel@
            &&& orchestrator.l0_rootfs@ == args.l0_rootfs@
            &&& orchestrator.l1_rootfs@ == args.l1_rootfs@
            &&& orchestrator.vcpus == args.vcpus
            &&& orchestrator.memory_mb == args.memory_mb
            &&& run[i].event == LayeredCommandEvent::TypeParsed(Ok(orchestrator.snapshot_type))
        },
        run[i].step is Failed <==> match run[i].event {
            LayeredCommandEvent::TypeParsed(parsed) => parsed is Err,
            LayeredCommandEvent::CreateFailed(_) => true,
            _ => false,
        },
        run[i].step matches LayeredCommandStep::Failed(text) ==> match run[i].event {
            LayeredCommandEvent::TypeParsed(Err(cause)) => text@ == "invalid snapshot type: "@
                + cause@,
            LayeredCommandEvent::CreateFailed(cause) => text@
                == "failed to create layered snapshot: "@ + cause@,
            _ => false,
        },
    decreases i,
{
    let answers = |step: LayeredCommandStep, event: LayeredCommandEvent|
        layered_command_answers(step, event);
    if i > 0 {
        law_layered_command_order(args, run, i - 1);
        assert(answered(run, i, answers));
        assert(layered_command_answers(run[i - 1].step, run[i].event));
    }
    assert(executes_layered(args, run[i].event, run[i].step));
}

/// Arguments are accepted if all that is to be parsed is, and an app snapshot names its VM. What
/// could not be parsed first is the reason otherwise, in the order of resources, disks, PMEM
/// devices and snapshot type; that the VM is missing counts last.
pub proof fn law_rejection<R, D, P>(args: SnapshotArgs, parsed: ParsedArgs<R, D, P>)
    ensures
        rejection(args, parsed) is None <==> parsed.resource is Ok && parsed.disk is Ok
            && parsed.pmem is Ok && parsed.snapshot_type is Ok && (args.app_snapshot
            ==> args.vm_id is Some),
        parsed.resource matches Err(cause) ==> rejection(args, parsed) == Some(cause@),
        parsed.resource is Ok ==> {
            &&& parsed.disk matches Err(cause) ==> rejection(args, parsed) == Some(cause@)
            &&& parsed.disk is Ok ==> {
                &&& parsed.pmem matches Err(cause) ==> rejection(args, parsed) == Some(cause@)
                &&& parsed.pmem is Ok ==> {
                    &&& parsed.snapshot_type matches Err(cause) ==> rejection(args, parsed) == Some(
                        "invalid snapshot type: "@ + cause@,
                    )
                    &&& parsed.snapshot_type is Ok && args.app_snapshot && args.vm_id is None
                        ==> rejection(args, parsed) == Some(
                        "not specify the vmid in app snapshot mode"@,
                    )
                }
            }
        },
{
}

/// A snapshot has a container id if one is given that is not all white space. It is what stands
/// between the white space around it: it starts and ends with something else.
pub proof fn law_container_id<R, D, P>(
    snapshot: Snapshot<R, D, P>,
    args: SnapshotArgs,
    parsed: ParsedArgs<R, D, P>,
)
    requires
        snapshot.follows(args, parsed),
    ensures
        snapshot.container_id is Some <==> (args.container_id matches Some(given) && exists|i: int|
            0 <= i < given@.len() && !white_space(#[trigger] given@[i])),
        snapshot.container_id matches Some(kept) ==> {
            &&& args.container_id matches Some(given)
            &&& exists|a: int, b: int|
                {
                    &&& 0 <= a < b <= given@.len()
                    &&& kept@ == #[trigger] given@.subrange(a, b)
                    &&& !white_space(given@[a])
                    &&& !white_space(given@[b - 1])
                    &&& forall|i: int|
                        0 <= i < given@.len() && !(a <= i < b) ==> white_space(#[trigger] given@[i])
                }
        },
{
    if let Some(given) = args.container_id {
        let (a, b) = law_trimmed_is_the_middle(given@);
        if a < b {
            assert(!white_space(given@[a]));
            assert(trimmed(given@) == given@.subrange(a, b));
        }
    }
}

} // verus!
