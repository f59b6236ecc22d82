//! The decisions of creating one fresh version 2 cgroup: which file-system step
//! comes next, and whether each observation lets the setup go on, fail, or fail
//! after removing the new directory.
use vstd::prelude::*;
use vstd::string::StringSliceAdditionalSpecFns;

use crate::cgroup::{
    cgroup_name, cgroup_name_bytes, configured_resources_from_readbacks, control_value_bytes,
    installed_control_values, readback_error, readback_memory, readback_processes, readback_swap, readbacks_ok,
    CgroupError, ConfiguredResources, ResourceSnapshot,
};
use crate::model::{CgroupIdentity, ExecutionId, ProcessLimit, ResourceLimits};
use crate::probe::CgroupV2Capability;
use crate::text::{decimal_string, decimal_text, fields, fields_utf8, read_set, string_bytes, strs_bytes, trim_range, trimmed, copy_range};
use crate::launcher::string_models;

verus! {

/// The step a cgroup setup waits on.
#[derive(Clone, Copy, Debug, PartialEq, Eq, Structural)]
pub enum CgroupSetupPhase {
    /// Opening the delegated root and reading its inode.
    OpenParent,
    /// Reading the root's `cgroup.subtree_control`.
    ReadSubtree,
    /// Creating the new directory.
    Create,
    /// Opening the new directory.
    Open,
    /// Writing control `k`.
    Write(usize),
    /// Reading control `k` back.
    Read(usize),
    /// Reading the initial resource snapshot.
    Snapshot,
    /// Reading `cgroup.events`.
    Populated,
    /// Reading `cgroup.procs`.
    Processes,
    /// Reading the new directory's inode.
    Inode,
    /// Nothing is left to do.
    Finished,
}

/// What the caller reports after performing the last action.
pub enum CgroupSetupEvent {
    /// The root was opened and its inode read, or the error of either step.
    ParentOpened(Result<u64, CgroupError>),
    /// The text of `cgroup.subtree_control`, or the read error.
    SubtreeControlRead(Result<String, CgroupError>),
    /// The directory was created, or the creation error.
    DirectoryCreated(Result<(), CgroupError>),
    /// Whether the new directory could be opened without following links.
    DirectoryOpened(bool),
    /// The control was written, or the write error.
    ControlWritten(Result<(), CgroupError>),
    /// The text the control reads back, or the read error.
    ControlRead(Result<String, CgroupError>),
    /// The parsed initial resource snapshot, or the read or parse error.
    SnapshotRead(Result<ResourceSnapshot, CgroupError>),
    /// Whether `cgroup.events` reports the group populated, or the error.
    PopulatedRead(Result<bool, CgroupError>),
    /// The processes `cgroup.procs` lists, or the error.
    ProcessesRead(Result<Vec<u32>, CgroupError>),
    /// The new directory's inode, or the error.
    InodeRead(Result<u64, CgroupError>),
}

/// What the caller must do next.
#[derive(Debug, PartialEq, Eq)]
pub enum CgroupSetupAction {
    /// Open the delegated root and read its inode.
    OpenParent,
    /// Read the root's `cgroup.subtree_control`.
    ReadSubtreeControl,
    /// Create the directory of this name below the root.
    CreateDirectory(Vec<u8>),
    /// Open the directory of this name without following links.
    OpenDirectory(Vec<u8>),
    /// Write this value to this control.
    WriteControl(&'static str, String),
    /// Read this control back.
    ReadControl(&'static str),
    /// Read the initial resource snapshot.
    ReadResourceSnapshot,
    /// Read `cgroup.events`.
    ReadPopulated,
    /// Read `cgroup.procs`.
    ReadProcesses,
    /// Read the new directory's inode.
    ReadInode,
    /// Remove the new directory, then fail with this error.
    RemoveDirectory(CgroupError),
    /// Fail with this error.
    Fail(CgroupError),
    /// The fresh cgroup is ready: its identity and, for a group with memory and swap
    /// bounds, its configured resources and initial snapshot.
    Done(CgroupIdentity, Option<ConfiguredResources>, Option<ResourceSnapshot>),
    /// Nothing is left to do.
    Stop,
}

/// The model of a setup state.
pub struct CgroupSetupModel {
    pub phase: CgroupSetupPhase,
    pub mount_id: u64,
    pub parent_inode: u64,
    pub name: Seq<u8>,
    pub controls: Seq<(Seq<char>, Seq<u8>)>,
    pub resources: bool,
    pub configured: Option<ConfiguredResources>,
    pub initial: Option<ResourceSnapshot>,
}

/// The model of an event; a process list is held as whether it is empty.
pub enum CgroupEventModel {
    ParentOpened(Result<u64, CgroupError>),
    SubtreeControlRead(Result<Seq<u8>, CgroupError>),
    DirectoryCreated(Result<(), CgroupError>),
    DirectoryOpened(bool),
    ControlWritten(Result<(), CgroupError>),
    ControlRead(Result<Seq<u8>, CgroupError>),
    SnapshotRead(Result<ResourceSnapshot, CgroupError>),
    PopulatedRead(Result<bool, CgroupError>),
    ProcessesRead(Result<bool, CgroupError>),
    InodeRead(Result<u64, CgroupError>),
}

/// The model of an action.
pub enum CgroupActionModel {
    OpenParent,
    ReadSubtreeControl,
    CreateDirectory(Seq<u8>),
    OpenDirectory(Seq<u8>),
    WriteControl(Seq<char>, Seq<u8>),
    ReadControl(Seq<char>),
    ReadResourceSnapshot,
    ReadPopulated,
    ReadProcesses,
    ReadInode,
    RemoveDirectory(CgroupError),
    Fail(CgroupError),
    Done(u64, u64, Option<ConfiguredResources>, Option<ResourceSnapshot>),
    Stop,
}

impl CgroupSetupEvent {
    /// The model of this event.
    pub open spec fn model(&self) -> CgroupEventModel {
        match self {
            CgroupSetupEvent::ParentOpened(r) => CgroupEventModel::ParentOpened(*r),
            CgroupSetupEvent::SubtreeControlRead(r) => CgroupEventModel::SubtreeControlRead(match r {
                Ok(t) => Ok(string_bytes(*t)),
                Err(e) => Err(*e),
            }),
            CgroupSetupEvent::DirectoryCreated(r) => CgroupEventModel::DirectoryCreated(*r),
            CgroupSetupEvent::DirectoryOpened(b) => CgroupEventModel::DirectoryOpened(*b),
            CgroupSetupEvent::ControlWritten(r) => CgroupEventModel::ControlWritten(*r),
            CgroupSetupEvent::ControlRead(r) => CgroupEventModel::ControlRead(match r {
                Ok(t) => Ok(string_bytes(*t)),
                Err(e) => Err(*e),
            }),
            CgroupSetupEvent::SnapshotRead(r) => CgroupEventModel::SnapshotRead(*r),
            CgroupSetupEvent::PopulatedRead(r) => CgroupEventModel::PopulatedRead(*r),
            CgroupSetupEvent::ProcessesRead(r) => CgroupEventModel::ProcessesRead(match r {
                Ok(ids) => Ok(ids@.len() == 0),
                Err(e) => Err(*e),
            }),
            CgroupSetupEvent::InodeRead(r) => CgroupEventModel::InodeRead(*r),
        }
    }
}

impl CgroupSetupAction {
    /// The model of this action.
    pub open spec fn model(&self) -> CgroupActionModel {
        match self {
            CgroupSetupAction::OpenParent => CgroupActionModel::OpenParent,
            CgroupSetupAction::ReadSubtreeControl => CgroupActionModel::ReadSubtreeControl,
            CgroupSetupAction::CreateDirectory(n) => CgroupActionModel::CreateDirectory(n@),
            CgroupSetupAction::OpenDirectory(n) => CgroupActionModel::OpenDirectory(n@),
            CgroupSetupAction::WriteControl(n, v) => CgroupActionModel::WriteControl(n@, string_bytes(*v)),
            CgroupSetupAction::ReadControl(n) => CgroupActionModel::ReadControl(n@),
            CgroupSetupAction::ReadResourceSnapshot => CgroupActionModel::ReadResourceSnapshot,
            CgroupSetupAction::ReadPopulated => CgroupActionModel::ReadPopulated,
            CgroupSetupAction::ReadProcesses => CgroupActionModel::ReadProcesses,
            CgroupSetupAction::ReadInode => CgroupActionModel::ReadInode,
            CgroupSetupAction::RemoveDirectory(e) => CgroupActionModel::RemoveDirectory(*e),
            CgroupSetupAction::Fail(e) => CgroupActionModel::Fail(*e),
            CgroupSetupAction::Done(id, c, s) => CgroupActionModel::Done(id.mount_of(), id.inode_of(), *c, *s),
            CgroupSetupAction::Stop => CgroupActionModel::Stop,
        }
    }
}

/// Every peak and counter of a snapshot is zero.
pub open spec fn snapshot_zero(s: ResourceSnapshot) -> bool {
    &&& s.memory_peak_of() == 0
    &&& s.swap_peak_of() == 0
    &&& forall|k: int| 0 <= k < 6 ==> s.memory_events_of().counters()[k] == 0
    &&& s.swap_events_of().max_of() == 0
    &&& s.swap_events_of().fail_of() == 0
}

/// The action a state waits on.
pub open spec fn pending_action(m: CgroupSetupModel) -> CgroupActionModel {
    match m.phase {
        CgroupSetupPhase::OpenParent => CgroupActionModel::OpenParent,
        CgroupSetupPhase::ReadSubtree => CgroupActionModel::ReadSubtreeControl,
        CgroupSetupPhase::Create => CgroupActionModel::CreateDirectory(m.name),
        CgroupSetupPhase::Open => CgroupActionModel::OpenDirectory(m.name),
        CgroupSetupPhase::Write(k) => CgroupActionModel::WriteControl(m.controls[k as int].0, m.controls[k as int].1),
        CgroupSetupPhase::Read(k) => CgroupActionModel::ReadControl(m.controls[k as int].0),
        CgroupSetupPhase::Snapshot => CgroupActionModel::ReadResourceSnapshot,
        CgroupSetupPhase::Populated => CgroupActionModel::ReadPopulated,
        CgroupSetupPhase::Processes => CgroupActionModel::ReadProcesses,
        CgroupSetupPhase::Inode => CgroupActionModel::ReadInode,
        CgroupSetupPhase::Finished => CgroupActionModel::Stop,
    }
}

/// Moves to `phase` and asks for its action.
pub open spec fn go_to(m: CgroupSetupModel, phase: CgroupSetupPhase) -> (CgroupSetupModel, CgroupActionModel) {
    let n = CgroupSetupModel { phase, ..m };
    (n, pending_action(n))
}

/// Ends the setup with `action`.
pub open spec fn finish(m: CgroupSetupModel, action: CgroupActionModel) -> (CgroupSetupModel, CgroupActionModel) {
    (CgroupSetupModel { phase: CgroupSetupPhase::Finished, ..m }, action)
}

/// The next state and action after `event`. An event that does not answer the
/// pending action leaves the state as it is and asks again.
pub open spec fn cgroup_setup_next(m: CgroupSetupModel, event: CgroupEventModel) -> (
    CgroupSetupModel,
    CgroupActionModel,
) {
    match (m.phase, event) {
        (CgroupSetupPhase::OpenParent, CgroupEventModel::ParentOpened(r)) => match r {
            Err(e) => finish(m, CgroupActionModel::Fail(e)),
            Ok(inode) => if inode != m.parent_inode {
                finish(m, CgroupActionModel::Fail(CgroupError::CapabilityMismatch))
            } else {
                go_to(m, CgroupSetupPhase::ReadSubtree)
            },
        },
        (CgroupSetupPhase::ReadSubtree, CgroupEventModel::SubtreeControlRead(r)) => match r {
            Err(e) => finish(m, CgroupActionModel::Fail(e)),
            Ok(t) => if fields_utf8(t) && (m.resources ==> fields(t).contains("memory".spec_bytes())) && fields(
                t,
            ).contains("pids".spec_bytes()) {
                go_to(m, CgroupSetupPhase::Create)
            } else {
                finish(m, CgroupActionModel::Fail(CgroupError::ControllerUnavailable))
            },
        },
        (CgroupSetupPhase::Create, CgroupEventModel::DirectoryCreated(r)) => match r {
            Err(e) => finish(m, CgroupActionModel::Fail(e)),
            Ok(_) => go_to(m, CgroupSetupPhase::Open),
        },
        (CgroupSetupPhase::Open, CgroupEventModel::DirectoryOpened(opened)) => if opened {
            go_to(m, CgroupSetupPhase::Write(0))
        } else {
            finish(m, CgroupActionModel::RemoveDirectory(CgroupError::OpenFailed))
        },
        (CgroupSetupPhase::Write(k), CgroupEventModel::ControlWritten(r)) => match r {
            Err(e) => finish(m, CgroupActionModel::RemoveDirectory(e)),
            Ok(_) => go_to(m, CgroupSetupPhase::Read(k)),
        },
        (CgroupSetupPhase::Read(k), CgroupEventModel::ControlRead(r)) => match r {
            Err(e) => finish(m, CgroupActionModel::RemoveDirectory(e)),
            Ok(t) => if trimmed(t) != m.controls[k as int].1 {
                finish(m, CgroupActionModel::RemoveDirectory(CgroupError::LimitMismatch))
            } else if k + 1 < m.controls.len() {
                go_to(m, CgroupSetupPhase::Write((k + 1) as usize))
            } else if m.resources {
                go_to(m, CgroupSetupPhase::Snapshot)
            } else {
                go_to(m, CgroupSetupPhase::Populated)
            },
        },
        (CgroupSetupPhase::Snapshot, CgroupEventModel::SnapshotRead(r)) => match r {
            Err(e) => finish(m, CgroupActionModel::RemoveDirectory(e)),
            Ok(s) => if !snapshot_zero(s) {
                finish(m, CgroupActionModel::RemoveDirectory(CgroupError::ObservationNonzero))
            } else {
                go_to(CgroupSetupModel { initial: Some(s), ..m }, CgroupSetupPhase::Populated)
            },
        },
        (CgroupSetupPhase::Populated, CgroupEventModel::PopulatedRead(r)) => match r {
            Err(e) => finish(m, CgroupActionModel::RemoveDirectory(e)),
            Ok(populated) => if populated {
                finish(m, CgroupActionModel::RemoveDirectory(CgroupError::NotFresh))
            } else {
                go_to(m, CgroupSetupPhase::Processes)
            },
        },
        (CgroupSetupPhase::Processes, CgroupEventModel::ProcessesRead(r)) => match r {
            Err(e) => finish(m, CgroupActionModel::RemoveDirectory(e)),
            Ok(empty) => if !empty {
                finish(m, CgroupActionModel::RemoveDirectory(CgroupError::NotFresh))
            } else {
                go_to(m, CgroupSetupPhase::Inode)
            },
        },
        (CgroupSetupPhase::Inode, CgroupEventModel::InodeRead(r)) => match r {
            Err(e) => finish(m, CgroupActionModel::Fail(e)),
            Ok(inode) => finish(
                m,
                CgroupActionModel::Done(m.mount_id, inode, m.configured, m.initial),
            ),
        },
        _ => (m, pending_action(m)),
    }
}

/// The phases between the directory's creation and the final inode read.
pub open spec fn directory_exists_phase(phase: CgroupSetupPhase) -> bool {
    match phase {
        CgroupSetupPhase::Open | CgroupSetupPhase::Write(_) | CgroupSetupPhase::Read(_) | CgroupSetupPhase::Snapshot
        | CgroupSetupPhase::Populated | CgroupSetupPhase::Processes => true,
        _ => false,
    }
}

/// The laws of one setup step. The controls, the configured resources and the
/// identity inputs never change. The setup is done only on the inode read, with the
/// zero snapshot read before when the group has memory and swap bounds, and no
/// snapshot otherwise. The inode read is reached only by an empty process list; the
/// process list only after `cgroup.events` reports the group unpopulated; that only
/// after a zero snapshot, or, without memory and swap bounds, after the last control
/// read back equal; the snapshot only after the last control read back equal to its
/// written value; each later control write only after the control before read back
/// equal. Every failure while the new directory exists, before the inode read,
/// removes it.
pub proof fn lemma_cgroup_setup_step(m: CgroupSetupModel, e: CgroupEventModel)
    requires
        setup_model_ok(m),
    ensures
        ({
            let (n, a) = cgroup_setup_next(m, e);
            &&& setup_model_ok(n)
            &&& n.controls == m.controls && n.configured == m.configured && n.mount_id == m.mount_id
                && n.parent_inode == m.parent_inode && n.name == m.name && n.resources == m.resources
            &&& (a matches CgroupActionModel::Done(mount, _, configured, initial) ==> m.phase
                == CgroupSetupPhase::Inode && mount == m.mount_id && configured == m.configured && initial
                == m.initial && (m.resources ==> (initial matches Some(s) && snapshot_zero(s))) && (!m.resources
                ==> initial is None))
            &&& (n.phase == CgroupSetupPhase::Inode && m.phase != CgroupSetupPhase::Inode ==> m.phase
                == CgroupSetupPhase::Processes && e == CgroupEventModel::ProcessesRead(Ok(true)))
            &&& (n.phase == CgroupSetupPhase::Processes && m.phase != CgroupSetupPhase::Processes ==> m.phase
                == CgroupSetupPhase::Populated && e == CgroupEventModel::PopulatedRead(Ok(false)))
            &&& (n.phase == CgroupSetupPhase::Populated && m.phase != CgroupSetupPhase::Populated && m.resources
                ==> m.phase == CgroupSetupPhase::Snapshot && (e matches CgroupEventModel::SnapshotRead(Ok(s))
                && snapshot_zero(s) && n.initial == Some(s)))
            &&& (n.phase == CgroupSetupPhase::Populated && m.phase != CgroupSetupPhase::Populated && !m.resources
                ==> m.phase == CgroupSetupPhase::Read((m.controls.len() - 1) as usize) && (
            e matches CgroupEventModel::ControlRead(Ok(t)) && trimmed(t) == m.controls[m.controls.len() - 1].1))
            &&& (n.phase == CgroupSetupPhase::Snapshot && m.phase != CgroupSetupPhase::Snapshot ==> m.phase
                == CgroupSetupPhase::Read(3) && (e matches CgroupEventModel::ControlRead(Ok(t)) && trimmed(t)
                == m.controls[3].1))
            &&& (n.phase matches CgroupSetupPhase::Write(k) ==> n.phase != m.phase && k > 0 ==> m.phase
                == CgroupSetupPhase::Read((k - 1) as usize) && (e matches CgroupEventModel::ControlRead(Ok(t))
                && trimmed(t) == m.controls[k - 1].1))
            &&& (directory_exists_phase(m.phase) && (a is Fail || a is RemoveDirectory) ==> a is RemoveDirectory)
        }),
{
}

/// The state of one cgroup setup.
pub struct CgroupSetupState {
    phase: CgroupSetupPhase,
    mount_id: u64,
    parent_inode: u64,
    name: Vec<u8>,
    controls: Vec<(&'static str, String)>,
    resources: bool,
    configured: Option<ConfiguredResources>,
    initial: Option<ResourceSnapshot>,
}

/// A well-formed setup: four controls and configured resources for a group with
/// memory and swap bounds, the process control alone and no snapshot otherwise; a
/// phase after the snapshot holds a zero one.
pub open spec fn setup_model_ok(m: CgroupSetupModel) -> bool {
    &&& m.controls.len() == (if m.resources { 4int } else { 1int })
    &&& m.resources == m.configured is Some
    &&& (!m.resources ==> m.initial is None)
    &&& (m.phase matches CgroupSetupPhase::Write(k) ==> k < m.controls.len())
    &&& (m.phase matches CgroupSetupPhase::Read(k) ==> k < m.controls.len())
    &&& (m.phase == CgroupSetupPhase::Snapshot ==> m.resources)
    &&& (m.resources && (m.phase == CgroupSetupPhase::Populated || m.phase == CgroupSetupPhase::Processes
        || m.phase == CgroupSetupPhase::Inode)) ==> (m.initial matches Some(s) && snapshot_zero(s))
}

impl CgroupSetupState {
    /// The model of this state.
    pub closed spec fn model(&self) -> CgroupSetupModel {
        CgroupSetupModel {
            phase: self.phase,
            mount_id: self.mount_id,
            parent_inode: self.parent_inode,
            name: self.name@,
            controls: self.controls@.map_values(|c: (&'static str, String)| (c.0@, string_bytes(c.1))),
            resources: self.resources,
            configured: self.configured,
            initial: self.initial,
        }
    }

    #[verifier::type_invariant]
    closed spec fn well_formed(&self) -> bool {
        setup_model_ok(self.model())
    }

    /// The model is well formed.
    pub fn phase(&self) -> (r: CgroupSetupPhase)
        ensures
            r == self.model().phase,
            setup_model_ok(self.model()),
    {
        proof {
            use_type_invariant(self);
        }
        self.phase
    }

    fn pending(&self) -> (r: CgroupSetupAction)
        ensures
            r.model() == pending_action(self.model()),
    {
        proof {
            use_type_invariant(self);
        }
        match self.phase {
            CgroupSetupPhase::OpenParent => CgroupSetupAction::OpenParent,
            CgroupSetupPhase::ReadSubtree => CgroupSetupAction::ReadSubtreeControl,
            CgroupSetupPhase::Create => CgroupSetupAction::CreateDirectory(copy_bytes(self.name.as_slice())),
            CgroupSetupPhase::Open => CgroupSetupAction::OpenDirectory(copy_bytes(self.name.as_slice())),
            CgroupSetupPhase::Write(k) => CgroupSetupAction::WriteControl(self.controls[k].0, copy_string(&self.controls[k].1)),
            CgroupSetupPhase::Read(k) => CgroupSetupAction::ReadControl(self.controls[k].0),
            CgroupSetupPhase::Snapshot => CgroupSetupAction::ReadResourceSnapshot,
            CgroupSetupPhase::Populated => CgroupSetupAction::ReadPopulated,
            CgroupSetupPhase::Processes => CgroupSetupAction::ReadProcesses,
            CgroupSetupPhase::Inode => CgroupSetupAction::ReadInode,
            CgroupSetupPhase::Finished => CgroupSetupAction::Stop,
        }
    }
}

fn copy_bytes(s: &[u8]) -> (r: Vec<u8>)
    ensures
        r@ == s@,
{
    let r = copy_range(s, 0, s.len());
    assert(s@.subrange(0, s@.len() as int) =~= s@);
    r
}

fn copy_string(s: &String) -> (r: String)
    ensures
        string_bytes(r) == string_bytes(*s),
{
    s.clone()
}

/// Whether the trimmed text equals the expected value bytes.
fn trimmed_equals(text: &String, expected: &String) -> (r: bool)
    ensures
        r == (trimmed(string_bytes(*text)) == string_bytes(*expected)),
{
    let bytes = text.as_str().as_bytes();
    let (a, b) = trim_range(bytes);
    let piece = copy_range(bytes, a, b);
    crate::text::bytes_equal(piece.as_slice(), expected.as_str().as_bytes())
}

/// The capability is one a version 2 setup can use: a known mount and both the
/// `memory` and `pids` controllers.
pub open spec fn setup_capability_ok(capability: CgroupV2Capability) -> bool {
    &&& capability.model().mount_id != 0
    &&& capability.model().controllers.contains("memory".spec_bytes())
    &&& capability.model().controllers.contains("pids".spec_bytes())
}

/// Starts the setup of the fresh cgroup of `execution_id` under `capability` with
/// `limits`. A capability without a mount identifier or without the `memory` and
/// `pids` controllers is `CapabilityMismatch`; limits without memory or swap bounds
/// are `ResourceProfileIncomplete`. The configured resources are what the rendered
/// controls read back as.
pub fn cgroup_setup_start(capability: &CgroupV2Capability, execution_id: ExecutionId, limits: ResourceLimits) -> (r:
    Result<(CgroupSetupState, CgroupSetupAction), CgroupError>)
    ensures
        !setup_capability_ok(*capability) ==> r == Err::<(CgroupSetupState, CgroupSetupAction), CgroupError>(
            CgroupError::CapabilityMismatch,
        ),
        setup_capability_ok(*capability) && !(limits.memory_of() is Some && limits.swap_of() is Some) ==> r == Err::<
            (CgroupSetupState, CgroupSetupAction),
            CgroupError,
        >(CgroupError::ResourceProfileIncomplete),
        setup_capability_ok(*capability) && limits.memory_of() is Some && limits.swap_of() is Some && !readbacks_ok(
            control_value_bytes(limits),
        ) ==> r == Err::<(CgroupSetupState, CgroupSetupAction), CgroupError>(
            readback_error(control_value_bytes(limits)),
        ),
        setup_capability_ok(*capability) && limits.memory_of() is Some && limits.swap_of() is Some && readbacks_ok(
            control_value_bytes(limits),
        ) ==> (r matches Ok((s, a)) && {
            let m = s.model();
            &&& m.phase == CgroupSetupPhase::OpenParent
            &&& m.mount_id == capability.model().mount_id
            &&& m.parent_inode == capability.model().directory_inode
            &&& m.name == cgroup_name_bytes(execution_id)
            &&& m.resources
            &&& m.controls.len() == 4
            &&& m.controls[0].0 == "pids.max"@ && m.controls[1].0 == "memory.max"@
            &&& m.controls[2].0 == "memory.swap.max"@ && m.controls[3].0 == "memory.oom.group"@
            &&& forall|k: int| 0 <= k < 4 ==> (#[trigger] m.controls[k]).1 == control_value_bytes(limits)[k]
            &&& m.configured matches Some(c) && Some(c.processes_of().value()) == readback_processes(
                control_value_bytes(limits)[0],
            ) && Some(c.memory_of().value()) == readback_memory(control_value_bytes(limits)[1]) && Some(
                c.swap_of().value(),
            ) == readback_swap(control_value_bytes(limits)[2]) && c.memory_oom_group_of() == 1
            &&& m.initial is None
            &&& a.model() == CgroupActionModel::OpenParent
        }),
{
    let controllers = capability.controllers();
    if capability.mount_id() == 0 || !crate::probe::set_contains(controllers, "memory")
        || !crate::probe::set_contains(controllers, "pids") {
        return Err(CgroupError::CapabilityMismatch);
    }
    let controls = installed_control_values(limits)?;
    let values: [&str; 4] = [
        controls[0].1.as_str(),
        controls[1].1.as_str(),
        controls[2].1.as_str(),
        controls[3].1.as_str(),
    ];
    proof {
        assert(strs_bytes(values@) =~= control_value_bytes(limits));
    }
    let configured = configured_resources_from_readbacks(values)?;
    let state = CgroupSetupState {
        phase: CgroupSetupPhase::OpenParent,
        mount_id: capability.mount_id(),
        parent_inode: capability.directory_inode(),
        name: cgroup_name(execution_id),
        controls,
        resources: true,
        configured: Some(configured),
        initial: None,
    };
    Ok((state, CgroupSetupAction::OpenParent))
}

/// Starts the setup of the fresh cgroup of `execution_id` under `capability` with a
/// process limit alone. A capability without a mount identifier or without the
/// `pids` controller is `CapabilityMismatch`; the only control is `pids.max`, and no
/// resource snapshot is taken.
pub fn cgroup_setup_start_processes(
    capability: &CgroupV2Capability,
    execution_id: ExecutionId,
    process_limit: ProcessLimit,
) -> (r: Result<(CgroupSetupState, CgroupSetupAction), CgroupError>)
    ensures
        (capability.model().mount_id == 0 || !capability.model().controllers.contains("pids".spec_bytes())) ==> r
            == Err::<(CgroupSetupState, CgroupSetupAction), CgroupError>(CgroupError::CapabilityMismatch),
        !(capability.model().mount_id == 0 || !capability.model().controllers.contains("pids".spec_bytes())) ==> (
        r matches Ok((s, a)) && {
            let m = s.model();
            &&& m.phase == CgroupSetupPhase::OpenParent
            &&& m.mount_id == capability.model().mount_id
            &&& m.parent_inode == capability.model().directory_inode
            &&& m.name == cgroup_name_bytes(execution_id)
            &&& !m.resources
            &&& m.controls == seq![("pids.max"@, decimal_text(process_limit.value() as nat))]
            &&& m.configured is None
            &&& m.initial is None
            &&& a.model() == CgroupActionModel::OpenParent
        }),
{
    let controllers = capability.controllers();
    if capability.mount_id() == 0 || !crate::probe::set_contains(controllers, "pids") {
        return Err(CgroupError::CapabilityMismatch);
    }
    let mut controls: Vec<(&'static str, String)> = Vec::new();
    controls.push(("pids.max", decimal_string(process_limit.get() as u64)));
    let state = CgroupSetupState {
        phase: CgroupSetupPhase::OpenParent,
        mount_id: capability.mount_id(),
        parent_inode: capability.directory_inode(),
        name: cgroup_name(execution_id),
        controls,
        resources: false,
        configured: None,
        initial: None,
    };
    proof {
        assert(state.model().controls =~= seq![("pids.max"@, decimal_text(process_limit.value() as nat))]);
    }
    Ok((state, CgroupSetupAction::OpenParent))
}

/// Decides the next state and action of a cgroup setup from the caller's report
/// on the last action; see `cgroup_setup_next`.
pub fn cgroup_setup_step(state: CgroupSetupState, event: CgroupSetupEvent) -> (r: (
    CgroupSetupState,
    CgroupSetupAction,
))
    ensures
        (r.0.model(), r.1.model()) == cgroup_setup_next(state.model(), event.model()),
{
    proof {
        use_type_invariant(&state);
    }
    let mut state = state;
    match (state.phase, event) {
        (CgroupSetupPhase::OpenParent, CgroupSetupEvent::ParentOpened(r)) => match r {
            Err(e) => {
                state.phase = CgroupSetupPhase::Finished;
                (state, CgroupSetupAction::Fail(e))
            },
            Ok(inode) => if inode != state.parent_inode {
                state.phase = CgroupSetupPhase::Finished;
                (state, CgroupSetupAction::Fail(CgroupError::CapabilityMismatch))
            } else {
                state.phase = CgroupSetupPhase::ReadSubtree;
                let a = state.pending();
                (state, a)
            },
        },
        (CgroupSetupPhase::ReadSubtree, CgroupSetupEvent::SubtreeControlRead(r)) => match r {
            Err(e) => {
                state.phase = CgroupSetupPhase::Finished;
                (state, CgroupSetupAction::Fail(e))
            },
            Ok(text) => {
                let enabled = match read_set(text.as_str().as_bytes()) {
                    Some(set) => (!state.resources || crate::probe::set_contains(set.as_slice(), "memory"))
                        && crate::probe::set_contains(set.as_slice(), "pids"),
                    None => false,
                };
                if enabled {
                    state.phase = CgroupSetupPhase::Create;
                    let a = state.pending();
                    (state, a)
                } else {
                    state.phase = CgroupSetupPhase::Finished;
                    (state, CgroupSetupAction::Fail(CgroupError::ControllerUnavailable))
                }
            },
        },
        (CgroupSetupPhase::Create, CgroupSetupEvent::DirectoryCreated(r)) => match r {
            Err(e) => {
                state.phase = CgroupSetupPhase::Finished;
                (state, CgroupSetupAction::Fail(e))
            },
            Ok(_) => {
                state.phase = CgroupSetupPhase::Open;
                let a = state.pending();
                (state, a)
            },
        },
        (CgroupSetupPhase::Open, CgroupSetupEvent::DirectoryOpened(opened)) => if opened {
            state.phase = CgroupSetupPhase::Write(0);
            let a = state.pending();
            (state, a)
        } else {
            state.phase = CgroupSetupPhase::Finished;
            (state, CgroupSetupAction::RemoveDirectory(CgroupError::OpenFailed))
        },
        (CgroupSetupPhase::Write(k), CgroupSetupEvent::ControlWritten(r)) => match r {
            Err(e) => {
                state.phase = CgroupSetupPhase::Finished;
                (state, CgroupSetupAction::RemoveDirectory(e))
            },
            Ok(_) => {
                state.phase = CgroupSetupPhase::Read(k);
                let a = state.pending();
                (state, a)
            },
        },
        (CgroupSetupPhase::Read(k), CgroupSetupEvent::ControlRead(r)) => match r {
            Err(e) => {
                state.phase = CgroupSetupPhase::Finished;
                (state, CgroupSetupAction::RemoveDirectory(e))
            },
            Ok(text) => if !trimmed_equals(&text, &state.controls[k].1) {
                state.phase = CgroupSetupPhase::Finished;
                (state, CgroupSetupAction::RemoveDirectory(CgroupError::LimitMismatch))
            } else if k + 1 < state.controls.len() {
                state.phase = CgroupSetupPhase::Write(k + 1);
                let a = state.pending();
                (state, a)
            } else if state.resources {
                state.phase = CgroupSetupPhase::Snapshot;
                (state, CgroupSetupAction::ReadResourceSnapshot)
            } else {
                state.phase = CgroupSetupPhase::Populated;
                (state, CgroupSetupAction::ReadPopulated)
            },
        },
        (CgroupSetupPhase::Snapshot, CgroupSetupEvent::SnapshotRead(r)) => match r {
            Err(e) => {
                state.phase = CgroupSetupPhase::Finished;
                (state, CgroupSetupAction::RemoveDirectory(e))
            },
            Ok(snapshot) => if !snapshot.is_zero() {
                state.phase = CgroupSetupPhase::Finished;
                (state, CgroupSetupAction::RemoveDirectory(CgroupError::ObservationNonzero))
            } else {
                state.initial = Some(snapshot);
                state.phase = CgroupSetupPhase::Populated;
                (state, CgroupSetupAction::ReadPopulated)
            },
        },
        (CgroupSetupPhase::Populated, CgroupSetupEvent::PopulatedRead(r)) => match r {
            Err(e) => {
                state.phase = CgroupSetupPhase::Finished;
                (state, CgroupSetupAction::RemoveDirectory(e))
            },
            Ok(populated) => if populated {
                state.phase = CgroupSetupPhase::Finished;
                (state, CgroupSetupAction::RemoveDirectory(CgroupError::NotFresh))
            } else {
                state.phase = CgroupSetupPhase::Processes;
                (state, CgroupSetupAction::ReadProcesses)
            },
        },
        (CgroupSetupPhase::Processes, CgroupSetupEvent::ProcessesRead(r)) => match r {
            Err(e) => {
                state.phase = CgroupSetupPhase::Finished;
                (state, CgroupSetupAction::RemoveDirectory(e))
            },
            Ok(ids) => if ids.len() != 0 {
                state.phase = CgroupSetupPhase::Finished;
                (state, CgroupSetupAction::RemoveDirectory(CgroupError::NotFresh))
            } else {
                state.phase = CgroupSetupPhase::Inode;
                (state, CgroupSetupAction::ReadInode)
            },
        },
        (CgroupSetupPhase::Inode, CgroupSetupEvent::InodeRead(r)) => match r {
            Err(e) => {
                state.phase = CgroupSetupPhase::Finished;
                (state, CgroupSetupAction::Fail(e))
            },
            Ok(inode) => {
                let identity = CgroupIdentity::new(state.mount_id, inode);
                let configured = state.configured;
                let initial = state.initial;
                state.phase = CgroupSetupPhase::Finished;
                (state, CgroupSetupAction::Done(identity, configured, initial))
            },
        },
        (_, _) => {
            let a = state.pending();
            (state, a)
        },
    }
}

} // verus!
