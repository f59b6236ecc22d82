//! The decisions of an active trace on each wait result: which kind of stop the
//! kernel reported for which tracee, whether a new child fits the process limit, and
//! whether a tracee may be at a system-call stop.
use vstd::prelude::*;

use crate::trace::{
    state_in, TraceObservationError, TraceProcessCreationKind, TraceProcessId, TraceProcessLimit,
    TraceProcessTable, TraceTermination,
};

verus! {

/// The stop signal of a new tracee's initial stop.
pub const SIGNAL_STOP: i32 = 19;

/// The trap signal of a ptrace event stop.
pub const SIGNAL_TRAP: i32 = 5;

/// The signal of a system-call stop: the trap signal with bit 7 set.
pub const SIGNAL_SYSCALL: i32 = 133;

/// The ptrace event of a `fork`.
pub const PTRACE_EVENT_FORK: u32 = 1;

/// The ptrace event of a `vfork`.
pub const PTRACE_EVENT_VFORK: u32 = 2;

/// The ptrace event of a `clone`.
pub const PTRACE_EVENT_CLONE: u32 = 3;

/// The ptrace event of a successful exec.
pub const PTRACE_EVENT_EXEC: u32 = 4;

/// One wait result of a traced process.
#[derive(Clone, Copy, Debug, PartialEq, Eq, Structural)]
pub enum TraceWaitStatus {
    /// Stopped by `signal`, with the ptrace `event` in the status's high bits.
    Stopped { signal: i32, event: u32 },
    /// Exited with `code`.
    Exited { code: i32 },
    /// Terminated by `signal`.
    Signaled { signal: i32 },
}

/// What a wait result asks the trace to do.
#[derive(Clone, Copy, Debug, PartialEq, Eq, Structural)]
pub enum TraceWaitKind {
    /// The tracee replaced its image: reconcile the exec.
    ImageReplaced,
    /// The tracee created a child of this kind: register it.
    ProcessCreated(TraceProcessCreationKind),
    /// The tracee is at a system-call entry or exit.
    SyscallStop,
    /// A new tracee reached its initial stop: mark it observed and resume it.
    InitialStop,
    /// The tracee stopped outside the protocol: the trace must drain.
    UnexpectedStop { signal: i32, event: u32 },
    /// The tracee terminated: forget it.
    Terminated(TraceTermination),
}

/// The child kind of a process-creation event.
pub open spec fn creation_kind(event: u32) -> Option<TraceProcessCreationKind> {
    if event == PTRACE_EVENT_FORK {
        Some(TraceProcessCreationKind::Fork)
    } else if event == PTRACE_EVENT_VFORK {
        Some(TraceProcessCreationKind::Vfork)
    } else if event == PTRACE_EVENT_CLONE {
        Some(TraceProcessCreationKind::Clone)
    } else {
        None
    }
}

/// The kind of a wait result for a tracee whose initial stop is awaited or not.
pub open spec fn wait_kind(status: TraceWaitStatus, awaiting_initial_stop: bool) -> TraceWaitKind {
    match status {
        TraceWaitStatus::Stopped { signal, event } => if signal == SIGNAL_TRAP && event == PTRACE_EVENT_EXEC {
            TraceWaitKind::ImageReplaced
        } else if signal == SIGNAL_TRAP && creation_kind(event) is Some {
            TraceWaitKind::ProcessCreated(creation_kind(event)->0)
        } else if signal == SIGNAL_SYSCALL && event == 0 {
            TraceWaitKind::SyscallStop
        } else if signal == SIGNAL_STOP && event == 0 && awaiting_initial_stop {
            TraceWaitKind::InitialStop
        } else {
            TraceWaitKind::UnexpectedStop { signal, event }
        },
        TraceWaitStatus::Exited { code } => TraceWaitKind::Terminated(TraceTermination::Exit(code)),
        TraceWaitStatus::Signaled { signal } => TraceWaitKind::Terminated(TraceTermination::Signal(signal)),
    }
}

fn creation_kind_of(event: u32) -> (r: Option<TraceProcessCreationKind>)
    ensures
        r == creation_kind(event),
{
    if event == PTRACE_EVENT_FORK {
        Some(TraceProcessCreationKind::Fork)
    } else if event == PTRACE_EVENT_VFORK {
        Some(TraceProcessCreationKind::Vfork)
    } else if event == PTRACE_EVENT_CLONE {
        Some(TraceProcessCreationKind::Clone)
    } else {
        None
    }
}

/// Decides what one wait result for `requested` means. A reported identifier that is
/// not a process identifier is `ProcessIdentityInvalid`, another process than the
/// requested one `ProcessIdentityChanged`; otherwise the kind of the status, where a
/// stop by `SIGSTOP` is the initial stop only for a tracee whose initial stop the
/// table still awaits.
pub fn classify_wait_observation(
    table: &TraceProcessTable,
    requested: TraceProcessId,
    reported: u32,
    status: TraceWaitStatus,
) -> (r: Result<(TraceProcessId, TraceWaitKind), TraceObservationError>)
    ensures
        !(1 <= reported <= i32::MAX) ==> r == Err::<(TraceProcessId, TraceWaitKind), TraceObservationError>(
            TraceObservationError::ProcessIdentityInvalid,
        ),
        1 <= reported <= i32::MAX && reported != requested.value() ==> r == Err::<
            (TraceProcessId, TraceWaitKind),
            TraceObservationError,
        >(TraceObservationError::ProcessIdentityChanged),
        1 <= reported <= i32::MAX && reported == requested.value() ==> (r matches Ok((p, kind)) && p.value()
            == reported && kind == wait_kind(
            status,
            state_in(table.entries_of(), reported) matches Some(st) && st.awaiting_initial_stop,
        )),
{
    let process = match TraceProcessId::new(reported) {
        Ok(process) => process,
        Err(_) => {
            return Err(TraceObservationError::ProcessIdentityInvalid);
        },
    };
    if process.get() != requested.get() {
        return Err(TraceObservationError::ProcessIdentityChanged);
    }
    let awaiting = match table.get(process) {
        Some(state) => state.awaiting_initial_stop,
        None => false,
    };
    let kind = match status {
        TraceWaitStatus::Stopped { signal, event } => {
            let created = creation_kind_of(event);
            if signal == SIGNAL_TRAP && event == PTRACE_EVENT_EXEC {
                TraceWaitKind::ImageReplaced
            } else if signal == SIGNAL_TRAP && created.is_some() {
                match created {
                    Some(kind) => TraceWaitKind::ProcessCreated(kind),
                    None => TraceWaitKind::UnexpectedStop { signal, event },
                }
            } else if signal == SIGNAL_SYSCALL && event == 0 {
                TraceWaitKind::SyscallStop
            } else if signal == SIGNAL_STOP && event == 0 && awaiting {
                TraceWaitKind::InitialStop
            } else {
                TraceWaitKind::UnexpectedStop { signal, event }
            }
        },
        TraceWaitStatus::Exited { code } => TraceWaitKind::Terminated(TraceTermination::Exit(code)),
        TraceWaitStatus::Signaled { signal } => TraceWaitKind::Terminated(TraceTermination::Signal(signal)),
    };
    Ok((process, kind))
}

/// Decides whether a new child can be registered in a table of `retained` tracees:
/// a table at twice the process limit is `ProcessCapacityExceeded`; otherwise whether
/// the table already holds the process limit, so that the trace must drain.
pub fn child_capacity(retained: usize, limit: TraceProcessLimit) -> (r: Result<bool, TraceObservationError>)
    ensures
        retained >= 2 * limit.value() ==> r == Err::<bool, TraceObservationError>(
            TraceObservationError::ProcessCapacityExceeded,
        ),
        retained < 2 * limit.value() ==> r == Ok::<bool, TraceObservationError>(retained >= limit.value()),
{
    if retained >= limit.drain_capacity() {
        return Err(TraceObservationError::ProcessCapacityExceeded);
    }
    Ok(retained >= limit.get() as usize)
}

/// Decides whether `process` may be at a system-call stop: an unknown tracee is
/// `ProcessUnknown`, one whose initial stop is still awaited `InitialStopMissing`.
pub fn syscall_stop_allowed(table: &TraceProcessTable, process: TraceProcessId) -> (r: Result<
    (),
    TraceObservationError,
>)
    ensures
        match state_in(table.entries_of(), process.value()) {
            None => r == Err::<(), TraceObservationError>(TraceObservationError::ProcessUnknown),
            Some(st) => if st.awaiting_initial_stop {
                r == Err::<(), TraceObservationError>(TraceObservationError::InitialStopMissing)
            } else {
                r is Ok
            },
        },
{
    match table.get(process) {
        None => Err(TraceObservationError::ProcessUnknown),
        Some(state) => if state.awaiting_initial_stop {
            Err(TraceObservationError::InitialStopMissing)
        } else {
            Ok(())
        },
    }
}

/// Decides whether a system-call entry may be captured for `process`: a tracee that
/// is already inside a system call is `SyscallOrderInvalid`.
pub fn syscall_entry_allowed(table: &TraceProcessTable, process: TraceProcessId) -> (r: Result<
    (),
    TraceObservationError,
>)
    ensures
        match state_in(table.entries_of(), process.value()) {
            None => r == Err::<(), TraceObservationError>(TraceObservationError::ProcessUnknown),
            Some(st) => if st.pending is Some {
                r == Err::<(), TraceObservationError>(TraceObservationError::SyscallOrderInvalid)
            } else {
                r is Ok
            },
        },
{
    match table.get(process) {
        None => Err(TraceObservationError::ProcessUnknown),
        Some(state) => if state.pending.is_some() {
            Err(TraceObservationError::SyscallOrderInvalid)
        } else {
            Ok(())
        },
    }
}

} // verus!
