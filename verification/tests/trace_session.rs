use proofbound_runtime::trace::{
    TraceObservationError, TraceProcessCreationKind, TraceProcessId, TraceProcessLimit, TraceProcessTable,
    TraceTermination, TraceeState,
};
use proofbound_runtime::trace_session::{
    child_capacity, classify_wait_observation, syscall_entry_allowed, syscall_stop_allowed, TraceWaitKind,
    TraceWaitStatus,
};

fn pid(value: u32) -> TraceProcessId {
    TraceProcessId::new(value).expect("valid process id")
}

fn table() -> TraceProcessTable {
    let mut table = TraceProcessTable::new();
    table.insert(pid(10), TraceeState::observing(pid(10)));
    table.insert(pid(11), TraceeState::awaiting_stop(pid(10)));
    table
}

#[test]
fn wait_results_are_classified_for_the_requested_tracee() {
    let table = table();
    let kind = |process: u32, status| classify_wait_observation(&table, pid(process), process, status).map(|(_, k)| k);
    assert_eq!(kind(10, TraceWaitStatus::Stopped { signal: 5, event: 4 }), Ok(TraceWaitKind::ImageReplaced));
    assert_eq!(
        kind(10, TraceWaitStatus::Stopped { signal: 5, event: 2 }),
        Ok(TraceWaitKind::ProcessCreated(TraceProcessCreationKind::Vfork))
    );
    assert_eq!(kind(10, TraceWaitStatus::Stopped { signal: 133, event: 0 }), Ok(TraceWaitKind::SyscallStop));
    assert_eq!(kind(11, TraceWaitStatus::Stopped { signal: 19, event: 0 }), Ok(TraceWaitKind::InitialStop));
    assert_eq!(
        kind(10, TraceWaitStatus::Stopped { signal: 19, event: 0 }),
        Ok(TraceWaitKind::UnexpectedStop { signal: 19, event: 0 })
    );
    assert_eq!(
        kind(10, TraceWaitStatus::Signaled { signal: 9 }),
        Ok(TraceWaitKind::Terminated(TraceTermination::Signal(9)))
    );
    assert_eq!(
        classify_wait_observation(&table, pid(10), 12, TraceWaitStatus::Exited { code: 0 }).map(|(_, k)| k),
        Err(TraceObservationError::ProcessIdentityChanged)
    );
    assert_eq!(
        classify_wait_observation(&table, pid(10), 0, TraceWaitStatus::Exited { code: 0 }).map(|(_, k)| k),
        Err(TraceObservationError::ProcessIdentityInvalid)
    );
}

#[test]
fn child_capacity_and_syscall_stop_order_are_checked() {
    let limit = TraceProcessLimit::new(2).expect("valid limit");
    assert_eq!(child_capacity(1, limit), Ok(false));
    assert_eq!(child_capacity(2, limit), Ok(true));
    assert_eq!(child_capacity(4, limit), Err(TraceObservationError::ProcessCapacityExceeded));
    let table = table();
    assert_eq!(syscall_stop_allowed(&table, pid(10)), Ok(()));
    assert_eq!(syscall_stop_allowed(&table, pid(11)), Err(TraceObservationError::InitialStopMissing));
    assert_eq!(syscall_stop_allowed(&table, pid(12)), Err(TraceObservationError::ProcessUnknown));
    assert_eq!(syscall_entry_allowed(&table, pid(10)), Ok(()));
}
