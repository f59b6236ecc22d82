use proofbound_runtime::cgroup::{parse_resource_snapshot, CgroupError};
use proofbound_runtime::cgroup_setup::{
    cgroup_setup_start, cgroup_setup_start_processes, cgroup_setup_step, CgroupSetupAction, CgroupSetupEvent, CgroupSetupState,
};
use proofbound_runtime::model::{ExecutionId, MemoryByteLimit, ProcessLimit, ResourceLimits, SwapByteLimit};
use proofbound_runtime::probe::{cgroup_v2_capability, Capability, CgroupV2Capability, CgroupV2Observation};

fn capability(controllers: &str) -> CgroupV2Capability {
    let observation = CgroupV2Observation {
        mount: Some((37, "/sys/fs/cgroup".to_owned())),
        directory: Some("/sys/fs/cgroup/delegated".to_owned()),
        current: Some("/sys/fs/cgroup/delegated/supervisor".to_owned()),
        procs: Some(String::new()),
        cgroup_type: Some("domain\n".to_owned()),
        controllers: Some(controllers.to_owned()),
        subtree_control: Some("pids\n".to_owned()),
        writable: true,
        directory_inode: Some(9),
    };
    match cgroup_v2_capability(observation) {
        Capability::Available(capability) => capability,
        Capability::Unavailable(error) => panic!("fixture capability: {error:?}"),
    }
}

fn execution_id() -> ExecutionId {
    ExecutionId::from_bytes([0, 1, 2, 3, 4, 5, 0x46, 7, 0x88, 9, 10, 11, 12, 13, 14, 15]).expect("version 4")
}

fn limits() -> ResourceLimits {
    ResourceLimits::new_v2(
        ProcessLimit::new(2).expect("valid process limit"),
        1_000,
        1_024,
        2_048,
        MemoryByteLimit::new(65_536).expect("valid memory limit"),
        SwapByteLimit::new(0).expect("valid swap limit"),
    )
}

fn zero_snapshot() -> proofbound_runtime::cgroup::ResourceSnapshot {
    parse_resource_snapshot("low 0\nhigh 0\nmax 0\noom 0\noom_kill 0\noom_group_kill 0\n", "max 0\nfail 0\n", "0\n", "0\n")
        .expect("zero snapshot")
}

fn started() -> (CgroupSetupState, CgroupSetupAction) {
    cgroup_setup_start(&capability("cpu memory pids\n"), execution_id(), limits()).expect("setup starts")
}

/// Drives the setup up to the first control write.
fn created() -> CgroupSetupState {
    let (state, _) = started();
    let (state, _) = cgroup_setup_step(state, CgroupSetupEvent::ParentOpened(Ok(9)));
    let (state, _) = cgroup_setup_step(state, CgroupSetupEvent::SubtreeControlRead(Ok("memory pids\n".to_owned())));
    let (state, _) = cgroup_setup_step(state, CgroupSetupEvent::DirectoryCreated(Ok(())));
    let (state, action) = cgroup_setup_step(state, CgroupSetupEvent::DirectoryOpened(true));
    assert_eq!(action, CgroupSetupAction::WriteControl("pids.max", "2".to_owned()));
    state
}

#[test]
fn cgroup_setup_checks_capability_and_profile() {
    let missing_memory = cgroup_setup_start(&capability("cpu pids\n"), execution_id(), limits());
    assert_eq!(missing_memory.err(), Some(CgroupError::CapabilityMismatch));
    let legacy = ResourceLimits::new(ProcessLimit::new(2).expect("valid process limit"), 1_000, 1_024, 2_048);
    let incomplete = cgroup_setup_start(&capability("cpu memory pids\n"), execution_id(), legacy);
    assert_eq!(incomplete.err(), Some(CgroupError::ResourceProfileIncomplete));
    let (_, action) = started();
    assert_eq!(action, CgroupSetupAction::OpenParent);
}

#[test]
fn cgroup_setup_runs_every_check_before_done() {
    let (state, _) = started();
    let (state, action) = cgroup_setup_step(state, CgroupSetupEvent::ParentOpened(Ok(9)));
    assert_eq!(action, CgroupSetupAction::ReadSubtreeControl);
    let (state, action) = cgroup_setup_step(state, CgroupSetupEvent::SubtreeControlRead(Ok("memory pids\n".to_owned())));
    assert_eq!(
        action,
        CgroupSetupAction::CreateDirectory(b"proofbound-runtime-000102030405460788090a0b0c0d0e0f".to_vec())
    );
    let (state, _) = cgroup_setup_step(state, CgroupSetupEvent::DirectoryCreated(Ok(())));
    let (mut state, _) = cgroup_setup_step(state, CgroupSetupEvent::DirectoryOpened(true));
    let expected = [("pids.max", "2"), ("memory.max", "65536"), ("memory.swap.max", "0"), ("memory.oom.group", "1")];
    for (name, value) in expected {
        let (next, action) = cgroup_setup_step(state, CgroupSetupEvent::ControlWritten(Ok(())));
        assert_eq!(action, CgroupSetupAction::ReadControl(name));
        let (next, _) = cgroup_setup_step(next, CgroupSetupEvent::ControlRead(Ok(format!("{value}\n"))));
        state = next;
    }
    let (state, action) = cgroup_setup_step(state, CgroupSetupEvent::SnapshotRead(Ok(zero_snapshot())));
    assert_eq!(action, CgroupSetupAction::ReadPopulated);
    let (state, action) = cgroup_setup_step(state, CgroupSetupEvent::PopulatedRead(Ok(false)));
    assert_eq!(action, CgroupSetupAction::ReadProcesses);
    let (state, action) = cgroup_setup_step(state, CgroupSetupEvent::ProcessesRead(Ok(Vec::new())));
    assert_eq!(action, CgroupSetupAction::ReadInode);
    let (_, action) = cgroup_setup_step(state, CgroupSetupEvent::InodeRead(Ok(77)));
    match action {
        CgroupSetupAction::Done(identity, configured, initial) => {
            assert_eq!((identity.mount_id(), identity.inode()), (37, 77));
            assert_eq!(configured.expect("configured resources").processes().get(), 2);
            assert!(initial.expect("initial snapshot").is_zero());
        },
        other => panic!("setup not done: {other:?}"),
    }
}

#[test]
fn cgroup_setup_removes_the_directory_on_later_failures() {
    let (_, action) = started();
    assert_eq!(action, CgroupSetupAction::OpenParent);
    let (state, _) = started();
    let (_, action) = cgroup_setup_step(state, CgroupSetupEvent::ParentOpened(Ok(10)));
    assert_eq!(action, CgroupSetupAction::Fail(CgroupError::CapabilityMismatch));

    let (state, _) = started();
    let (state, _) = cgroup_setup_step(state, CgroupSetupEvent::ParentOpened(Ok(9)));
    let (_, action) = cgroup_setup_step(state, CgroupSetupEvent::SubtreeControlRead(Ok("pids\n".to_owned())));
    assert_eq!(action, CgroupSetupAction::Fail(CgroupError::ControllerUnavailable));

    let state = created();
    let (state, _) = cgroup_setup_step(state, CgroupSetupEvent::ControlWritten(Ok(())));
    let (_, action) = cgroup_setup_step(state, CgroupSetupEvent::ControlRead(Ok("3\n".to_owned())));
    assert_eq!(action, CgroupSetupAction::RemoveDirectory(CgroupError::LimitMismatch));

    let state = created();
    let (_, action) = cgroup_setup_step(state, CgroupSetupEvent::ControlWritten(Err(CgroupError::ControlUnavailable)));
    assert_eq!(action, CgroupSetupAction::RemoveDirectory(CgroupError::ControlUnavailable));

    let (state, _) = started();
    let (state, _) = cgroup_setup_step(state, CgroupSetupEvent::ParentOpened(Ok(9)));
    let (state, _) = cgroup_setup_step(state, CgroupSetupEvent::SubtreeControlRead(Ok("memory pids".to_owned())));
    let (state, _) = cgroup_setup_step(state, CgroupSetupEvent::DirectoryCreated(Ok(())));
    let (_, action) = cgroup_setup_step(state, CgroupSetupEvent::DirectoryOpened(false));
    assert_eq!(action, CgroupSetupAction::RemoveDirectory(CgroupError::OpenFailed));
}

#[test]
fn process_only_cgroup_setup_writes_one_control_and_takes_no_snapshot() {
    let limit = ProcessLimit::new(7).expect("valid process limit");
    let (state, action) = cgroup_setup_start_processes(&capability("cpu pids\n"), execution_id(), limit)
        .expect("pids is enough");
    assert_eq!(action, CgroupSetupAction::OpenParent);
    let (state, _) = cgroup_setup_step(state, CgroupSetupEvent::ParentOpened(Ok(9)));
    let (state, action) = cgroup_setup_step(state, CgroupSetupEvent::SubtreeControlRead(Ok("pids\n".to_owned())));
    assert!(matches!(action, CgroupSetupAction::CreateDirectory(_)));
    let (state, _) = cgroup_setup_step(state, CgroupSetupEvent::DirectoryCreated(Ok(())));
    let (state, action) = cgroup_setup_step(state, CgroupSetupEvent::DirectoryOpened(true));
    assert_eq!(action, CgroupSetupAction::WriteControl("pids.max", "7".to_owned()));
    let (state, _) = cgroup_setup_step(state, CgroupSetupEvent::ControlWritten(Ok(())));
    let (state, action) = cgroup_setup_step(state, CgroupSetupEvent::ControlRead(Ok("7\n".to_owned())));
    assert_eq!(action, CgroupSetupAction::ReadPopulated);
    let (state, _) = cgroup_setup_step(state, CgroupSetupEvent::PopulatedRead(Ok(false)));
    let (state, _) = cgroup_setup_step(state, CgroupSetupEvent::ProcessesRead(Ok(Vec::new())));
    let (_, action) = cgroup_setup_step(state, CgroupSetupEvent::InodeRead(Ok(5)));
    match action {
        CgroupSetupAction::Done(identity, configured, initial) => {
            assert_eq!(identity.inode(), 5);
            assert!(configured.is_none() && initial.is_none());
        },
        other => panic!("setup not done: {other:?}"),
    }
}
