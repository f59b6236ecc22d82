use proofbound_runtime::cgroup::{
    cgroup_name, configured_resources_from_readbacks, installed_control_values, parse_events,
    parse_processes, parse_resource_snapshot, retain_resource_observation, CgroupError,
    ResourceObservation,
};
use proofbound_runtime::model::{
    ExecutionId, MemoryByteLimit, ProcessLimit, ResourceLimits, SwapByteLimit,
};
use proofbound_runtime::receipt::LimitEvent;

fn execution_id() -> ExecutionId {
    ExecutionId::from_bytes([0, 1, 2, 3, 4, 5, 0x46, 7, 0x88, 9, 10, 11, 12, 13, 14, 15])
        .expect("fixture is a version 4 UUID")
}

#[test]
fn cgroup_name_is_a_single_stable_component() {
    assert_eq!(
        cgroup_name(execution_id()),
        b"proofbound-runtime-000102030405460788090a0b0c0d0e0f".to_vec()
    );
}

#[test]
fn version_two_controls_are_complete_and_canonical() {
    let limits = ResourceLimits::new_v2(
        ProcessLimit::new(2).expect("valid process limit"),
        1_000,
        1_024,
        2_048,
        MemoryByteLimit::new(65_536).expect("valid memory limit"),
        SwapByteLimit::new(0).expect("valid swap limit"),
    );
    assert_eq!(
        installed_control_values(limits).expect("v2 controls are complete"),
        vec![
            ("pids.max", "2".to_owned()),
            ("memory.max", "65536".to_owned()),
            ("memory.swap.max", "0".to_owned()),
            ("memory.oom.group", "1".to_owned()),
        ]
    );
    let legacy = ResourceLimits::new(ProcessLimit::new(2).expect("valid process limit"), 1_000, 1_024, 2_048);
    assert_eq!(
        installed_control_values(legacy),
        Err(CgroupError::ResourceProfileIncomplete)
    );
}

#[test]
fn version_two_observations_are_strict_monotonic_and_derive_events() {
    let initial = parse_resource_snapshot(
        "low 0\nhigh 0\nmax 0\noom 0\noom_kill 0\noom_group_kill 0\n",
        "max 0\nfail 0\n",
        "0\n",
        "0\n",
    )
    .expect("canonical zero snapshot");
    assert!(initial.is_zero());

    let terminal = parse_resource_snapshot(
        "low 0\nhigh 2\nmax 3\noom 1\noom_kill 1\noom_group_kill 0\n",
        "max 4\nfail 5\n",
        "65536\n",
        "32768\n",
    )
    .expect("canonical terminal snapshot");
    let configured = configured_resources_from_readbacks(["2", "65536", "0", "1"])
        .expect("canonical configured readbacks");
    let observed = terminal
        .checked_delta(initial, configured)
        .expect("monotonic counters");
    assert_eq!(observed.configured(), configured);
    assert_eq!(observed.configured().processes().get(), 2);
    assert_eq!(observed.configured().memory().get(), 65_536);
    assert_eq!(observed.configured().swap().get(), 0);
    assert_eq!(observed.configured().memory_oom_group(), 1);
    assert_eq!(observed.memory_peak_bytes(), 65_536);
    assert_eq!(observed.swap_peak_bytes(), 32_768);
    assert_eq!(observed.memory_events().high(), 2);
    assert_eq!(observed.memory_events().max(), 3);
    assert_eq!(observed.memory_events().oom(), 1);
    assert_eq!(observed.memory_events().oom_kill(), 1);
    assert_eq!(observed.swap_events().max(), 4);
    assert_eq!(observed.swap_events().fail(), 5);
    assert!(observed.limit_events().contains(LimitEvent::MemoryHigh));
    assert!(observed.limit_events().contains(LimitEvent::MemoryMax));
    assert!(observed.limit_events().contains(LimitEvent::MemoryOom));
    assert!(observed.limit_events().contains(LimitEvent::MemoryOomKill));
    assert!(observed.limit_events().contains(LimitEvent::SwapMax));
    assert!(observed.limit_events().contains(LimitEvent::SwapFail));

    assert_eq!(
        retain_resource_observation(configured, Err(CgroupError::ObservationInvalid)),
        ResourceObservation::Incomplete(configured)
    );

    assert_eq!(
        initial.checked_delta(terminal, configured),
        Err(CgroupError::ObservationRegression)
    );
    assert_eq!(
        parse_resource_snapshot(
            "low 0\nhigh 0\nmax 0\noom 0\noom_kill 0\n",
            "max 0\nfail 0\n",
            "0\n",
            "0\n",
        ),
        Err(CgroupError::ObservationInvalid)
    );
}

#[test]
fn swap_observation_accepts_the_kernel_high_counter_without_claiming_it() {
    let snapshot = parse_resource_snapshot(
        "low 0\nhigh 0\nmax 0\noom 0\noom_kill 0\noom_group_kill 0\n",
        "high 7\nmax 2\nfail 3\n",
        "0\n",
        "0\n",
    )
    .expect("the excluded swap-high counter is present on supported kernels");

    assert_eq!(snapshot.swap_events().max(), 2);
    assert_eq!(snapshot.swap_events().fail(), 3);
}

#[test]
fn parses_kernel_events_and_process_sets_strictly() {
    assert_eq!(parse_events("populated 0\nfrozen 0\n"), Ok(false));
    assert_eq!(parse_events("populated 1\n"), Ok(true));
    assert_eq!(parse_events("frozen 0\n"), Err(CgroupError::EventsInvalid));
    assert_eq!(
        parse_events("populated 0\npopulated 1\n"),
        Err(CgroupError::EventsInvalid)
    );
    assert_eq!(parse_processes("42\n7\n42\n"), Ok(vec![7, 42]));
    assert_eq!(parse_processes("0\n"), Err(CgroupError::ControlUnavailable));
}

#[test]
fn cgroup_error_codes_are_unique_and_stable() {
    let errors = [
        CgroupError::UnsupportedOperatingSystem,
        CgroupError::CapabilityMismatch,
        CgroupError::ResourceProfileIncomplete,
        CgroupError::ParentUnavailable,
        CgroupError::ControllerUnavailable,
        CgroupError::AlreadyExists,
        CgroupError::CreationFailed,
        CgroupError::OpenFailed,
        CgroupError::ControlUnavailable,
        CgroupError::LimitMismatch,
        CgroupError::NotFresh,
        CgroupError::ProcessIdInvalid,
        CgroupError::MembershipMismatch,
        CgroupError::EventsInvalid,
        CgroupError::ObservationInvalid,
        CgroupError::ObservationNonzero,
        CgroupError::ObservationRegression,
        CgroupError::DrainFailed,
        CgroupError::RemovalFailed,
        CgroupError::IdentityUnavailable,
        CgroupError::Openat2Unavailable,
    ];
    let mut codes = errors.map(CgroupError::code);
    codes.sort_unstable();
    assert!(codes.windows(2).all(|pair| pair[0] != pair[1]));
}

#[test]
fn resource_deltas_subtract_counters_and_reject_regressions() {
    let initial = parse_resource_snapshot(
        "low 1\nhigh 2\nmax 3\noom 0\noom_kill 0\noom_group_kill 0\n",
        "max 1\nfail 0\n",
        "10\n",
        "0\n",
    )
    .expect("canonical snapshot");
    let terminal = parse_resource_snapshot(
        "low 1\nhigh 5\nmax 3\noom 0\noom_kill 0\noom_group_kill 0\n",
        "max 1\nfail 0\n",
        "4096\n",
        "0\n",
    )
    .expect("canonical snapshot");
    let configured = configured_resources_from_readbacks(["8", "1048576", "0", "1"])
        .expect("canonical configured readbacks");
    let observed = terminal.checked_delta(initial, configured).expect("monotonic counters");
    assert_eq!(observed.memory_events().high(), 3);
    assert_eq!(observed.memory_events().max(), 0);
    assert!(observed.limit_events().contains(LimitEvent::MemoryHigh));
    assert!(!observed.limit_events().contains(LimitEvent::MemoryMax));
    assert_eq!(
        configured_resources_from_readbacks(["8", "1048576", "0", "0"]),
        Err(CgroupError::LimitMismatch)
    );
    assert_eq!(parse_processes(""), Ok(vec![]));
}
