use proofbound_runtime::probe::{
    cgroup_v2_capability, current_cgroup_path, is_canonical_path, landlock_capability,
    no_new_privileges_capability, parse_cgroup_v2_mount, path_is_under,
    probe_unsupported_platform, read_nonempty, seccomp_capability, Architecture, Capability,
    CapabilityReport, CgroupV2Observation, ProbeError,
};

#[test]
fn unsupported_hosts_never_produce_supported_linux() {
    let report = probe_unsupported_platform();
    assert_eq!(
        report.clone().require_supported(),
        Err(ProbeError::UnsupportedOperatingSystem)
    );
    assert!(!report.operating_system.is_available());
    assert!(!report.landlock_abi.is_available());
    assert!(!report.seccomp.is_available());
    assert!(!report.cgroup_v2.is_available());
}

#[test]
fn probe_errors_have_distinct_stable_codes() {
    let errors = [
        ProbeError::UnsupportedOperatingSystem,
        ProbeError::UnsupportedArchitecture,
        ProbeError::KernelReleaseUnavailable,
        ProbeError::LandlockUnavailable,
        ProbeError::LandlockAbiUnsupported,
        ProbeError::NoNewPrivilegesUnavailable,
        ProbeError::SeccompUnavailable,
        ProbeError::SeccompActionMissing,
        ProbeError::CgroupV2Unavailable,
        ProbeError::CgroupV2DelegationUnavailable,
        ProbeError::CgroupV2ControllerMissing,
    ];
    let mut codes: Vec<_> = errors.into_iter().map(ProbeError::code).collect();
    codes.sort_unstable();
    codes.dedup();
    assert_eq!(codes.len(), errors.len());
}

#[test]
fn parses_exact_cgroup_v2_mount_identity() {
    let mountinfo = "22 1 0:20 / /proc rw - proc proc rw\n\
                     37 1 0:42 / /sys/fs/cgroup\\040delegated rw - cgroup2 cgroup rw\n";
    assert_eq!(
        parse_cgroup_v2_mount(mountinfo),
        Some((37, "/sys/fs/cgroup delegated".to_owned()))
    );
}

#[test]
fn mountinfo_without_a_unified_hierarchy_has_no_mount() {
    assert_eq!(parse_cgroup_v2_mount("22 1 0:20 / /proc rw - proc proc rw\n"), None);
    assert_eq!(parse_cgroup_v2_mount(""), None);
}

#[test]
fn landlock_and_no_new_privileges_capabilities_are_exact() {
    assert_eq!(landlock_capability(None), Capability::Unavailable(ProbeError::LandlockUnavailable));
    assert_eq!(landlock_capability(Some(0)), Capability::Unavailable(ProbeError::LandlockUnavailable));
    assert_eq!(
        landlock_capability(Some(2)),
        Capability::Unavailable(ProbeError::LandlockAbiUnsupported)
    );
    assert_eq!(
        landlock_capability(Some(12)),
        Capability::Unavailable(ProbeError::LandlockAbiUnsupported)
    );
    match landlock_capability(Some(4)) {
        Capability::Available(abi) => assert_eq!(abi.get(), 4),
        Capability::Unavailable(error) => panic!("unexpected {error:?}"),
    }
    assert_eq!(no_new_privileges_capability(Some(true)), Capability::Available(()));
    assert_eq!(
        no_new_privileges_capability(Some(false)),
        Capability::Unavailable(ProbeError::NoNewPrivilegesUnavailable)
    );
    assert_eq!(
        no_new_privileges_capability(None),
        Capability::Unavailable(ProbeError::NoNewPrivilegesUnavailable)
    );
}

#[test]
fn seccomp_capability_requires_every_action() {
    match seccomp_capability(true, Some("kill_process kill_thread trap errno user_notif trace log allow\n")) {
        Capability::Available(seccomp) => {
            assert!(seccomp.available_actions().iter().any(|action| action == "errno"));
            assert!(seccomp.available_actions().iter().any(|action| action == "allow"));
        },
        Capability::Unavailable(error) => panic!("unexpected {error:?}"),
    }
    assert_eq!(
        seccomp_capability(true, Some("kill_process allow\n")),
        Capability::Unavailable(ProbeError::SeccompActionMissing)
    );
    assert_eq!(
        seccomp_capability(false, Some("kill_process errno allow\n")),
        Capability::Unavailable(ProbeError::SeccompUnavailable)
    );
    assert_eq!(seccomp_capability(true, None), Capability::Unavailable(ProbeError::SeccompUnavailable));
}

#[test]
fn kernel_release_text_is_trimmed_and_nonempty() {
    assert_eq!(
        read_nonempty(Some("6.8.0-test\n"), ProbeError::KernelReleaseUnavailable),
        Capability::Available("6.8.0-test".to_owned())
    );
    assert_eq!(
        read_nonempty(Some(" \n"), ProbeError::KernelReleaseUnavailable),
        Capability::Unavailable(ProbeError::KernelReleaseUnavailable)
    );
    assert_eq!(
        read_nonempty(None, ProbeError::KernelReleaseUnavailable),
        Capability::Unavailable(ProbeError::KernelReleaseUnavailable)
    );
}

#[test]
fn canonical_paths_and_containment_follow_path_components() {
    assert!(is_canonical_path("/"));
    assert!(is_canonical_path("/sys/fs/cgroup"));
    assert!(!is_canonical_path("sys/fs"));
    assert!(!is_canonical_path("/sys//fs"));
    assert!(!is_canonical_path("/sys/fs/"));
    assert!(!is_canonical_path("/sys/../fs"));
    assert!(!is_canonical_path("/sys/./fs"));
    assert!(path_is_under("/sys/fs/cgroup/a", "/sys/fs/cgroup"));
    assert!(path_is_under("/sys/fs/cgroup", "/sys/fs/cgroup"));
    assert!(!path_is_under("/sys/fs/cgroupx", "/sys/fs/cgroup"));
    assert!(path_is_under("/anything", "/"));
    assert_eq!(
        current_cgroup_path("0::/user.slice/supervisor\n"),
        Some("/user.slice/supervisor".to_owned())
    );
    assert_eq!(current_cgroup_path("1:name=systemd:/x\n"), None);
}

fn observation() -> CgroupV2Observation {
    CgroupV2Observation {
        mount: Some((37, "/sys/fs/cgroup".to_owned())),
        directory: Some("/sys/fs/cgroup/delegated".to_owned()),
        current: Some("/sys/fs/cgroup/delegated/supervisor".to_owned()),
        procs: Some(String::new()),
        cgroup_type: Some("domain\n".to_owned()),
        controllers: Some("cpu memory pids\n".to_owned()),
        subtree_control: Some("memory pids\n".to_owned()),
        writable: true,
        directory_inode: Some(9),
    }
}

#[test]
fn cgroup_v2_delegation_is_checked_in_order() {
    match cgroup_v2_capability(observation()) {
        Capability::Available(cgroup) => {
            assert_eq!(cgroup.directory(), "/sys/fs/cgroup/delegated");
            assert_eq!(cgroup.mount_id(), 37);
            assert_eq!(cgroup.directory_inode(), 9);
            assert!(cgroup.controllers().iter().any(|c| c == "pids"));
        },
        Capability::Unavailable(error) => panic!("unexpected {error:?}"),
    }
    let mut root = observation();
    root.directory = Some("/sys/fs/cgroup".to_owned());
    assert_eq!(
        cgroup_v2_capability(root),
        Capability::Unavailable(ProbeError::CgroupV2DelegationUnavailable)
    );
    let mut missing = observation();
    missing.controllers = Some("cpu memory\n".to_owned());
    assert_eq!(
        cgroup_v2_capability(missing),
        Capability::Unavailable(ProbeError::CgroupV2ControllerMissing)
    );
    let mut populated = observation();
    populated.procs = Some("42\n".to_owned());
    assert_eq!(
        cgroup_v2_capability(populated),
        Capability::Unavailable(ProbeError::CgroupV2DelegationUnavailable)
    );
    let mut unmounted = observation();
    unmounted.mount = None;
    assert_eq!(
        cgroup_v2_capability(unmounted),
        Capability::Unavailable(ProbeError::CgroupV2Unavailable)
    );
    let mut no_inode = observation();
    no_inode.directory_inode = None;
    assert_eq!(
        cgroup_v2_capability(no_inode),
        Capability::Unavailable(ProbeError::CgroupV2Unavailable)
    );
}

#[test]
fn supported_report_requires_capabilities_in_order() {
    let supported = CapabilityReport {
        operating_system: Capability::Available(()),
        architecture: Capability::Available(Architecture::X86_64),
        kernel_release: Capability::Available("6.8.0".to_owned()),
        landlock_abi: landlock_capability(Some(5)),
        no_new_privileges: Capability::Available(()),
        seccomp: seccomp_capability(true, Some("kill_process errno allow\n")),
        cgroup_v2: cgroup_v2_capability(observation()),
    };
    let linux = supported.clone().require_supported().expect("every capability is present");
    assert_eq!(linux.architecture(), Architecture::X86_64);
    assert_eq!(linux.kernel_release(), "6.8.0");
    assert_eq!(linux.landlock_abi().get(), 5);
    assert!(linux.supports_no_new_privileges());
    let mut no_seccomp = supported.clone();
    no_seccomp.seccomp = Capability::Unavailable(ProbeError::SeccompUnavailable);
    no_seccomp.no_new_privileges = Capability::Unavailable(ProbeError::NoNewPrivilegesUnavailable);
    assert_eq!(no_seccomp.require_supported(), Err(ProbeError::SeccompUnavailable));
    assert_eq!(Architecture::Aarch64.as_str(), "aarch64");
}
