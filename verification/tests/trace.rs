use proofbound_runtime::trace::{
    reconcile_exec_processes, ExecIdentityChange, PendingTraceSyscall, TraceCapturedOperands,
    TraceProcessTable, TraceSyscallInvocation, TraceeState,
};
use proofbound_runtime::trace::{
    decode_trace_syscall, parse_thread_group_id, read_little_endian_u64, trace_i32_argument,
    trace_u32_argument, TraceCaptureLimits, TraceCaptureRequest, TraceDeadline,
    TraceObservationError, TraceProcessId, TraceProcessLimit, TraceStartupError,
    TraceSyscallClass, TraceSyscallRegisters, AUDIT_ARCH_AARCH64, AUDIT_ARCH_X86_64,
    MAX_TRACE_PROCESS_LIMIT, MAX_TRACE_SOCKET_ADDRESS_BYTES,
};

#[test]
fn process_ids_deadlines_and_error_codes_are_closed() {
    assert_eq!(TraceProcessId::new(0), Err(TraceStartupError::ProcessIdInvalid));
    assert_eq!(
        TraceProcessId::new(i32::MAX as u32 + 1),
        Err(TraceStartupError::ProcessIdInvalid)
    );
    assert_eq!(TraceProcessLimit::new(0), Err(TraceStartupError::ProcessLimitInvalid));
    assert_eq!(
        TraceProcessLimit::new(u64::from(MAX_TRACE_PROCESS_LIMIT) + 1),
        Err(TraceStartupError::ProcessLimitInvalid)
    );
    assert_eq!(TraceCaptureLimits::new(0, 1, 1), Err(TraceStartupError::CaptureLimitInvalid));
    assert_eq!(
        TraceCaptureLimits::new(1, u64::from(MAX_TRACE_SOCKET_ADDRESS_BYTES) + 1, 1),
        Err(TraceStartupError::CaptureLimitInvalid)
    );
    assert!(matches!(TraceDeadline::after(0), Err(TraceStartupError::DeadlineInvalid)));
    let mut codes = [
        TraceStartupError::UnsupportedOperatingSystem,
        TraceStartupError::ProcessIdInvalid,
        TraceStartupError::ProcessLimitInvalid,
        TraceStartupError::CaptureLimitInvalid,
        TraceStartupError::DeadlineInvalid,
        TraceStartupError::DescriptorSetInvalid,
        TraceStartupError::LauncherIdentityInvalid,
        TraceStartupError::ChannelCreationFailed,
        TraceStartupError::SpawnFailed,
        TraceStartupError::WaitFailed,
        TraceStartupError::WaitTimedOut,
        TraceStartupError::TraceeExited,
        TraceStartupError::StopInvalid,
        TraceStartupError::ResumeFailed,
        TraceStartupError::StopFailed,
        TraceStartupError::InstallSendFailed,
        TraceStartupError::AcknowledgementTimedOut,
        TraceStartupError::AcknowledgementReceiveFailed,
        TraceStartupError::AcknowledgementInvalid,
        TraceStartupError::BoundaryIdentityMismatch,
        TraceStartupError::LauncherReportedFailure,
        TraceStartupError::OptionsInstallFailed,
        TraceStartupError::ReleaseSendFailed,
        TraceStartupError::ProcessHandleFailed,
    ]
    .map(TraceStartupError::code);
    codes.sort_unstable();
    assert!(codes.windows(2).all(|pair| pair[0] != pair[1]));
}

#[test]
fn observation_errors_have_unique_stable_codes() {
    let mut codes = [
        TraceObservationError::UnsupportedOperatingSystem,
        TraceObservationError::DrainRequired,
        TraceObservationError::ProcessTreeDrained,
        TraceObservationError::ProcessIdentityInvalid,
        TraceObservationError::ProcessIdentityChanged,
        TraceObservationError::ProcessIdentityDuplicate,
        TraceObservationError::TreeReconciliationFailed,
        TraceObservationError::ProcessCapacityExceeded,
        TraceObservationError::ProcessUnknown,
        TraceObservationError::InitialStopMissing,
        TraceObservationError::WaitFailed,
        TraceObservationError::WaitTimedOut,
        TraceObservationError::ResumeFailed,
        TraceObservationError::EventMessageInvalid,
        TraceObservationError::SyscallInformationInvalid,
        TraceObservationError::ArchitectureUnsupported,
        TraceObservationError::SyscallFormUnsupported,
        TraceObservationError::TraceeMemoryReadFailed,
        TraceObservationError::TraceeStringLimitExceeded,
        TraceObservationError::PathLimitExceeded,
        TraceObservationError::SocketAddressLimitExceeded,
        TraceObservationError::SyscallOrderInvalid,
        TraceObservationError::ProcessHandleFailed,
        TraceObservationError::ThreadGroupInvalid,
        TraceObservationError::DrainFailed,
        TraceObservationError::DrainTimedOut,
    ]
    .map(TraceObservationError::code);
    codes.sort_unstable();
    assert!(codes.windows(2).all(|pair| pair[0] != pair[1]));
}

#[test]
fn thread_group_parser_requires_one_exact_positive_field() {
    assert_eq!(
        parse_thread_group_id("Name:\ttarget\nTgid:\t42\nPid:\t43\n"),
        Ok(TraceProcessId::new(42).expect("positive process identity"))
    );
    for invalid in [
        "Name:\ttarget\nPid:\t43\n",
        "Tgid: 42\n",
        "Tgid:\t0\n",
        "Tgid:\t42\nTgid:\t42\n",
        "Tgid:\tnot-a-number\n",
    ] {
        assert_eq!(parse_thread_group_id(invalid), Err(TraceObservationError::ThreadGroupInvalid));
    }
}

#[test]
fn syscall_decoder_qualifies_numbers_by_architecture() {
    let x86_open = TraceSyscallRegisters {
        architecture: AUDIT_ARCH_X86_64,
        instruction_pointer: 1,
        stack_pointer: 2,
        number: 2,
        arguments: [0x1000, 0x12, 0o640, 0, 0, 0],
    };
    assert!(matches!(
        decode_trace_syscall(x86_open),
        Ok(Some(TraceCaptureRequest::Path {
            class: TraceSyscallClass::Open,
            path_address: 0x1000,
            flags: Some(0x12),
            mode: Some(0o640),
            ..
        }))
    ));

    let aarch64_openat = TraceSyscallRegisters {
        architecture: AUDIT_ARCH_AARCH64,
        instruction_pointer: 3,
        stack_pointer: 4,
        number: 56,
        arguments: [u64::MAX - 99, 0x2000, 0x34, 0o600, 0, 0],
    };
    assert!(matches!(
        decode_trace_syscall(aarch64_openat),
        Ok(Some(TraceCaptureRequest::Path {
            class: TraceSyscallClass::Openat,
            directory_fd: Some(-100),
            path_address: 0x2000,
            flags: Some(0x34),
            mode: Some(0o600),
            ..
        }))
    ));

    let aarch64_number_two = TraceSyscallRegisters {
        architecture: AUDIT_ARCH_AARCH64,
        instruction_pointer: 5,
        stack_pointer: 6,
        number: 2,
        arguments: [0; 6],
    };
    assert_eq!(decode_trace_syscall(aarch64_number_two), Ok(None));
}

#[test]
fn syscall_decoder_rejects_unknown_architecture_and_x32_form() {
    let unknown = TraceSyscallRegisters {
        architecture: 0,
        instruction_pointer: 0,
        stack_pointer: 0,
        number: 2,
        arguments: [0; 6],
    };
    assert_eq!(decode_trace_syscall(unknown), Err(TraceObservationError::ArchitectureUnsupported));

    let x32 = TraceSyscallRegisters {
        architecture: AUDIT_ARCH_X86_64,
        instruction_pointer: 0,
        stack_pointer: 0,
        number: 0x4000_0002,
        arguments: [0; 6],
    };
    assert_eq!(decode_trace_syscall(x32), Err(TraceObservationError::SyscallFormUnsupported));
}

#[test]
fn register_words_narrow_only_when_sign_or_zero_extended() {
    assert_eq!(trace_u32_argument(7), Ok(7));
    assert_eq!(trace_u32_argument(0xffff_ffff_ffff_fffe), Ok(0xffff_fffe));
    assert_eq!(trace_u32_argument(0x1_0000_0000), Err(TraceObservationError::SyscallFormUnsupported));
    assert_eq!(trace_i32_argument(u64::MAX - 99), Ok(-100));
    assert_eq!(trace_i32_argument(5), Ok(5));
    assert_eq!(
        read_little_endian_u64(&[1, 0, 0, 0, 0, 0, 0, 0, 9], 0),
        Ok(1)
    );
    assert_eq!(
        read_little_endian_u64(&[0, 0, 0, 0, 0, 0, 0, 0, 2], 1),
        Ok(0x0200_0000_0000_0000)
    );
    assert_eq!(
        read_little_endian_u64(&[0; 7], 0),
        Err(TraceObservationError::SyscallFormUnsupported)
    );
}

#[test]
fn trace_limits_keep_their_values() {
    let limit = TraceProcessLimit::new(8).expect("valid limit");
    assert_eq!(limit.get(), 8);
    let capture = TraceCaptureLimits::new(4096, 128, 256).expect("valid capture limits");
    assert_eq!(capture.path_bytes(), 4096);
    assert_eq!(capture.socket_address_bytes(), 128);
    assert_eq!(capture.tracee_string_bytes(), 256);
    assert_eq!(TraceProcessId::new(42).expect("positive").get(), 42);
    assert!(TraceDeadline::after(1_000_000_000).is_ok());
}

fn table(entries: Vec<(TraceProcessId, TraceeState)>) -> TraceProcessTable {
    let mut table = TraceProcessTable::new();
    for (process, state) in entries {
        table.insert(process, state);
    }
    table
}

#[test]
fn nonleader_exec_preserves_pending_syscall_until_exit_pair() {
    let leader = TraceProcessId::new(41).expect("positive leader identity");
    let former = TraceProcessId::new(42).expect("positive former identity");
    let sibling = TraceProcessId::new(43).expect("positive sibling identity");
    let unrelated = TraceProcessId::new(51).expect("positive unrelated identity");
    let invocation = TraceSyscallInvocation::new(
        TraceSyscallRegisters {
            architecture: AUDIT_ARCH_X86_64,
            instruction_pointer: 0x1234,
            stack_pointer: 0x5678,
            number: 59,
            arguments: [1, 2, 3, 4, 5, 6],
        },
        TraceSyscallClass::Execve,
        TraceCapturedOperands::Path {
            buffer_bytes: None,
            directory_fd: None,
            flags: None,
            mask: None,
            mode: None,
            path: b"/bin/tool".to_vec(),
            resolve: None,
        },
    );
    let pending = PendingTraceSyscall::Captured(invocation.clone());
    let mut processes = table(vec![
        (leader, TraceeState::observing(leader)),
        (
            former,
            TraceeState { thread_group: leader, awaiting_initial_stop: false, pending: Some(pending.clone()) },
        ),
        (sibling, TraceeState::observing(leader)),
        (unrelated, TraceeState::observing(unrelated)),
    ]);

    assert_eq!(
        reconcile_exec_processes(&mut processes, leader, leader, former),
        Ok(ExecIdentityChange { former, survivor: leader, superseded: vec![leader, sibling] })
    );
    assert_eq!(processes.len(), 2);
    assert!(!processes.contains(former));
    assert!(!processes.contains(sibling));
    assert_eq!(processes.get(leader).and_then(|state| state.pending.clone()), Some(pending.clone()));
    assert_eq!(processes.take_pending(leader), Some(pending));
    assert!(processes.get(leader).is_some_and(|state| state.pending.is_none()));
    assert!(processes.contains(unrelated));
}

#[test]
fn exec_identity_rejects_wrong_wait_owner_and_foreign_former_thread() {
    let leader = TraceProcessId::new(61).expect("positive leader identity");
    let former = TraceProcessId::new(62).expect("positive former identity");
    let foreign = TraceProcessId::new(71).expect("positive foreign identity");
    let mut processes = table(vec![
        (leader, TraceeState::observing(leader)),
        (former, TraceeState::observing(leader)),
        (foreign, TraceeState::observing(foreign)),
    ]);

    assert_eq!(
        reconcile_exec_processes(&mut processes, former, leader, former),
        Err(TraceObservationError::ProcessIdentityChanged)
    );
    assert_eq!(
        reconcile_exec_processes(&mut processes, leader, leader, foreign),
        Err(TraceObservationError::ProcessIdentityChanged)
    );
}

#[test]
fn tracee_table_keeps_identifiers_ordered_and_unique() {
    let a = TraceProcessId::new(9).expect("positive");
    let b = TraceProcessId::new(3).expect("positive");
    let mut processes = TraceProcessTable::new();
    assert_eq!(processes.insert(a, TraceeState::awaiting_stop(a)), None);
    assert_eq!(processes.insert(b, TraceeState::observing(b)), None);
    assert_eq!(processes.insert(a, TraceeState::observing(a)), Some(TraceeState::awaiting_stop(a)));
    assert_eq!(processes.len(), 2);
    assert_eq!(processes.get(a), Some(&TraceeState::observing(a)));
    assert_eq!(processes.take_pending(TraceProcessId::new(4).expect("positive")), None);
    let unknown = TraceProcessId::new(5).expect("positive");
    assert_eq!(
        reconcile_exec_processes(&mut processes, unknown, unknown, a),
        Err(TraceObservationError::ProcessUnknown)
    );
    assert_eq!(processes.len(), 2);
}
