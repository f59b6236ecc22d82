use proofbound_runtime::trace::{
    TraceCaptureLimits, TraceCaptureRequest, TraceCapturedOperands, TraceObservationError, TraceSyscallClass,
};
use proofbound_runtime::trace_capture::{
    absorb_string_chunk, capture_plan, captured_operands, string_chunk, TraceMemoryRead,
};

fn limits() -> TraceCaptureLimits {
    TraceCaptureLimits::new(8, 16, 300).expect("valid limits")
}

#[test]
fn openat2_reads_path_and_exact_open_how() {
    let request = TraceCaptureRequest::Openat2 { directory_fd: -100, path_address: 0x1000, how_address: 0x2000, how_bytes: 24 };
    assert_eq!(
        capture_plan(request, limits()),
        Ok(vec![TraceMemoryRead::String { address: 0x1000 }, TraceMemoryRead::Exact { address: 0x2000, bytes: 24 }])
    );
    let short = TraceCaptureRequest::Openat2 { directory_fd: -100, path_address: 0x1000, how_address: 0x2000, how_bytes: 16 };
    assert_eq!(capture_plan(short, limits()), Err(TraceObservationError::SyscallFormUnsupported));
    let mut how = Vec::new();
    how.extend_from_slice(&0x0102_u64.to_le_bytes());
    how.extend_from_slice(&0o644_u64.to_le_bytes());
    how.extend_from_slice(&0x10_u64.to_le_bytes());
    let (class, operands) = captured_operands(request, vec![b"/tmp/x".to_vec(), how]).expect("operands");
    assert_eq!(class, TraceSyscallClass::Openat2);
    assert_eq!(
        operands,
        TraceCapturedOperands::Path {
            buffer_bytes: None,
            directory_fd: Some(-100),
            flags: Some(0x0102),
            mask: None,
            mode: Some(0o644),
            path: b"/tmp/x".to_vec(),
            resolve: Some(0x10),
        }
    );
}

#[test]
fn clone3_argument_size_is_checked() {
    for bytes in [0_u64, 4, 12, 96] {
        let request = TraceCaptureRequest::Clone3 { arguments_address: 0x3000, arguments_bytes: bytes };
        assert_eq!(capture_plan(request, limits()), Err(TraceObservationError::SyscallFormUnsupported));
    }
    let request = TraceCaptureRequest::Clone3 { arguments_address: 0x3000, arguments_bytes: 88 };
    assert_eq!(capture_plan(request, limits()), Ok(vec![TraceMemoryRead::Exact { address: 0x3000, bytes: 8 }]));
    let (class, operands) = captured_operands(request, vec![0x11_u64.to_le_bytes().to_vec()]).expect("operands");
    assert_eq!(class, TraceSyscallClass::Clone);
    assert_eq!(operands, TraceCapturedOperands::ProcessCreate { flags: Some(0x11) });
}

#[test]
fn socket_addresses_respect_limits_and_optional_absence() {
    let absent = TraceCaptureRequest::SocketAddress {
        class: TraceSyscallClass::Sendto,
        descriptor: 3,
        address: 0,
        address_bytes: 0,
        address_optional: true,
        payload_bytes: Some(5),
    };
    assert_eq!(capture_plan(absent, limits()), Ok(Vec::new()));
    let oversized = TraceCaptureRequest::SocketAddress {
        class: TraceSyscallClass::Connect,
        descriptor: 3,
        address: 0x4000,
        address_bytes: 17,
        address_optional: false,
        payload_bytes: None,
    };
    assert_eq!(capture_plan(oversized, limits()), Err(TraceObservationError::SocketAddressLimitExceeded));
    let null = TraceCaptureRequest::SocketAddress {
        class: TraceSyscallClass::Connect,
        descriptor: 3,
        address: 0,
        address_bytes: 16,
        address_optional: false,
        payload_bytes: None,
    };
    assert_eq!(capture_plan(null, limits()), Err(TraceObservationError::TraceeMemoryReadFailed));
}

#[test]
fn tracee_strings_are_gathered_within_limits() {
    assert_eq!(string_chunk(0x1000, 0, limits()), Ok((0x1000, 256)));
    assert_eq!(string_chunk(0x1000, 256, limits()), Ok((0x1100, 44)));
    assert_eq!(string_chunk(0x1000, 300, limits()), Err(TraceObservationError::TraceeStringLimitExceeded));
    assert_eq!(string_chunk(u64::MAX, 1, limits()), Err(TraceObservationError::TraceeMemoryReadFailed));
    let mut collected = Vec::new();
    assert_eq!(absorb_string_chunk(&mut collected, b"/tmp\0junk", limits()), Ok(true));
    assert_eq!(collected, b"/tmp".to_vec());
    let mut long = Vec::new();
    assert_eq!(absorb_string_chunk(&mut long, b"/abc", limits()), Ok(false));
    assert_eq!(absorb_string_chunk(&mut long, b"/defg", limits()), Err(TraceObservationError::PathLimitExceeded));
}
