use proofbound_runtime::launcher::{LauncherError, LauncherIdentity};
use proofbound_runtime::model::{CgroupIdentity, ExecutionId, Sha256Digest};
use proofbound_runtime::probe::{Architecture, LandlockAbi};
use proofbound_runtime::receipt::{BoundaryInstallation, ExecutionOutcome, SignalNumber, StreamCapture};
use proofbound_runtime::supervisor::{
    classify_process_result, launcher_bootstrap_arguments, lifecycle_outcome,
    parse_launcher_bootstrap, validate_descriptor_set, CaptureBuffer, LauncherResponse,
    SupervisorError, SupervisorTimings, LINUX_SIGNAL_SYS,
};

fn identity() -> LauncherIdentity {
    let mut execution = [3; 16];
    execution[6] = 0x40;
    execution[8] = 0x80;
    LauncherIdentity::new(
        ExecutionId::from_bytes(execution).expect("fixture execution ID is version 4"),
        Sha256Digest::from_bytes([4; 32]),
        CgroupIdentity::new(5, 6),
    )
}

fn capture(input: &[u8], limit: u64) -> proofbound_runtime::supervisor::CapturedStream {
    let mut buffer = CaptureBuffer::new(limit);
    for chunk in input.chunks(2) {
        buffer.absorb(chunk);
    }
    buffer.finish()
}

#[test]
fn bounded_capture_retains_prefix_and_drains_the_complete_input() {
    let complete = capture(b"abc", 3);
    assert_eq!(complete.bytes(), b"abc");
    assert_eq!(complete.capture(), StreamCapture::Complete);

    let truncated = capture(b"abcdef", 3);
    assert_eq!(truncated.bytes(), b"abc");
    assert_eq!(truncated.capture(), StreamCapture::Truncated);

    let zero = capture(b"x", 0);
    assert!(zero.bytes().is_empty());
    assert_eq!(zero.capture(), StreamCapture::Truncated);
}

#[test]
fn outcome_classification_is_closed_and_precedence_is_explicit() {
    assert_eq!(
        classify_process_result(Some(0), None, false, false),
        ExecutionOutcome::Exited { code: 0 }
    );
    assert_eq!(
        classify_process_result(None, Some(9), false, false),
        ExecutionOutcome::Signaled { signal: SignalNumber::new(9).expect("signal is nonzero") }
    );
    assert_eq!(
        classify_process_result(None, Some(LINUX_SIGNAL_SYS), false, false),
        ExecutionOutcome::Denied
    );
    assert_eq!(classify_process_result(Some(0), None, true, false), ExecutionOutcome::TimedOut);
    assert_eq!(
        classify_process_result(Some(0), None, true, true),
        ExecutionOutcome::LauncherFailed
    );
    assert_eq!(classify_process_result(None, None, false, false), ExecutionOutcome::Incomplete);
}

#[test]
fn supervisor_timings_preserve_non_overlapping_phase_intervals() {
    let timings = SupervisorTimings::new(11, 13, 17, 19, 23);

    assert_eq!(timings.launcher_creation(), 11);
    assert_eq!(timings.boundary_installation(), 13);
    assert_eq!(timings.process_execution(), 17);
    assert_eq!(timings.cleanup(), 19);
    assert_eq!(timings.stream_collection(), 23);
    assert_eq!(timings.total(), 11 + 13 + 17 + 19 + 23);
}

#[test]
fn hidden_launcher_bootstrap_round_trips_exactly() {
    let identity = identity();
    let arguments = launcher_bootstrap_arguments(
        9,
        identity,
        Architecture::Aarch64,
        LandlockAbi::new(11).expect("ABI is nonzero"),
    );
    let decoded = parse_launcher_bootstrap(&arguments).expect("bootstrap parses");
    assert_eq!(decoded.channel_descriptor(), 9);
    assert_eq!(decoded.identity(), identity);
    assert_eq!(decoded.architecture(), Architecture::Aarch64);
    assert_eq!(decoded.landlock_abi().get(), 11);

    let mut noncanonical = arguments;
    noncanonical[3].replace_range(0..1, "A");
    assert_eq!(parse_launcher_bootstrap(&noncanonical), Err(LauncherError::Malformed));
}

#[test]
fn supervisor_error_codes_are_unique_and_stable() {
    let mut codes = [
        SupervisorError::UnsupportedOperatingSystem,
        SupervisorError::DescriptorSetInvalid,
        SupervisorError::SpawnFailed,
        SupervisorError::PauseNotObserved,
        SupervisorError::CgroupPlacementFailed,
        SupervisorError::ResumeFailed,
        SupervisorError::ProtocolSendFailed,
        SupervisorError::ProtocolFailed,
        SupervisorError::WaitFailed,
        SupervisorError::StreamReadFailed,
        SupervisorError::CleanupFailed,
    ]
    .map(SupervisorError::code);
    codes.sort_unstable();
    assert!(codes.windows(2).all(|pair| pair[0] != pair[1]));
}

#[test]
fn inherited_descriptors_must_equal_the_named_set() {
    assert_eq!(validate_descriptor_set(&[3, 4, 5], &[5, 3, 4]), Ok(()));
    assert_eq!(
        validate_descriptor_set(&[3, 4, 5], &[3, 4]),
        Err(SupervisorError::DescriptorSetInvalid)
    );
    assert_eq!(
        validate_descriptor_set(&[3, 4], &[3, 4, 6]),
        Err(SupervisorError::DescriptorSetInvalid)
    );
    assert_eq!(
        validate_descriptor_set(&[3, 4], &[3, 4, 4]),
        Err(SupervisorError::DescriptorSetInvalid)
    );
    assert_eq!(
        validate_descriptor_set(&[3], &[-1, 3]),
        Err(SupervisorError::DescriptorSetInvalid)
    );
}

#[test]
fn launcher_response_decides_boundary_and_outcome() {
    let exited = ExecutionOutcome::Exited { code: 3 };
    assert_eq!(
        lifecycle_outcome(LauncherResponse::TimedOut, exited),
        (BoundaryInstallation::Incomplete, ExecutionOutcome::TimedOut)
    );
    assert_eq!(
        lifecycle_outcome(LauncherResponse::Installed { late_failure: false }, exited),
        (BoundaryInstallation::Installed, exited)
    );
    assert_eq!(
        lifecycle_outcome(LauncherResponse::Installed { late_failure: true }, exited),
        (BoundaryInstallation::Installed, ExecutionOutcome::LauncherFailed)
    );
    assert_eq!(
        lifecycle_outcome(LauncherResponse::Failed, exited),
        (BoundaryInstallation::Incomplete, ExecutionOutcome::LauncherFailed)
    );
    let arguments = launcher_bootstrap_arguments(
        7,
        identity(),
        Architecture::X86_64,
        LandlockAbi::new(3).expect("ABI is nonzero"),
    );
    assert_eq!(arguments[0], "__proofbound_launcher_v1");
    assert_eq!(arguments[1], "7");
    assert_eq!(arguments[2], "03030303030340038003030303030303");
}
