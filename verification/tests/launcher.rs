use proofbound_runtime::cbor::{encode_value, CborValue};
use proofbound_runtime::landlock::LandlockAccess;
use proofbound_runtime::launcher::{
    environment_entry, exec_error,
    advance_sequence, decode_launcher_message, encode_launcher_message, message_to_value,
    BoundaryInstalled, InstallRequest, LauncherError, LauncherFailure, LauncherFilesystemRule,
    LauncherIdentity, LauncherMessage, LauncherStage, SequenceEvent, SequenceState,
};
use proofbound_runtime::model::{
    ArtifactIdentity, ArtifactRole, CgroupIdentity, ExecutionId, FileMode, Sha256Digest,
};

const INSTALL_SCHEMA: &str = "proofbound-runtime-launcher-install/1";

fn identity(seed: u8) -> LauncherIdentity {
    let mut execution = [seed; 16];
    execution[6] = 0x40;
    execution[8] = 0x80;
    LauncherIdentity::new(
        ExecutionId::from_bytes(execution).expect("fixture execution ID is version 4"),
        Sha256Digest::from_bytes([seed; 32]),
        CgroupIdentity::new(u64::from(seed), u64::from(seed) + 1),
    )
}

fn executable() -> ArtifactIdentity {
    ArtifactIdentity::new(
        ArtifactRole::RuntimeExecutable,
        Sha256Digest::from_bytes([7; 32]),
        12,
        FileMode::new(0o755).expect("fixture mode is valid"),
    )
}

fn environment() -> Vec<(String, String)> {
    vec![
        ("LANG".to_owned(), "C.UTF-8".to_owned()),
        ("PATH".to_owned(), "/usr/bin".to_owned()),
    ]
}

fn rules() -> Vec<LauncherFilesystemRule> {
    vec![
        LauncherFilesystemRule::new(3, vec![LandlockAccess::Read, LandlockAccess::Execute])
            .expect("fixture rule is valid"),
        LauncherFilesystemRule::new(5, vec![LandlockAccess::Read]).expect("fixture rule is valid"),
    ]
}

fn build(filesystem: Vec<LauncherFilesystemRule>, close_from: u32) -> Result<InstallRequest, LauncherError> {
    InstallRequest::new(
        identity(1),
        executable(),
        3,
        4,
        vec!["agent".to_owned(), "--check".to_owned()],
        environment(),
        filesystem,
        vec![1, 2, 3, 4],
        close_from,
    )
}

fn install_request() -> InstallRequest {
    build(rules(), 32).expect("fixture request is valid")
}

fn install_message() -> LauncherMessage {
    LauncherMessage::Install(install_request())
}

fn text(value: &str) -> CborValue {
    CborValue::Text(value.to_owned())
}

#[test]
fn all_message_variants_round_trip_canonically() {
    let identity = identity(1);
    let messages = [
        install_message(),
        LauncherMessage::BoundaryInstalled(BoundaryInstalled::new(identity)),
        LauncherMessage::Failure(
            LauncherFailure::new(identity, LauncherStage::Landlock, "landlock.denied")
                .expect("fixture failure is valid"),
        ),
    ];
    for message in messages {
        let first = encode_launcher_message(&message).expect("message encodes");
        let decoded = decode_launcher_message(&first).expect("canonical message decodes");
        let second = encode_launcher_message(&decoded).expect("decoded message re-encodes");
        assert_eq!(decoded, message);
        assert_eq!(second, first);
    }
}

#[test]
fn protocol_rejects_empty_truncated_malformed_and_trailing_frames() {
    assert_eq!(decode_launcher_message(&[]), Err(LauncherError::Eof));

    let mut truncated = encode_launcher_message(&install_message()).expect("fixture encodes");
    truncated.pop();
    assert_eq!(decode_launcher_message(&truncated), Err(LauncherError::Truncated));
    assert_eq!(decode_launcher_message(&[0x1c]), Err(LauncherError::Malformed));

    let mut trailing = encode_launcher_message(&install_message()).expect("fixture encodes");
    trailing.push(0);
    assert_eq!(decode_launcher_message(&trailing), Err(LauncherError::TrailingData));
}

#[test]
fn protocol_rejects_noncanonical_and_duplicate_map_keys() {
    let canonical = encode_launcher_message(&install_message()).expect("fixture encodes");
    assert_eq!(canonical[0], 0xac);

    let mut noncanonical = vec![0xb8, 12];
    noncanonical.extend_from_slice(&canonical[1..]);
    assert_eq!(decode_launcher_message(&noncanonical), Err(LauncherError::NonCanonical));

    let mut duplicate = canonical;
    duplicate[0] = 0xad;
    encode_value(&text("schema"), &mut duplicate).expect("duplicate key encodes");
    encode_value(&text(INSTALL_SCHEMA), &mut duplicate).expect("duplicate value encodes");
    assert_eq!(decode_launcher_message(&duplicate), Err(LauncherError::DuplicateKey));

    let mut value = message_to_value(&install_message());
    let CborValue::TextMap(entries) = &mut value else {
        panic!("install message must be a map");
    };
    let (_, CborValue::Array(rules)) = entries
        .iter_mut()
        .find(|(key, _)| key == "filesystem")
        .expect("filesystem exists")
    else {
        panic!("filesystem must be an array");
    };
    rules.reverse();
    let mut reordered_rules = Vec::new();
    encode_value(&value, &mut reordered_rules).expect("mutated value encodes");
    assert_eq!(decode_launcher_message(&reordered_rules), Err(LauncherError::NonCanonical));
}

#[test]
fn protocol_rejects_unknown_schema_versions() {
    let mut value = message_to_value(&install_message());
    let CborValue::TextMap(entries) = &mut value else {
        panic!("install message must be a map");
    };
    let schema = entries
        .iter_mut()
        .find(|(key, _)| key == "schema")
        .expect("schema exists");
    schema.1 = text("proofbound-runtime-launcher-install/2");
    let mut bytes = Vec::new();
    encode_value(&value, &mut bytes).expect("mutated value encodes");
    assert_eq!(decode_launcher_message(&bytes), Err(LauncherError::UnsupportedVersion));
}

#[test]
fn install_request_rejects_descriptors_outside_the_retained_range() {
    let request = install_request();
    assert_eq!(build(rules(), request.executable_fd()), Err(LauncherError::Malformed));
}

#[test]
fn install_request_requires_exact_executable_read_execute_closure() {
    let mut execute_only = rules();
    execute_only[0] = LauncherFilesystemRule::new(3, vec![LandlockAccess::Execute])
        .expect("execute-only rule is structurally valid");
    assert_eq!(build(execute_only, 32), Err(LauncherError::Malformed));

    let mut writable = rules();
    writable[0] = LauncherFilesystemRule::new(
        3,
        vec![LandlockAccess::Read, LandlockAccess::Write, LandlockAccess::Execute],
    )
    .expect("writable executable rule is structurally valid");
    assert_eq!(build(writable, 32), Err(LauncherError::Malformed));

    let mut wrong_descriptor = rules();
    wrong_descriptor[0] =
        LauncherFilesystemRule::new(6, vec![LandlockAccess::Read, LandlockAccess::Execute])
            .expect("wrong-descriptor rule is structurally valid");
    assert_eq!(build(wrong_descriptor, 32), Err(LauncherError::Malformed));
}

#[test]
fn retained_descriptor_set_is_exact_not_threshold_based() {
    let request = install_request();
    let retained = core::iter::once(request.executable_fd())
        .chain(core::iter::once(request.working_directory_fd()))
        .chain(request.filesystem().iter().map(|rule| rule.descriptor()))
        .collect::<Vec<_>>();
    assert!(retained
        .iter()
        .all(|descriptor| *descriptor >= 3 && *descriptor < request.close_file_descriptors_from()));
    assert!((3..request.close_file_descriptors_from()).any(|descriptor| !retained.contains(&descriptor)));
}

#[test]
fn every_identity_substitution_has_a_distinct_failure() {
    let expected = identity(1);
    let execution = LauncherIdentity::new(identity(2).execution_id(), expected.policy_id(), expected.cgroup_id());
    let policy = LauncherIdentity::new(expected.execution_id(), identity(2).policy_id(), expected.cgroup_id());
    let cgroup = LauncherIdentity::new(expected.execution_id(), expected.policy_id(), identity(2).cgroup_id());
    assert_eq!(execution.verify(expected), Err(LauncherError::ExecutionIdentityMismatch));
    assert_eq!(policy.verify(expected), Err(LauncherError::PolicyIdentityMismatch));
    assert_eq!(cgroup.verify(expected), Err(LauncherError::CgroupIdentityMismatch));
}

#[test]
fn sequence_rejects_acknowledgement_forgery_and_omission() {
    assert_eq!(
        advance_sequence(SequenceState::InstallValidated, SequenceEvent::AcknowledgementEmitted),
        Err(LauncherError::BoundaryNotInstalled)
    );
    assert_eq!(
        advance_sequence(SequenceState::BoundariesInstalled, SequenceEvent::ExecAuthorized),
        Err(LauncherError::AcknowledgementMissing)
    );
}

#[test]
fn launcher_error_codes_are_unique_and_stable() {
    let mut codes = [
        LauncherError::UnsupportedOperatingSystem,
        LauncherError::ChannelCreationFailed,
        LauncherError::ChannelReadFailed,
        LauncherError::ChannelTimeout,
        LauncherError::ChannelWriteFailed,
        LauncherError::PauseFailed,
        LauncherError::Eof,
        LauncherError::Truncated,
        LauncherError::FrameTooLarge,
        LauncherError::Malformed,
        LauncherError::NonCanonical,
        LauncherError::DuplicateKey,
        LauncherError::TrailingData,
        LauncherError::UnsupportedVersion,
        LauncherError::PolicyIdentityMismatch,
        LauncherError::CgroupIdentityMismatch,
        LauncherError::ExecutionIdentityMismatch,
        LauncherError::SeccompProgramMismatch,
        LauncherError::FileDescriptorInvalid,
        LauncherError::ExecutableIdentityMismatch,
        LauncherError::PrivilegeInstallationFailed,
        LauncherError::LandlockInstallationFailed,
        LauncherError::SeccompInstallationFailed,
        LauncherError::WorkingDirectoryFailed,
        LauncherError::ExecPermissionDenied,
        LauncherError::ExecOperationNotPermitted,
        LauncherError::ExecNotFound,
        LauncherError::ExecFormatInvalid,
        LauncherError::ExecFailed,
        LauncherError::BoundaryNotInstalled,
        LauncherError::AcknowledgementMissing,
        LauncherError::UnexpectedMessage,
    ]
    .map(LauncherError::code);
    codes.sort_unstable();
    assert!(codes.windows(2).all(|pair| pair[0] != pair[1]));
}

#[test]
fn full_sequence_authorizes_exec_only_after_acknowledgement() {
    let installed = advance_sequence(SequenceState::InstallValidated, SequenceEvent::BoundariesInstalled)
        .expect("boundaries follow validation");
    let acknowledged = advance_sequence(installed, SequenceEvent::AcknowledgementEmitted)
        .expect("acknowledgement follows installation");
    assert_eq!(
        advance_sequence(acknowledged, SequenceEvent::ExecAuthorized),
        Ok(SequenceState::ExecAuthorized)
    );
    assert_eq!(
        advance_sequence(SequenceState::ExecAuthorized, SequenceEvent::BoundariesInstalled),
        Err(LauncherError::UnexpectedMessage)
    );
    assert_eq!(LauncherStage::parse("landlock"), Ok(LauncherStage::Landlock));
    assert_eq!(LauncherStage::Landlock.as_str(), "landlock");
    assert_eq!(LauncherStage::parse("kernel"), Err(LauncherError::Malformed));
}

#[test]
fn environment_and_rules_are_held_in_canonical_order() {
    let request = build(
        vec![
            LauncherFilesystemRule::new(5, vec![LandlockAccess::Read]).expect("valid rule"),
            LauncherFilesystemRule::new(3, vec![LandlockAccess::Execute, LandlockAccess::Read])
                .expect("valid rule"),
        ],
        32,
    )
    .expect("rule order is normalized");
    assert_eq!(request.filesystem()[0].descriptor(), 3);
    assert_eq!(request.filesystem()[1].descriptor(), 5);
    assert_eq!(request.environment()[0].0, "LANG");
    assert_eq!(request.arguments()[1], "--check");
    assert_eq!(request.seccomp_program(), &[1, 2, 3, 4]);
    let duplicate = build(
        vec![
            LauncherFilesystemRule::new(3, vec![LandlockAccess::Read, LandlockAccess::Execute])
                .expect("valid rule"),
            LauncherFilesystemRule::new(3, vec![LandlockAccess::Read]).expect("valid rule"),
        ],
        32,
    );
    assert_eq!(duplicate, Err(LauncherError::Malformed));
}

#[test]
fn exec_errors_and_environment_entries_are_exact() {
    assert_eq!(exec_error(Some(13)), LauncherError::ExecPermissionDenied);
    assert_eq!(exec_error(Some(1)), LauncherError::ExecOperationNotPermitted);
    assert_eq!(exec_error(Some(2)), LauncherError::ExecNotFound);
    assert_eq!(exec_error(Some(8)), LauncherError::ExecFormatInvalid);
    assert_eq!(exec_error(Some(5)), LauncherError::ExecFailed);
    assert_eq!(exec_error(None), LauncherError::ExecFailed);
    assert_eq!(environment_entry("PATH", "/bin"), b"PATH=/bin".to_vec());
}
