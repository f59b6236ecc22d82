use proofbound_runtime::execution::{execution_id_from_random, ExecutionSetupError};
use proofbound_runtime::model::ExecutionId;

#[test]
fn error_codes_are_distinct() {
    assert_ne!(
        ExecutionSetupError::UnsupportedOperatingSystem.code(),
        ExecutionSetupError::RandomUnavailable.code()
    );
}

#[test]
fn random_bytes_are_stamped_as_version_four() {
    let id = execution_id_from_random([0xff; 16]);
    let bytes = id.as_bytes();
    assert_eq!(bytes[6], 0x4f);
    assert_eq!(bytes[8], 0xbf);
    assert_eq!(bytes[0], 0xff);
    assert!(ExecutionId::from_bytes(*bytes).is_some());
    let zero = execution_id_from_random([0; 16]);
    assert_eq!(zero.as_bytes()[6], 0x40);
    assert_eq!(zero.as_bytes()[8], 0x80);
}
