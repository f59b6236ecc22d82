use proofbound_runtime::output::{
    map_creation_error, map_identity_error, map_inventory_open_error, map_parent_error,
    OutputRootError, ERRNO_EXIST, ERRNO_LOOP, ERRNO_NOENT, ERRNO_NOSYS,
};
use proofbound_runtime::resolve::ResolutionError;

#[test]
fn output_error_codes_are_unique_and_stable() {
    let errors = [
        OutputRootError::UnsupportedOperatingSystem,
        OutputRootError::PathInvalid,
        OutputRootError::ParentUnavailable,
        OutputRootError::AlreadyExists,
        OutputRootError::CreationFailed,
        OutputRootError::OpenFailed,
        OutputRootError::ModeInvalid,
        OutputRootError::NotEmpty,
        OutputRootError::IdentityDrift,
        OutputRootError::ForbiddenFileKind,
        OutputRootError::IdentityUnavailable,
        OutputRootError::Openat2Unavailable,
    ];
    let mut codes = errors.map(OutputRootError::code);
    codes.sort_unstable();
    assert!(codes.windows(2).all(|pair| pair[0] != pair[1]));
}

#[test]
fn system_errors_map_to_closed_output_errors() {
    assert_eq!(ERRNO_NOSYS, 38);
    assert_eq!(map_parent_error(Some(ERRNO_NOSYS)), OutputRootError::Openat2Unavailable);
    assert_eq!(map_parent_error(Some(2)), OutputRootError::ParentUnavailable);
    assert_eq!(map_parent_error(None), OutputRootError::ParentUnavailable);
    assert_eq!(map_creation_error(Some(ERRNO_EXIST)), OutputRootError::AlreadyExists);
    assert_eq!(map_creation_error(Some(13)), OutputRootError::CreationFailed);
    assert_eq!(map_inventory_open_error(Some(ERRNO_LOOP)), OutputRootError::ForbiddenFileKind);
    assert_eq!(map_inventory_open_error(Some(ERRNO_NOENT)), OutputRootError::IdentityDrift);
    assert_eq!(map_inventory_open_error(Some(ERRNO_NOSYS)), OutputRootError::Openat2Unavailable);
    assert_eq!(map_inventory_open_error(None), OutputRootError::IdentityUnavailable);
    assert_eq!(map_identity_error(ResolutionError::IdentityDrift), OutputRootError::IdentityDrift);
    assert_eq!(
        map_identity_error(ResolutionError::ForbiddenFileKind),
        OutputRootError::ForbiddenFileKind
    );
    assert_eq!(
        map_identity_error(ResolutionError::PathUnavailable),
        OutputRootError::IdentityUnavailable
    );
}
