use proofbound_runtime::privilege::{
    require_unprivileged_identity, validate_locked, CapabilitySnapshot, IdentitySnapshot,
    PrivilegeError,
};

fn snapshot() -> IdentitySnapshot {
    IdentitySnapshot {
        real_uid: 1000,
        effective_uid: 1000,
        saved_uid: 1000,
        real_gid: 1000,
        effective_gid: 1000,
        saved_gid: 1000,
        capabilities: CapabilitySnapshot::default(),
        ambient_any: false,
        no_new_privileges: false,
    }
}

#[test]
fn accepts_only_equal_nonroot_identity() {
    let locked = require_unprivileged_identity(snapshot()).expect("equal nonroot identity");
    assert_eq!(locked.user_id(), 1000);
    assert_eq!(locked.group_id(), 1000);
    let mut root = snapshot();
    root.saved_uid = 0;
    assert_eq!(require_unprivileged_identity(root), Err(PrivilegeError::RootIdentity));
    let mut mismatch = snapshot();
    mismatch.effective_gid = 1001;
    assert_eq!(
        require_unprivileged_identity(mismatch),
        Err(PrivilegeError::IdentityMismatch)
    );
}

#[test]
fn locked_state_requires_zero_capabilities_and_no_new_privileges() {
    let identity = require_unprivileged_identity(snapshot()).expect("equal nonroot identity");
    let mut locked = snapshot();
    locked.no_new_privileges = true;
    assert_eq!(validate_locked(identity, locked), Ok(()));

    locked.capabilities.permitted = 1;
    assert_eq!(
        validate_locked(identity, locked),
        Err(PrivilegeError::CapabilityVerificationFailed)
    );
    locked.capabilities.permitted = 0;
    locked.no_new_privileges = false;
    assert_eq!(
        validate_locked(identity, locked),
        Err(PrivilegeError::NoNewPrivilegesVerificationFailed)
    );
}

#[test]
fn privilege_error_codes_are_unique_and_stable() {
    let errors = [
        PrivilegeError::UnsupportedOperatingSystem,
        PrivilegeError::InspectionUnavailable,
        PrivilegeError::RootIdentity,
        PrivilegeError::IdentityMismatch,
        PrivilegeError::IdentityDrift,
        PrivilegeError::AmbientClearFailed,
        PrivilegeError::CapabilityDropFailed,
        PrivilegeError::CapabilityVerificationFailed,
        PrivilegeError::NoNewPrivilegesInstallFailed,
        PrivilegeError::NoNewPrivilegesVerificationFailed,
    ];
    let mut codes = errors.map(PrivilegeError::code);
    codes.sort_unstable();
    assert!(codes.windows(2).all(|pair| pair[0] != pair[1]));
}

#[test]
fn identity_drift_and_ambient_capabilities_are_refused() {
    let identity = require_unprivileged_identity(snapshot()).expect("equal nonroot identity");
    let mut drifted = snapshot();
    drifted.no_new_privileges = true;
    drifted.real_uid = 1001;
    drifted.effective_uid = 1001;
    drifted.saved_uid = 1001;
    assert_eq!(validate_locked(identity, drifted), Err(PrivilegeError::IdentityDrift));
    let mut ambient = snapshot();
    ambient.no_new_privileges = true;
    ambient.ambient_any = true;
    assert_eq!(
        validate_locked(identity, ambient),
        Err(PrivilegeError::CapabilityVerificationFailed)
    );
    let mut root_group = snapshot();
    root_group.real_gid = 0;
    assert_eq!(require_unprivileged_identity(root_group), Err(PrivilegeError::RootIdentity));
    assert_eq!(PrivilegeError::RootIdentity.code(), "privilege.identity.root");
}
