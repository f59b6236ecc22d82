use proofbound_runtime::landlock::{
    allowed_access, check_landlock_request, handled_access, LandlockAccess, LandlockBoundary,
    LandlockError, ACCESS_EXECUTE, ACCESS_IOCTL_DEV, ACCESS_READ_DIR, ACCESS_READ_FILE,
    ACCESS_RESOLVE_UNIX, ACCESS_TRUNCATE, ACCESS_WRITE_FILE,
};

#[test]
fn access_masks_do_not_amplify_file_rules() {
    assert_eq!(allowed_access(LandlockAccess::Read, false), Ok(ACCESS_READ_FILE));
    assert_eq!(
        allowed_access(LandlockAccess::Write, false),
        Ok(ACCESS_WRITE_FILE | ACCESS_TRUNCATE)
    );
    assert_eq!(allowed_access(LandlockAccess::Execute, false), Ok(ACCESS_EXECUTE));
    assert_eq!(
        allowed_access(LandlockAccess::Execute, true),
        Err(LandlockError::DirectoryExecuteForbidden)
    );
}

#[test]
fn handled_mask_tracks_kernel_abi_without_omitting_truncate() {
    assert_ne!(handled_access(3) & ACCESS_TRUNCATE, 0);
    assert_eq!(handled_access(3) & ACCESS_IOCTL_DEV, 0);
    assert_ne!(handled_access(5) & ACCESS_IOCTL_DEV, 0);
    assert_ne!(handled_access(9) & ACCESS_RESOLVE_UNIX, 0);
    assert_eq!(
        allowed_access(LandlockAccess::Write, true).expect("directory write mask") & !handled_access(3),
        0
    );
}

#[test]
fn landlock_error_codes_are_unique_and_stable() {
    let errors = [
        LandlockError::UnsupportedOperatingSystem,
        LandlockError::AbiUnsupported,
        LandlockError::RuleSetEmpty,
        LandlockError::FileKindInvalid,
        LandlockError::DirectoryExecuteForbidden,
        LandlockError::RuleSetCreationFailed,
        LandlockError::RuleInstallationFailed,
        LandlockError::RestrictionFailed,
    ];
    let mut codes = errors.map(LandlockError::code);
    codes.sort_unstable();
    assert!(codes.windows(2).all(|pair| pair[0] != pair[1]));
}

#[test]
fn every_granted_right_is_handled_for_each_supported_abi() {
    for abi in 3..=11u32 {
        let handled = handled_access(abi);
        for access in [LandlockAccess::Read, LandlockAccess::Write, LandlockAccess::Execute] {
            for is_directory in [false, true] {
                if let Ok(mask) = allowed_access(access, is_directory) {
                    assert_eq!(mask & !handled, 0);
                }
            }
        }
    }
    assert_eq!(
        allowed_access(LandlockAccess::Read, true),
        Ok(ACCESS_READ_FILE | ACCESS_READ_DIR)
    );
}

#[test]
fn ruleset_requests_require_a_reviewed_abi_and_a_rule() {
    assert_eq!(check_landlock_request(2, 1), Err(LandlockError::AbiUnsupported));
    assert_eq!(check_landlock_request(12, 1), Err(LandlockError::AbiUnsupported));
    assert_eq!(check_landlock_request(3, 0), Err(LandlockError::RuleSetEmpty));
    assert_eq!(check_landlock_request(4, 2), Ok(handled_access(4)));
    let boundary = LandlockBoundary::installed(5, 2).expect("supported request");
    assert_eq!(boundary.abi(), 5);
    assert_eq!(boundary.handled_access_fs(), handled_access(5));
    assert_eq!(boundary.rule_count(), 2);
    assert_eq!(handled_access(3), 0x7fff);
}
