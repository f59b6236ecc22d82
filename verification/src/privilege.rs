//! The decisions that lock a launcher's privileges: the identity that may be
//! locked, and the read-back state that proves the lock.
use vstd::prelude::*;

verus! {

/// Witnesses that privilege removal was installed and read back successfully.
#[derive(Clone, Copy, Debug, PartialEq, Eq, Structural)]
pub struct LockedPrivileges {
    user_id: u32,
    group_id: u32,
}

impl LockedPrivileges {
    #[verifier::type_invariant]
    spec fn nonroot(self) -> bool {
        self.user_id != 0 && self.group_id != 0
    }

    pub closed spec fn user_of(self) -> u32 {
        self.user_id
    }

    pub closed spec fn group_of(self) -> u32 {
        self.group_id
    }

    /// Returns the unchanged unprivileged user identity.
    pub fn user_id(self) -> (r: u32)
        ensures
            r == self.user_of(),
            r != 0,
    {
        proof {
            use_type_invariant(&self);
        }
        self.user_id
    }

    /// Returns the unchanged unprivileged group identity.
    pub fn group_id(self) -> (r: u32)
        ensures
            r == self.group_of(),
            r != 0,
    {
        proof {
            use_type_invariant(&self);
        }
        self.group_id
    }
}

/// Identifies one fail-closed privilege-lock result.
#[derive(Clone, Copy, Debug, PartialEq, Eq, Structural)]
pub enum PrivilegeError {
    /// The host operating system is not Linux.
    UnsupportedOperatingSystem,
    /// User, group, capability, or ambient state could not be inspected.
    InspectionUnavailable,
    /// The launcher had root user or group identity.
    RootIdentity,
    /// Real, effective, and saved identities were not identical.
    IdentityMismatch,
    /// An identity changed while privileges were being locked.
    IdentityDrift,
    /// Ambient capabilities could not be cleared.
    AmbientClearFailed,
    /// Effective, permitted, and inheritable capability sets could not be zeroed.
    CapabilityDropFailed,
    /// Capability state was nonzero after the drop.
    CapabilityVerificationFailed,
    /// `PR_SET_NO_NEW_PRIVS` failed.
    NoNewPrivilegesInstallFailed,
    /// `PR_GET_NO_NEW_PRIVS` did not confirm the lock.
    NoNewPrivilegesVerificationFailed,
}

/// The stable machine-readable code of each privilege error.
pub open spec fn privilege_error_code(e: PrivilegeError) -> Seq<char> {
    match e {
        PrivilegeError::UnsupportedOperatingSystem => "privilege.os.unsupported"@,
        PrivilegeError::InspectionUnavailable => "privilege.inspection.unavailable"@,
        PrivilegeError::RootIdentity => "privilege.identity.root"@,
        PrivilegeError::IdentityMismatch => "privilege.identity.mismatch"@,
        PrivilegeError::IdentityDrift => "privilege.identity.drift"@,
        PrivilegeError::AmbientClearFailed => "privilege.ambient.clear-failed"@,
        PrivilegeError::CapabilityDropFailed => "privilege.capability.drop-failed"@,
        PrivilegeError::CapabilityVerificationFailed => "privilege.capability.verification-failed"@,
        PrivilegeError::NoNewPrivilegesInstallFailed => "privilege.no-new-privileges.install-failed"@,
        PrivilegeError::NoNewPrivilegesVerificationFailed => "privilege.no-new-privileges.verification-failed"@,
    }
}

impl PrivilegeError {
    /// Returns the stable machine-readable error code.
    pub fn code(self) -> (r: &'static str)
        ensures
            r@ == privilege_error_code(self),
    {
        match self {
            PrivilegeError::UnsupportedOperatingSystem => "privilege.os.unsupported",
            PrivilegeError::InspectionUnavailable => "privilege.inspection.unavailable",
            PrivilegeError::RootIdentity => "privilege.identity.root",
            PrivilegeError::IdentityMismatch => "privilege.identity.mismatch",
            PrivilegeError::IdentityDrift => "privilege.identity.drift",
            PrivilegeError::AmbientClearFailed => "privilege.ambient.clear-failed",
            PrivilegeError::CapabilityDropFailed => "privilege.capability.drop-failed",
            PrivilegeError::CapabilityVerificationFailed => "privilege.capability.verification-failed",
            PrivilegeError::NoNewPrivilegesInstallFailed => "privilege.no-new-privileges.install-failed",
            PrivilegeError::NoNewPrivilegesVerificationFailed => "privilege.no-new-privileges.verification-failed",
        }
    }
}

/// Distinct privilege errors have distinct codes.
pub proof fn lemma_privilege_codes_distinct(a: PrivilegeError, b: PrivilegeError)
    requires
        a != b,
    ensures
        privilege_error_code(a) != privilege_error_code(b),
{
    reveal_strlit("privilege.os.unsupported");
    reveal_strlit("privilege.inspection.unavailable");
    reveal_strlit("privilege.identity.root");
    reveal_strlit("privilege.identity.mismatch");
    reveal_strlit("privilege.identity.drift");
    reveal_strlit("privilege.ambient.clear-failed");
    reveal_strlit("privilege.capability.drop-failed");
    reveal_strlit("privilege.capability.verification-failed");
    reveal_strlit("privilege.no-new-privileges.install-failed");
    reveal_strlit("privilege.no-new-privileges.verification-failed");
    let ca = privilege_error_code(a);
    let cb = privilege_error_code(b);
    if ca.len() == cb.len() {
        assert(ca[10] != cb[10]);
    }
}

/// The three capability sets of the current thread.
#[derive(Clone, Copy, Debug, PartialEq, Eq, Structural)]
pub struct CapabilitySnapshot {
    /// The effective set.
    pub effective: u64,
    /// The permitted set.
    pub permitted: u64,
    /// The inheritable set.
    pub inheritable: u64,
}

impl Default for CapabilitySnapshot {
    /// Every set empty.
    fn default() -> (r: Self)
        ensures
            r.effective == 0 && r.permitted == 0 && r.inheritable == 0,
    {
        CapabilitySnapshot { effective: 0, permitted: 0, inheritable: 0 }
    }
}

/// One inspection of the process identities and privilege state.
#[derive(Clone, Copy, Debug, PartialEq, Eq, Structural)]
pub struct IdentitySnapshot {
    /// Real user identity.
    pub real_uid: u32,
    /// Effective user identity.
    pub effective_uid: u32,
    /// Saved user identity.
    pub saved_uid: u32,
    /// Real group identity.
    pub real_gid: u32,
    /// Effective group identity.
    pub effective_gid: u32,
    /// Saved group identity.
    pub saved_gid: u32,
    /// Capability sets.
    pub capabilities: CapabilitySnapshot,
    /// Whether any ambient capability was raised.
    pub ambient_any: bool,
    /// Whether `no_new_privs` was set.
    pub no_new_privileges: bool,
}

/// Some identity of the snapshot is root.
pub open spec fn has_root_identity(s: IdentitySnapshot) -> bool {
    s.real_uid == 0 || s.effective_uid == 0 || s.saved_uid == 0 || s.real_gid == 0 || s.effective_gid == 0
        || s.saved_gid == 0
}

/// Real, effective and saved identities agree.
pub open spec fn identities_agree(s: IdentitySnapshot) -> bool {
    s.real_uid == s.effective_uid && s.real_uid == s.saved_uid && s.real_gid == s.effective_gid
        && s.real_gid == s.saved_gid
}

/// Accepts only one nonroot identity shared by the real, effective and saved ids.
pub fn require_unprivileged_identity(snapshot: IdentitySnapshot) -> (r: Result<LockedPrivileges, PrivilegeError>)
    ensures
        r is Ok <==> !has_root_identity(snapshot) && identities_agree(snapshot),
        r matches Ok(l) ==> l.user_of() == snapshot.real_uid && l.group_of() == snapshot.real_gid,
        r matches Err(e) ==> e == (if has_root_identity(snapshot) {
            PrivilegeError::RootIdentity
        } else {
            PrivilegeError::IdentityMismatch
        }),
{
    if snapshot.real_uid == 0 || snapshot.effective_uid == 0 || snapshot.saved_uid == 0 || snapshot.real_gid
        == 0 || snapshot.effective_gid == 0 || snapshot.saved_gid == 0 {
        return Err(PrivilegeError::RootIdentity);
    }
    if snapshot.real_uid != snapshot.effective_uid || snapshot.real_uid != snapshot.saved_uid
        || snapshot.real_gid != snapshot.effective_gid || snapshot.real_gid != snapshot.saved_gid {
        return Err(PrivilegeError::IdentityMismatch);
    }
    Ok(LockedPrivileges { user_id: snapshot.real_uid, group_id: snapshot.real_gid })
}

/// Every identity of the snapshot is the locked identity.
pub open spec fn identity_unchanged(identity: LockedPrivileges, s: IdentitySnapshot) -> bool {
    &&& s.real_uid == identity.user_of() && s.effective_uid == identity.user_of() && s.saved_uid
        == identity.user_of()
    &&& s.real_gid == identity.group_of() && s.effective_gid == identity.group_of() && s.saved_gid
        == identity.group_of()
}

/// No capability remains in any set, ambient included.
pub open spec fn capabilities_cleared(s: IdentitySnapshot) -> bool {
    s.capabilities.effective == 0 && s.capabilities.permitted == 0 && s.capabilities.inheritable == 0
        && !s.ambient_any
}

/// Checks the state read back after locking: the same identity, no capability,
/// and `no_new_privs` set, in that order.
pub fn validate_locked(identity: LockedPrivileges, snapshot: IdentitySnapshot) -> (r: Result<(), PrivilegeError>)
    ensures
        r is Ok <==> identity_unchanged(identity, snapshot) && capabilities_cleared(snapshot)
            && snapshot.no_new_privileges,
        r matches Err(e) ==> e == (if !identity_unchanged(identity, snapshot) {
            PrivilegeError::IdentityDrift
        } else if !capabilities_cleared(snapshot) {
            PrivilegeError::CapabilityVerificationFailed
        } else {
            PrivilegeError::NoNewPrivilegesVerificationFailed
        }),
{
    let user = identity.user_id();
    let group = identity.group_id();
    if snapshot.real_uid != user || snapshot.effective_uid != user || snapshot.saved_uid != user
        || snapshot.real_gid != group || snapshot.effective_gid != group || snapshot.saved_gid != group {
        return Err(PrivilegeError::IdentityDrift);
    }
    if snapshot.capabilities.effective != 0 || snapshot.capabilities.permitted != 0
        || snapshot.capabilities.inheritable != 0 || snapshot.ambient_any {
        return Err(PrivilegeError::CapabilityVerificationFailed);
    }
    if !snapshot.no_new_privileges {
        return Err(PrivilegeError::NoNewPrivilegesVerificationFailed);
    }
    Ok(())
}

} // verus!
