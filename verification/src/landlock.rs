//! The closed version 1 Landlock filesystem boundary: access classes, kernel masks
//! and the installation witness.
use vstd::prelude::*;

verus! {

/// Execute a regular file.
pub const ACCESS_EXECUTE: u64 = 0x1;

/// Write to a regular file.
pub const ACCESS_WRITE_FILE: u64 = 0x2;

/// Read a regular file.
pub const ACCESS_READ_FILE: u64 = 0x4;

/// Enumerate a directory.
pub const ACCESS_READ_DIR: u64 = 0x8;

/// Remove a directory.
pub const ACCESS_REMOVE_DIR: u64 = 0x10;

/// Remove a file.
pub const ACCESS_REMOVE_FILE: u64 = 0x20;

/// Create a character device.
pub const ACCESS_MAKE_CHAR: u64 = 0x40;

/// Create a directory.
pub const ACCESS_MAKE_DIR: u64 = 0x80;

/// Create a regular file.
pub const ACCESS_MAKE_REG: u64 = 0x100;

/// Create a socket.
pub const ACCESS_MAKE_SOCK: u64 = 0x200;

/// Create a named pipe.
pub const ACCESS_MAKE_FIFO: u64 = 0x400;

/// Create a block device.
pub const ACCESS_MAKE_BLOCK: u64 = 0x800;

/// Create a symbolic link.
pub const ACCESS_MAKE_SYM: u64 = 0x1000;

/// Link or rename across directories.
pub const ACCESS_REFER: u64 = 0x2000;

/// Truncate a file.
pub const ACCESS_TRUNCATE: u64 = 0x4000;

/// Issue device ioctls (ABI 5 and later).
pub const ACCESS_IOCTL_DEV: u64 = 0x8000;

/// Connect to Unix sockets by path (ABI 9 and later).
pub const ACCESS_RESOLVE_UNIX: u64 = 0x10000;

/// The newest Landlock ABI whose access rights this boundary knows.
pub const MAX_KNOWN_ABI: u32 = 11;

/// The oldest Landlock ABI that can mediate truncation.
pub const MIN_SUPPORTED_ABI: u32 = 3;

/// Every mutation right granted beneath a writable directory.
pub const ACCESS_WRITE_DIRECTORY: u64 = 0x7ff2;

/// The rights handled by every supported ABI (execute through truncate).
pub const ACCESS_BASE_HANDLED: u64 = 0x7fff;

/// Selects one closed filesystem authority class.
#[derive(Clone, Copy, Debug, PartialEq, Eq, Structural)]
pub enum LandlockAccess {
    /// Permits file bytes and directory enumeration beneath a descriptor.
    Read,
    /// Permits mutation beneath a directory or of one exact file.
    Write,
    /// Permits execution of one exact regular file.
    Execute,
}

/// Identifies one fail-closed Landlock installation result.
#[derive(Clone, Copy, Debug, PartialEq, Eq, Structural)]
pub enum LandlockError {
    /// The host operating system is not Linux.
    UnsupportedOperatingSystem,
    /// The kernel ABI cannot mediate truncate operations.
    AbiUnsupported,
    /// No filesystem authority descriptors were supplied.
    RuleSetEmpty,
    /// A descriptor did not refer to a regular file or directory.
    FileKindInvalid,
    /// Execute authority was attached to a directory.
    DirectoryExecuteForbidden,
    /// The kernel ruleset descriptor could not be created.
    RuleSetCreationFailed,
    /// One descriptor rule could not be installed.
    RuleInstallationFailed,
    /// The current launcher could not be restricted by the completed ruleset.
    RestrictionFailed,
}

/// The stable machine-readable code of each Landlock error.
pub open spec fn landlock_error_code(e: LandlockError) -> Seq<char> {
    match e {
        LandlockError::UnsupportedOperatingSystem => "landlock.os.unsupported"@,
        LandlockError::AbiUnsupported => "landlock.abi.unsupported"@,
        LandlockError::RuleSetEmpty => "landlock.rules.empty"@,
        LandlockError::FileKindInvalid => "landlock.file-kind.invalid"@,
        LandlockError::DirectoryExecuteForbidden => "landlock.execute.directory-forbidden"@,
        LandlockError::RuleSetCreationFailed => "landlock.ruleset.creation-failed"@,
        LandlockError::RuleInstallationFailed => "landlock.rule.installation-failed"@,
        LandlockError::RestrictionFailed => "landlock.restriction.failed"@,
    }
}

impl LandlockError {
    /// Returns the stable machine-readable error code.
    pub fn code(self) -> (r: &'static str)
        ensures
            r@ == landlock_error_code(self),
    {
        match self {
            LandlockError::UnsupportedOperatingSystem => "landlock.os.unsupported",
            LandlockError::AbiUnsupported => "landlock.abi.unsupported",
            LandlockError::RuleSetEmpty => "landlock.rules.empty",
            LandlockError::FileKindInvalid => "landlock.file-kind.invalid",
            LandlockError::DirectoryExecuteForbidden => "landlock.execute.directory-forbidden",
            LandlockError::RuleSetCreationFailed => "landlock.ruleset.creation-failed",
            LandlockError::RuleInstallationFailed => "landlock.rule.installation-failed",
            LandlockError::RestrictionFailed => "landlock.restriction.failed",
        }
    }
}

/// No two Landlock errors share a code.
pub proof fn lemma_landlock_codes_distinct(a: LandlockError, b: LandlockError)
    requires
        a != b,
    ensures
        landlock_error_code(a) != landlock_error_code(b),
{
    reveal_strlit("landlock.os.unsupported");
    reveal_strlit("landlock.abi.unsupported");
    reveal_strlit("landlock.rules.empty");
    reveal_strlit("landlock.file-kind.invalid");
    reveal_strlit("landlock.execute.directory-forbidden");
    reveal_strlit("landlock.ruleset.creation-failed");
    reveal_strlit("landlock.rule.installation-failed");
    reveal_strlit("landlock.restriction.failed");
    let ca = landlock_error_code(a);
    let cb = landlock_error_code(b);
    if ca.len() == cb.len() {
        assert(ca[9] != cb[9] || ca[10] != cb[10] || ca[14] != cb[14]);
    }
}

/// The filesystem rights that a ruleset for `abi` handles.
pub open spec fn handled_access_mask(abi: u32) -> u64 {
    ACCESS_BASE_HANDLED | (if abi >= 5 {
        ACCESS_IOCTL_DEV
    } else {
        0
    }) | (if abi >= 9 {
        ACCESS_RESOLVE_UNIX
    } else {
        0
    })
}

/// Returns the complete filesystem access mask handled for one kernel ABI.
pub fn handled_access(abi: u32) -> (r: u64)
    ensures
        r == handled_access_mask(abi),
{
    let mut access = ACCESS_EXECUTE | ACCESS_WRITE_FILE | ACCESS_READ_FILE | ACCESS_READ_DIR
        | ACCESS_REMOVE_DIR | ACCESS_REMOVE_FILE | ACCESS_MAKE_CHAR | ACCESS_MAKE_DIR | ACCESS_MAKE_REG
        | ACCESS_MAKE_SOCK | ACCESS_MAKE_FIFO | ACCESS_MAKE_BLOCK | ACCESS_MAKE_SYM | ACCESS_REFER
        | ACCESS_TRUNCATE;
    assert(access == ACCESS_BASE_HANDLED) by (bit_vector)
        requires
            access == 0x1u64 | 0x2u64 | 0x4u64 | 0x8u64 | 0x10u64 | 0x20u64 | 0x40u64 | 0x80u64
                | 0x100u64 | 0x200u64 | 0x400u64 | 0x800u64 | 0x1000u64 | 0x2000u64 | 0x4000u64,
    ;
    if abi >= 5 {
        access = access | ACCESS_IOCTL_DEV;
    }
    if abi >= 9 {
        access = access | ACCESS_RESOLVE_UNIX;
    }
    proof {
        let i: u64 = if abi >= 5 {
            ACCESS_IOCTL_DEV
        } else {
            0
        };
        let u: u64 = if abi >= 9 {
            ACCESS_RESOLVE_UNIX
        } else {
            0
        };
        assert(ACCESS_BASE_HANDLED | 0u64 == ACCESS_BASE_HANDLED) by (bit_vector);
        assert(forall|x: u64| x | 0u64 == x) by (bit_vector);
        assert(access == ACCESS_BASE_HANDLED | i | u);
    }
    access
}

/// The rights that one rule grants beneath its descriptor.
pub open spec fn allowed_access_mask(access: LandlockAccess, is_directory: bool) -> Option<u64> {
    match (access, is_directory) {
        (LandlockAccess::Read, true) => Some(ACCESS_READ_FILE | ACCESS_READ_DIR),
        (LandlockAccess::Read, false) => Some(ACCESS_READ_FILE),
        (LandlockAccess::Write, true) => Some(ACCESS_WRITE_DIRECTORY),
        (LandlockAccess::Write, false) => Some(ACCESS_WRITE_FILE | ACCESS_TRUNCATE),
        (LandlockAccess::Execute, false) => Some(ACCESS_EXECUTE),
        (LandlockAccess::Execute, true) => None,
    }
}

/// Maps one authority class to the exact rights for a file or a directory;
/// execute authority on a directory is refused.
pub fn allowed_access(access: LandlockAccess, is_directory: bool) -> (r: Result<u64, LandlockError>)
    ensures
        r is Ok <==> allowed_access_mask(access, is_directory) is Some,
        r matches Ok(m) ==> Some(m) == allowed_access_mask(access, is_directory),
        r matches Err(e) ==> e == LandlockError::DirectoryExecuteForbidden,
{
    match (access, is_directory) {
        (LandlockAccess::Read, true) => Ok(ACCESS_READ_FILE | ACCESS_READ_DIR),
        (LandlockAccess::Read, false) => Ok(ACCESS_READ_FILE),
        (LandlockAccess::Write, true) => Ok(ACCESS_WRITE_DIRECTORY),
        (LandlockAccess::Write, false) => Ok(ACCESS_WRITE_FILE | ACCESS_TRUNCATE),
        (LandlockAccess::Execute, false) => Ok(ACCESS_EXECUTE),
        (LandlockAccess::Execute, true) => Err(LandlockError::DirectoryExecuteForbidden),
    }
}

/// Every right that any rule grants is handled by the ruleset of every supported ABI,
/// so no granted right escapes mediation.
pub proof fn lemma_allowed_within_handled(access: LandlockAccess, is_directory: bool, abi: u32)
    requires
        allowed_access_mask(access, is_directory) is Some,
    ensures
        allowed_access_mask(access, is_directory)->0 & !handled_access_mask(abi) == 0,
{
    let m = allowed_access_mask(access, is_directory)->0;
    let h = handled_access_mask(abi);
    assert(h & ACCESS_BASE_HANDLED == ACCESS_BASE_HANDLED) by (bit_vector)
        requires
            h == ACCESS_BASE_HANDLED | (if abi >= 5 {
                ACCESS_IOCTL_DEV
            } else {
                0
            }) | (if abi >= 9 {
                ACCESS_RESOLVE_UNIX
            } else {
                0
            }),
    ;
    assert(0x4u64 | 0x8u64 == 0xcu64 && 0x2u64 | 0x4000u64 == 0x4002u64) by (bit_vector);
    assert(m & !ACCESS_BASE_HANDLED == 0) by (bit_vector)
        requires
            m == 0xcu64 || m == 0x4u64 || m == 0x7ff2u64 || m == 0x4002u64 || m == 0x1u64,
    ;
    assert(m & !h == 0) by (bit_vector)
        requires
            m & !ACCESS_BASE_HANDLED == 0,
            h & ACCESS_BASE_HANDLED == ACCESS_BASE_HANDLED,
    ;
}

/// Write authority on a directory grants every mutation right beneath it: writing
/// and truncating files, creating each kind of entry, removing files and
/// directories, and moving entries in; it grants no right to read or execute. Write
/// authority on a file grants exactly writing and truncation.
pub proof fn lemma_write_rights()
    ensures
        allowed_access_mask(LandlockAccess::Write, true) == Some(
            ACCESS_WRITE_FILE | ACCESS_REMOVE_DIR | ACCESS_REMOVE_FILE | ACCESS_MAKE_CHAR | ACCESS_MAKE_DIR
                | ACCESS_MAKE_REG | ACCESS_MAKE_SOCK | ACCESS_MAKE_FIFO | ACCESS_MAKE_BLOCK | ACCESS_MAKE_SYM
                | ACCESS_REFER | ACCESS_TRUNCATE,
        ),
        allowed_access_mask(LandlockAccess::Write, true)->0 & ACCESS_MAKE_REG == ACCESS_MAKE_REG,
        allowed_access_mask(LandlockAccess::Write, true)->0 & ACCESS_MAKE_DIR == ACCESS_MAKE_DIR,
        allowed_access_mask(LandlockAccess::Write, true)->0 & ACCESS_REMOVE_FILE == ACCESS_REMOVE_FILE,
        allowed_access_mask(LandlockAccess::Write, true)->0 & ACCESS_REMOVE_DIR == ACCESS_REMOVE_DIR,
        allowed_access_mask(LandlockAccess::Write, true)->0 & ACCESS_WRITE_FILE == ACCESS_WRITE_FILE,
        allowed_access_mask(LandlockAccess::Write, true)->0 & ACCESS_TRUNCATE == ACCESS_TRUNCATE,
        allowed_access_mask(LandlockAccess::Write, true)->0 & (ACCESS_EXECUTE | ACCESS_READ_FILE
            | ACCESS_READ_DIR) == 0,
        allowed_access_mask(LandlockAccess::Write, false) == Some(ACCESS_WRITE_FILE | ACCESS_TRUNCATE),
{
    assert(0x2u64 | 0x10u64 | 0x20u64 | 0x40u64 | 0x80u64 | 0x100u64 | 0x200u64 | 0x400u64 | 0x800u64
        | 0x1000u64 | 0x2000u64 | 0x4000u64 == 0x7ff2u64) by (bit_vector);
    assert(0x7ff2u64 & 0x100u64 == 0x100u64 && 0x7ff2u64 & 0x80u64 == 0x80u64 && 0x7ff2u64 & 0x20u64
        == 0x20u64 && 0x7ff2u64 & 0x10u64 == 0x10u64 && 0x7ff2u64 & 0x2u64 == 0x2u64 && 0x7ff2u64
        & 0x4000u64 == 0x4000u64 && 0x7ff2u64 & (0x1u64 | 0x4u64 | 0x8u64) == 0u64) by (bit_vector);
}

/// Read authority grants reading a file, and on a directory also listing it, and
/// no right to change anything; execute authority on a file grants execution alone.
pub proof fn lemma_read_execute_rights()
    ensures
        allowed_access_mask(LandlockAccess::Read, true) == Some(ACCESS_READ_FILE | ACCESS_READ_DIR),
        allowed_access_mask(LandlockAccess::Read, false) == Some(ACCESS_READ_FILE),
        allowed_access_mask(LandlockAccess::Read, true)->0 & ACCESS_WRITE_DIRECTORY == 0,
        allowed_access_mask(LandlockAccess::Read, false)->0 & ACCESS_WRITE_DIRECTORY == 0,
        allowed_access_mask(LandlockAccess::Execute, false) == Some(ACCESS_EXECUTE),
        allowed_access_mask(LandlockAccess::Execute, true) is None,
{
    assert((0x4u64 | 0x8u64) & 0x7ff2u64 == 0u64 && 0x4u64 & 0x7ff2u64 == 0u64) by (bit_vector);
}

/// Checks a ruleset request before any kernel object is created: the ABI must
/// mediate truncation and lie within the known range, and some rule must exist.
pub fn check_landlock_request(abi: u32, rule_count: usize) -> (r: Result<u64, LandlockError>)
    ensures
        r is Ok <==> (MIN_SUPPORTED_ABI <= abi <= MAX_KNOWN_ABI && rule_count > 0),
        r matches Ok(m) ==> m == handled_access_mask(abi),
        r matches Err(e) ==> e == (if !(MIN_SUPPORTED_ABI <= abi <= MAX_KNOWN_ABI) {
            LandlockError::AbiUnsupported
        } else {
            LandlockError::RuleSetEmpty
        }),
{
    if abi < MIN_SUPPORTED_ABI || abi > MAX_KNOWN_ABI {
        return Err(LandlockError::AbiUnsupported);
    }
    if rule_count == 0 {
        return Err(LandlockError::RuleSetEmpty);
    }
    Ok(handled_access(abi))
}

/// Witnesses successful installation of every registered Landlock rule.
#[derive(Clone, Copy, Debug, PartialEq, Eq, Structural)]
pub struct LandlockBoundary {
    abi: u32,
    handled_access_fs: u64,
    rule_count: usize,
}

impl LandlockBoundary {
    pub closed spec fn abi_of(self) -> u32 {
        self.abi
    }

    pub closed spec fn handled_of(self) -> u64 {
        self.handled_access_fs
    }

    pub closed spec fn rule_count_of(self) -> usize {
        self.rule_count
    }

    /// Records a completed restriction with `rule_count` installed rules; the same
    /// request checks as before installation apply.
    pub fn installed(abi: u32, rule_count: usize) -> (r: Result<Self, LandlockError>)
        ensures
            r is Ok <==> (MIN_SUPPORTED_ABI <= abi <= MAX_KNOWN_ABI && rule_count > 0),
            r matches Ok(b) ==> b.abi_of() == abi && b.handled_of() == handled_access_mask(abi)
                && b.rule_count_of() == rule_count,
            r matches Err(e) ==> e == (if !(MIN_SUPPORTED_ABI <= abi <= MAX_KNOWN_ABI) {
                LandlockError::AbiUnsupported
            } else {
                LandlockError::RuleSetEmpty
            }),
    {
        let handled_access_fs = check_landlock_request(abi, rule_count)?;
        Ok(LandlockBoundary { abi, handled_access_fs, rule_count })
    }

    /// Returns the exact kernel ABI used to compile the ruleset.
    pub fn abi(self) -> (r: u32)
        ensures
            r == self.abi_of(),
    {
        self.abi
    }

    /// Returns the complete filesystem access mask handled by the ruleset.
    pub fn handled_access_fs(self) -> (r: u64)
        ensures
            r == self.handled_of(),
    {
        self.handled_access_fs
    }

    /// Returns the number of successfully installed descriptor rules.
    pub fn rule_count(self) -> (r: usize)
        ensures
            r == self.rule_count_of(),
    {
        self.rule_count
    }
}

} // verus!
