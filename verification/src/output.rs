//! Fresh output roots: the errors a root can meet and how resolution and system
//! errors map onto them.
use vstd::prelude::*;

use crate::resolve::ResolutionError;

verus! {

/// `ENOENT`: no such file or directory.
pub const ERRNO_NOENT: i32 = 2;

/// `ENXIO`: no such device or address.
pub const ERRNO_NXIO: i32 = 6;

/// `EEXIST`: the file exists.
pub const ERRNO_EXIST: i32 = 17;

/// `ENODEV`: no such device.
pub const ERRNO_NODEV: i32 = 19;

/// `ENOSYS`: the system call is not implemented.
pub const ERRNO_NOSYS: i32 = 38;

/// `ELOOP`: too many levels of symbolic links.
pub const ERRNO_LOOP: i32 = 40;

/// Identifies one fail-closed fresh-root or inventory result.
#[derive(Clone, Copy, Debug, PartialEq, Eq, Structural)]
pub enum OutputRootError {
    /// The host operating system is not Linux.
    UnsupportedOperatingSystem,
    /// The requested output path was not a normalized relative child path.
    PathInvalid,
    /// The confined parent directory could not be opened.
    ParentUnavailable,
    /// The requested fresh output root already existed.
    AlreadyExists,
    /// The new directory could not be created.
    CreationFailed,
    /// The new directory could not be reopened by descriptor.
    OpenFailed,
    /// The output root did not have the required private mode.
    ModeInvalid,
    /// The newly created or pre-launch root was not empty.
    NotEmpty,
    /// A directory or file changed during inventory.
    IdentityDrift,
    /// A resolved output was not a regular file or directory.
    ForbiddenFileKind,
    /// Exact output identity could not be measured.
    IdentityUnavailable,
    /// The kernel cannot provide the required `openat2` guarantee.
    Openat2Unavailable,
}

/// The stable machine-readable code of each output-root error.
pub open spec fn output_error_code(e: OutputRootError) -> Seq<char> {
    match e {
        OutputRootError::UnsupportedOperatingSystem => "output.os.unsupported"@,
        OutputRootError::PathInvalid => "output.path.invalid"@,
        OutputRootError::ParentUnavailable => "output.parent.unavailable"@,
        OutputRootError::AlreadyExists => "output.root.exists"@,
        OutputRootError::CreationFailed => "output.root.creation-failed"@,
        OutputRootError::OpenFailed => "output.root.open-failed"@,
        OutputRootError::ModeInvalid => "output.root.mode-invalid"@,
        OutputRootError::NotEmpty => "output.root.not-empty"@,
        OutputRootError::IdentityDrift => "output.identity.drift"@,
        OutputRootError::ForbiddenFileKind => "output.file-kind.forbidden"@,
        OutputRootError::IdentityUnavailable => "output.identity.unavailable"@,
        OutputRootError::Openat2Unavailable => "output.openat2.unavailable"@,
    }
}

impl OutputRootError {
    /// Returns the stable machine-readable error code.
    pub fn code(self) -> (r: &'static str)
        ensures
            r@ == output_error_code(self),
    {
        match self {
            OutputRootError::UnsupportedOperatingSystem => "output.os.unsupported",
            OutputRootError::PathInvalid => "output.path.invalid",
            OutputRootError::ParentUnavailable => "output.parent.unavailable",
            OutputRootError::AlreadyExists => "output.root.exists",
            OutputRootError::CreationFailed => "output.root.creation-failed",
            OutputRootError::OpenFailed => "output.root.open-failed",
            OutputRootError::ModeInvalid => "output.root.mode-invalid",
            OutputRootError::NotEmpty => "output.root.not-empty",
            OutputRootError::IdentityDrift => "output.identity.drift",
            OutputRootError::ForbiddenFileKind => "output.file-kind.forbidden",
            OutputRootError::IdentityUnavailable => "output.identity.unavailable",
            OutputRootError::Openat2Unavailable => "output.openat2.unavailable",
        }
    }
}

/// Distinct output-root errors have distinct codes.
pub proof fn lemma_output_codes_distinct(a: OutputRootError, b: OutputRootError)
    requires
        a != b,
    ensures
        output_error_code(a) != output_error_code(b),
{
    reveal_strlit("output.os.unsupported");
    reveal_strlit("output.path.invalid");
    reveal_strlit("output.parent.unavailable");
    reveal_strlit("output.root.exists");
    reveal_strlit("output.root.creation-failed");
    reveal_strlit("output.root.open-failed");
    reveal_strlit("output.root.mode-invalid");
    reveal_strlit("output.root.not-empty");
    reveal_strlit("output.identity.drift");
    reveal_strlit("output.file-kind.forbidden");
    reveal_strlit("output.identity.unavailable");
    reveal_strlit("output.openat2.unavailable");
    let ca = output_error_code(a);
    let cb = output_error_code(b);
    if ca.len() == cb.len() {
        assert(ca[7] != cb[7]);
    }
}


/// Maps the system error of opening an output root's parent: a kernel without
/// `openat2` is `Openat2Unavailable`, anything else `ParentUnavailable`.
pub fn map_parent_error(raw_os_error: Option<i32>) -> (r: OutputRootError)
    ensures
        r == if raw_os_error == Some(ERRNO_NOSYS) {
            OutputRootError::Openat2Unavailable
        } else {
            OutputRootError::ParentUnavailable
        },
{
    if raw_os_error == Some(ERRNO_NOSYS) {
        OutputRootError::Openat2Unavailable
    } else {
        OutputRootError::ParentUnavailable
    }
}

/// Maps the system error of creating an output root: an existing entry is
/// `AlreadyExists`, anything else `CreationFailed`.
pub fn map_creation_error(raw_os_error: Option<i32>) -> (r: OutputRootError)
    ensures
        r == if raw_os_error == Some(ERRNO_EXIST) {
            OutputRootError::AlreadyExists
        } else {
            OutputRootError::CreationFailed
        },
{
    if raw_os_error == Some(ERRNO_EXIST) {
        OutputRootError::AlreadyExists
    } else {
        OutputRootError::CreationFailed
    }
}

/// Maps the system error of opening an inventory entry: no `openat2` is
/// `Openat2Unavailable`; a symbolic link loop or a device is `ForbiddenFileKind`; a
/// vanished entry is `IdentityDrift`; anything else `IdentityUnavailable`.
pub fn map_inventory_open_error(raw_os_error: Option<i32>) -> (r: OutputRootError)
    ensures
        r == match raw_os_error {
            Some(ERRNO_NOSYS) => OutputRootError::Openat2Unavailable,
            Some(code) if code == ERRNO_LOOP || code == ERRNO_NXIO || code == ERRNO_NODEV => OutputRootError::ForbiddenFileKind,
            Some(ERRNO_NOENT) => OutputRootError::IdentityDrift,
            _ => OutputRootError::IdentityUnavailable,
        },
{
    match raw_os_error {
        Some(code) => if code == ERRNO_NOSYS {
            OutputRootError::Openat2Unavailable
        } else if code == ERRNO_LOOP || code == ERRNO_NXIO || code == ERRNO_NODEV {
            OutputRootError::ForbiddenFileKind
        } else if code == ERRNO_NOENT {
            OutputRootError::IdentityDrift
        } else {
            OutputRootError::IdentityUnavailable
        },
        None => OutputRootError::IdentityUnavailable,
    }
}

/// Maps a resolution error met while measuring an output: a forbidden file kind and
/// identity drift keep their meaning; anything else is `IdentityUnavailable`.
pub fn map_identity_error(error: ResolutionError) -> (r: OutputRootError)
    ensures
        r == match error {
            ResolutionError::ForbiddenFileKind => OutputRootError::ForbiddenFileKind,
            ResolutionError::IdentityDrift => OutputRootError::IdentityDrift,
            _ => OutputRootError::IdentityUnavailable,
        },
{
    match error {
        ResolutionError::ForbiddenFileKind => OutputRootError::ForbiddenFileKind,
        ResolutionError::IdentityDrift => OutputRootError::IdentityDrift,
        _ => OutputRootError::IdentityUnavailable,
    }
}

} // verus!
