//! The paused launcher's private version 1 protocol: identities, install requests,
//! typed failures, the acknowledgement sequence and the canonical message codec.
use vstd::prelude::*;
use vstd::string::StringSliceAdditionalSpecFns;

use crate::landlock::{LandlockAccess, LandlockBoundary};
use crate::privilege::{LockedPrivileges, PrivilegeError};
use crate::seccomp::SeccompBoundary;
use crate::model::{ArtifactIdentity, ArtifactRole, CgroupIdentity, ExecutionId, FileMode, Sha256Digest};
use crate::cbor::{
    encode_value, entries_of, item_bytes, item_ok, items_of, lemma_entries_of, lemma_items_of, lemma_parse_item_bytes,
    parse_item, Decoder, Item, CborValue,
};
use crate::model::artifact_role_name;
use crate::text::{lemma_lex_order, lex_less, string_bytes};

verus! {

/// The largest accepted private protocol packet, in bytes.
pub const MAX_LAUNCHER_FRAME_BYTES: usize = 1048576;

/// The largest accepted number of items in one array or map.
pub const MAX_COLLECTION_ITEMS: usize = 4096;

/// The deepest accepted nesting of arrays and maps.
pub const MAX_NESTING_DEPTH: usize = 32;

/// Identifies a private launcher protocol or sequence failure.
#[derive(Clone, Copy, Debug, PartialEq, Eq, Structural)]
pub enum LauncherError {
    /// The host operating system is not Linux.
    UnsupportedOperatingSystem,
    /// The private channel pair could not be created.
    ChannelCreationFailed,
    /// One private packet could not be received.
    ChannelReadFailed,
    /// No private packet arrived before the monotonic deadline.
    ChannelTimeout,
    /// One private packet could not be sent.
    ChannelWriteFailed,
    /// The launcher could not stop before supervisor placement.
    PauseFailed,
    /// The channel ended before a message arrived.
    Eof,
    /// A CBOR item ended before its declared content.
    Truncated,
    /// A packet exceeded the registered one-mebibyte limit.
    FrameTooLarge,
    /// A packet was not a closed version 1 CBOR message.
    Malformed,
    /// A valid message did not use deterministic CBOR bytes.
    NonCanonical,
    /// A CBOR map contained the same key more than once.
    DuplicateKey,
    /// Bytes followed the one permitted CBOR item.
    TrailingData,
    /// The message schema version was not version 1.
    UnsupportedVersion,
    /// The compiled-policy identity did not match the supervisor value.
    PolicyIdentityMismatch,
    /// The cgroup identity did not match the supervisor value.
    CgroupIdentityMismatch,
    /// The execution identity did not match the supervisor value.
    ExecutionIdentityMismatch,
    /// The seccomp bytes did not match the registered profile.
    SeccompProgramMismatch,
    /// A required descriptor was invalid or outside the retained range.
    FileDescriptorInvalid,
    /// The executable descriptor identity changed before exec.
    ExecutableIdentityMismatch,
    /// Ambient privilege removal did not complete.
    PrivilegeInstallationFailed,
    /// Landlock installation did not complete.
    LandlockInstallationFailed,
    /// Seccomp installation did not complete.
    SeccompInstallationFailed,
    /// The launcher could not enter the registered working directory.
    WorkingDirectoryFailed,
    /// Descriptor-relative exec was denied by the installed boundary or host.
    ExecPermissionDenied,
    /// Descriptor-relative exec was rejected as an impermissible operation.
    ExecOperationNotPermitted,
    /// Descriptor-relative exec could not resolve a required image component.
    ExecNotFound,
    /// Descriptor-relative exec rejected the executable image format.
    ExecFormatInvalid,
    /// Descriptor-relative exec failed.
    ExecFailed,
    /// Code attempted to acknowledge before boundary installation.
    BoundaryNotInstalled,
    /// Code attempted to authorize exec before acknowledgement.
    AcknowledgementMissing,
    /// A protocol message or state transition was not expected.
    UnexpectedMessage,
}

/// The stable machine-readable code of each launcher error.
pub open spec fn launcher_error_code(e: LauncherError) -> Seq<char> {
    match e {
        LauncherError::UnsupportedOperatingSystem => "launcher.os.unsupported"@,
        LauncherError::ChannelCreationFailed => "launcher.channel.creation-failed"@,
        LauncherError::ChannelReadFailed => "launcher.channel.read-failed"@,
        LauncherError::ChannelTimeout => "launcher.channel.timeout"@,
        LauncherError::ChannelWriteFailed => "launcher.channel.write-failed"@,
        LauncherError::PauseFailed => "launcher.pause.failed"@,
        LauncherError::Eof => "launcher.protocol.eof"@,
        LauncherError::Truncated => "launcher.protocol.truncated"@,
        LauncherError::FrameTooLarge => "launcher.protocol.frame-too-large"@,
        LauncherError::Malformed => "launcher.protocol.malformed"@,
        LauncherError::NonCanonical => "launcher.protocol.non-canonical"@,
        LauncherError::DuplicateKey => "launcher.protocol.duplicate-key"@,
        LauncherError::TrailingData => "launcher.protocol.trailing-data"@,
        LauncherError::UnsupportedVersion => "launcher.protocol.unsupported-version"@,
        LauncherError::PolicyIdentityMismatch => "launcher.identity.policy-mismatch"@,
        LauncherError::CgroupIdentityMismatch => "launcher.identity.cgroup-mismatch"@,
        LauncherError::ExecutionIdentityMismatch => "launcher.identity.execution-mismatch"@,
        LauncherError::SeccompProgramMismatch => "launcher.identity.seccomp-program-mismatch"@,
        LauncherError::FileDescriptorInvalid => "launcher.file-descriptor.invalid"@,
        LauncherError::ExecutableIdentityMismatch => "launcher.identity.executable-mismatch"@,
        LauncherError::PrivilegeInstallationFailed => "launcher.privileges.installation-failed"@,
        LauncherError::LandlockInstallationFailed => "launcher.landlock.installation-failed"@,
        LauncherError::SeccompInstallationFailed => "launcher.seccomp.installation-failed"@,
        LauncherError::WorkingDirectoryFailed => "launcher.working-directory.failed"@,
        LauncherError::ExecPermissionDenied => "launcher.exec.permission-denied"@,
        LauncherError::ExecOperationNotPermitted => "launcher.exec.operation-not-permitted"@,
        LauncherError::ExecNotFound => "launcher.exec.not-found"@,
        LauncherError::ExecFormatInvalid => "launcher.exec.format-invalid"@,
        LauncherError::ExecFailed => "launcher.exec.failed"@,
        LauncherError::BoundaryNotInstalled => "launcher.sequence.boundary-not-installed"@,
        LauncherError::AcknowledgementMissing => "launcher.sequence.acknowledgement-missing"@,
        LauncherError::UnexpectedMessage => "launcher.sequence.unexpected-message"@,
    }
}

impl LauncherError {
    /// Returns the stable machine-readable error code.
    pub fn code(self) -> (r: &'static str)
        ensures
            r@ == launcher_error_code(self),
    {
        match self {
            LauncherError::UnsupportedOperatingSystem => "launcher.os.unsupported",
            LauncherError::ChannelCreationFailed => "launcher.channel.creation-failed",
            LauncherError::ChannelReadFailed => "launcher.channel.read-failed",
            LauncherError::ChannelTimeout => "launcher.channel.timeout",
            LauncherError::ChannelWriteFailed => "launcher.channel.write-failed",
            LauncherError::PauseFailed => "launcher.pause.failed",
            LauncherError::Eof => "launcher.protocol.eof",
            LauncherError::Truncated => "launcher.protocol.truncated",
            LauncherError::FrameTooLarge => "launcher.protocol.frame-too-large",
            LauncherError::Malformed => "launcher.protocol.malformed",
            LauncherError::NonCanonical => "launcher.protocol.non-canonical",
            LauncherError::DuplicateKey => "launcher.protocol.duplicate-key",
            LauncherError::TrailingData => "launcher.protocol.trailing-data",
            LauncherError::UnsupportedVersion => "launcher.protocol.unsupported-version",
            LauncherError::PolicyIdentityMismatch => "launcher.identity.policy-mismatch",
            LauncherError::CgroupIdentityMismatch => "launcher.identity.cgroup-mismatch",
            LauncherError::ExecutionIdentityMismatch => "launcher.identity.execution-mismatch",
            LauncherError::SeccompProgramMismatch => "launcher.identity.seccomp-program-mismatch",
            LauncherError::FileDescriptorInvalid => "launcher.file-descriptor.invalid",
            LauncherError::ExecutableIdentityMismatch => "launcher.identity.executable-mismatch",
            LauncherError::PrivilegeInstallationFailed => "launcher.privileges.installation-failed",
            LauncherError::LandlockInstallationFailed => "launcher.landlock.installation-failed",
            LauncherError::SeccompInstallationFailed => "launcher.seccomp.installation-failed",
            LauncherError::WorkingDirectoryFailed => "launcher.working-directory.failed",
            LauncherError::ExecPermissionDenied => "launcher.exec.permission-denied",
            LauncherError::ExecOperationNotPermitted => "launcher.exec.operation-not-permitted",
            LauncherError::ExecNotFound => "launcher.exec.not-found",
            LauncherError::ExecFormatInvalid => "launcher.exec.format-invalid",
            LauncherError::ExecFailed => "launcher.exec.failed",
            LauncherError::BoundaryNotInstalled => "launcher.sequence.boundary-not-installed",
            LauncherError::AcknowledgementMissing => "launcher.sequence.acknowledgement-missing",
            LauncherError::UnexpectedMessage => "launcher.sequence.unexpected-message",
        }
    }
}

/// Distinct launcher errors have distinct codes.
pub proof fn lemma_launcher_codes_distinct(a: LauncherError, b: LauncherError)
    requires
        a != b,
    ensures
        launcher_error_code(a) != launcher_error_code(b),
{
    reveal_strlit("launcher.os.unsupported");
    reveal_strlit("launcher.channel.creation-failed");
    reveal_strlit("launcher.channel.read-failed");
    reveal_strlit("launcher.channel.timeout");
    reveal_strlit("launcher.channel.write-failed");
    reveal_strlit("launcher.pause.failed");
    reveal_strlit("launcher.protocol.eof");
    reveal_strlit("launcher.protocol.truncated");
    reveal_strlit("launcher.protocol.frame-too-large");
    reveal_strlit("launcher.protocol.malformed");
    reveal_strlit("launcher.protocol.non-canonical");
    reveal_strlit("launcher.protocol.duplicate-key");
    reveal_strlit("launcher.protocol.trailing-data");
    reveal_strlit("launcher.protocol.unsupported-version");
    reveal_strlit("launcher.identity.policy-mismatch");
    reveal_strlit("launcher.identity.cgroup-mismatch");
    reveal_strlit("launcher.identity.execution-mismatch");
    reveal_strlit("launcher.identity.seccomp-program-mismatch");
    reveal_strlit("launcher.file-descriptor.invalid");
    reveal_strlit("launcher.identity.executable-mismatch");
    reveal_strlit("launcher.privileges.installation-failed");
    reveal_strlit("launcher.landlock.installation-failed");
    reveal_strlit("launcher.seccomp.installation-failed");
    reveal_strlit("launcher.working-directory.failed");
    reveal_strlit("launcher.exec.permission-denied");
    reveal_strlit("launcher.exec.operation-not-permitted");
    reveal_strlit("launcher.exec.not-found");
    reveal_strlit("launcher.exec.format-invalid");
    reveal_strlit("launcher.exec.failed");
    reveal_strlit("launcher.sequence.boundary-not-installed");
    reveal_strlit("launcher.sequence.acknowledgement-missing");
    reveal_strlit("launcher.sequence.unexpected-message");
    let ca = launcher_error_code(a);
    let cb = launcher_error_code(b);
    if ca.len() == cb.len() {
        assert(ca[18] != cb[18] || ca[9] != cb[9]);
    }
}


/// Identifies the launcher stage that reported a failure.
#[derive(Clone, Copy, Debug, PartialEq, Eq, Structural)]
pub enum LauncherStage {
    /// The launcher could not decode the install request.
    Decode,
    /// A message or artifact identity did not match.
    Identity,
    /// A declared descriptor was absent or invalid.
    FileDescriptors,
    /// The launcher could not remove ambient privilege.
    Privileges,
    /// The launcher could not install or verify `no_new_privs`.
    NoNewPrivileges,
    /// The launcher could not install the Landlock ruleset.
    Landlock,
    /// The launcher could not install the seccomp filter.
    Seccomp,
    /// The launcher could not emit its boundary acknowledgement.
    Acknowledgement,
    /// The final working-directory or exec handoff failed.
    Exec,
}

/// The wire name of each launcher stage.
pub open spec fn stage_name(stage: LauncherStage) -> Seq<char> {
    match stage {
        LauncherStage::Decode => "decode"@,
        LauncherStage::Identity => "identity"@,
        LauncherStage::FileDescriptors => "file-descriptors"@,
        LauncherStage::Privileges => "privileges"@,
        LauncherStage::NoNewPrivileges => "no-new-privileges"@,
        LauncherStage::Landlock => "landlock"@,
        LauncherStage::Seccomp => "seccomp"@,
        LauncherStage::Acknowledgement => "acknowledgement"@,
        LauncherStage::Exec => "exec"@,
    }
}

/// The stage whose wire name is `name`, if any.
pub open spec fn stage_named(name: Seq<char>) -> Option<LauncherStage> {
    if name == "decode"@ {
        Some(LauncherStage::Decode)
    } else if name == "identity"@ {
        Some(LauncherStage::Identity)
    } else if name == "file-descriptors"@ {
        Some(LauncherStage::FileDescriptors)
    } else if name == "privileges"@ {
        Some(LauncherStage::Privileges)
    } else if name == "no-new-privileges"@ {
        Some(LauncherStage::NoNewPrivileges)
    } else if name == "landlock"@ {
        Some(LauncherStage::Landlock)
    } else if name == "seccomp"@ {
        Some(LauncherStage::Seccomp)
    } else if name == "acknowledgement"@ {
        Some(LauncherStage::Acknowledgement)
    } else if name == "exec"@ {
        Some(LauncherStage::Exec)
    } else {
        None
    }
}

impl LauncherStage {
    /// Returns the wire name of the stage.
    pub fn as_str(self) -> (r: &'static str)
        ensures
            r@ == stage_name(self),
    {
        match self {
            LauncherStage::Decode => "decode",
            LauncherStage::Identity => "identity",
            LauncherStage::FileDescriptors => "file-descriptors",
            LauncherStage::Privileges => "privileges",
            LauncherStage::NoNewPrivileges => "no-new-privileges",
            LauncherStage::Landlock => "landlock",
            LauncherStage::Seccomp => "seccomp",
            LauncherStage::Acknowledgement => "acknowledgement",
            LauncherStage::Exec => "exec",
        }
    }

    /// Reads a stage from its wire name; any other name is `Malformed`.
    pub fn parse(value: &str) -> (r: Result<Self, LauncherError>)
        ensures
            r is Ok <==> stage_named(value@) is Some,
            r matches Ok(s) ==> Some(s) == stage_named(value@),
            r matches Err(e) ==> e == LauncherError::Malformed,
    {
        let b = value.as_bytes();
        let r = if str_is(b, "decode") {
            Ok(LauncherStage::Decode)
        } else if str_is(b, "identity") {
            Ok(LauncherStage::Identity)
        } else if str_is(b, "file-descriptors") {
            Ok(LauncherStage::FileDescriptors)
        } else if str_is(b, "privileges") {
            Ok(LauncherStage::Privileges)
        } else if str_is(b, "no-new-privileges") {
            Ok(LauncherStage::NoNewPrivileges)
        } else if str_is(b, "landlock") {
            Ok(LauncherStage::Landlock)
        } else if str_is(b, "seccomp") {
            Ok(LauncherStage::Seccomp)
        } else if str_is(b, "acknowledgement") {
            Ok(LauncherStage::Acknowledgement)
        } else if str_is(b, "exec") {
            Ok(LauncherStage::Exec)
        } else {
            Err(LauncherError::Malformed)
        };
        proof {
            lemma_str_bytes_eq(value, "decode");
            lemma_str_bytes_eq(value, "identity");
            lemma_str_bytes_eq(value, "file-descriptors");
            lemma_str_bytes_eq(value, "privileges");
            lemma_str_bytes_eq(value, "no-new-privileges");
            lemma_str_bytes_eq(value, "landlock");
            lemma_str_bytes_eq(value, "seccomp");
            lemma_str_bytes_eq(value, "acknowledgement");
            lemma_str_bytes_eq(value, "exec");
        }
        r
    }
}

/// Reading back the wire name of a stage gives the stage.
pub proof fn lemma_stage_name_round_trip(stage: LauncherStage)
    ensures
        stage_named(stage_name(stage)) == Some(stage),
{
    reveal_strlit("decode");
    reveal_strlit("identity");
    reveal_strlit("file-descriptors");
    reveal_strlit("privileges");
    reveal_strlit("no-new-privileges");
    reveal_strlit("landlock");
    reveal_strlit("seccomp");
    reveal_strlit("acknowledgement");
    reveal_strlit("exec");
    let n = stage_name(stage);
    assert(n.len() == 6 ==> n[0] == 'd' || n[0] == 'e');
    assert(n.len() == 8 ==> n[0] == 'i' || n[0] == 'l');
}

/// A stage is read only from its own wire name.
pub proof fn lemma_stage_named_inverse(name: Seq<char>)
    ensures
        stage_named(name) matches Some(s) ==> stage_name(s) == name,
{
}

/// The byte slice holds exactly the bytes of `s`.
fn str_is(bytes: &[u8], s: &str) -> (r: bool)
    ensures
        r == (bytes@ == s.spec_bytes()),
{
    crate::text::bytes_equal(bytes, s.as_bytes())
}

/// Two strings are equal exactly when their bytes are.
pub proof fn lemma_str_bytes_eq(a: &str, b: &str)
    ensures
        (a.spec_bytes() == b.spec_bytes()) == (a@ == b@),
{
    vstd::utf8::encode_utf8_decode_utf8(a@);
    vstd::utf8::encode_utf8_decode_utf8(b@);
}

/// The model of the three identities that bind every launcher message to one run.
pub struct IdentityModel {
    pub execution: Seq<u8>,
    pub policy: Seq<u8>,
    pub mount: u64,
    pub inode: u64,
}

/// Contains the three identities that bind every launcher message to one run.
#[derive(Clone, Copy, Debug, PartialEq, Eq)]
pub struct LauncherIdentity {
    execution_id: ExecutionId,
    policy_id: Sha256Digest,
    cgroup_id: CgroupIdentity,
}

impl LauncherIdentity {
    /// The model of this identity tuple.
    pub closed spec fn model(self) -> IdentityModel {
        IdentityModel {
            execution: self.execution_id.bytes(),
            policy: self.policy_id.bytes(),
            mount: self.cgroup_id.mount_of(),
            inode: self.cgroup_id.inode_of(),
        }
    }

    pub closed spec fn execution_of(self) -> ExecutionId {
        self.execution_id
    }

    pub closed spec fn policy_of(self) -> Sha256Digest {
        self.policy_id
    }

    pub closed spec fn cgroup_of(self) -> CgroupIdentity {
        self.cgroup_id
    }

    /// Creates one launcher protocol identity tuple.
    pub fn new(execution_id: ExecutionId, policy_id: Sha256Digest, cgroup_id: CgroupIdentity) -> (r: Self)
        ensures
            r.execution_of() == execution_id,
            r.policy_of() == policy_id,
            r.cgroup_of() == cgroup_id,
            r.model() == (IdentityModel {
                execution: execution_id.bytes(),
                policy: policy_id.bytes(),
                mount: cgroup_id.mount_of(),
                inode: cgroup_id.inode_of(),
            }),
    {
        LauncherIdentity { execution_id, policy_id, cgroup_id }
    }

    /// Returns the execution identifier.
    pub fn execution_id(self) -> (r: ExecutionId)
        ensures
            r == self.execution_of(),
            r.bytes() == self.model().execution,
    {
        self.execution_id
    }

    /// Returns the compiled-policy digest.
    pub fn policy_id(self) -> (r: Sha256Digest)
        ensures
            r == self.policy_of(),
            r.bytes() == self.model().policy,
    {
        self.policy_id
    }

    /// Returns the cgroup mount-and-inode identity.
    pub fn cgroup_id(self) -> (r: CgroupIdentity)
        ensures
            r == self.cgroup_of(),
            r.mount_of() == self.model().mount,
            r.inode_of() == self.model().inode,
    {
        self.cgroup_id
    }

    /// Checks this identity against the expected one: execution first, then
    /// policy, then cgroup, each mismatch with its own error.
    pub fn verify(self, expected: Self) -> (r: Result<(), LauncherError>)
        ensures
            r == identity_check(self.model(), expected.model()),
    {
        if !self.execution_id.same(&expected.execution_id) {
            return Err(LauncherError::ExecutionIdentityMismatch);
        }
        if !self.policy_id.same(&expected.policy_id) {
            return Err(LauncherError::PolicyIdentityMismatch);
        }
        if self.cgroup_id.mount_id() != expected.cgroup_id.mount_id() || self.cgroup_id.inode()
            != expected.cgroup_id.inode() {
            return Err(LauncherError::CgroupIdentityMismatch);
        }
        Ok(())
    }
}

/// The outcome of checking identity `actual` against `expected`.
pub open spec fn identity_check(actual: IdentityModel, expected: IdentityModel) -> Result<(), LauncherError> {
    if actual.execution != expected.execution {
        Err(LauncherError::ExecutionIdentityMismatch)
    } else if actual.policy != expected.policy {
        Err(LauncherError::PolicyIdentityMismatch)
    } else if actual.mount != expected.mount || actual.inode != expected.inode {
        Err(LauncherError::CgroupIdentityMismatch)
    } else {
        Ok(())
    }
}

/// The canonical order of the access classes of one rule.
pub open spec fn access_rank(access: LandlockAccess) -> int {
    match access {
        LandlockAccess::Read => 0,
        LandlockAccess::Write => 1,
        LandlockAccess::Execute => 2,
    }
}

/// The access classes of `access`, once each, in canonical order.
pub open spec fn canonical_access(access: Seq<LandlockAccess>) -> Seq<LandlockAccess> {
    (if access.contains(LandlockAccess::Read) {
        seq![LandlockAccess::Read]
    } else {
        Seq::empty()
    }) + (if access.contains(LandlockAccess::Write) {
        seq![LandlockAccess::Write]
    } else {
        Seq::empty()
    }) + (if access.contains(LandlockAccess::Execute) {
        seq![LandlockAccess::Execute]
    } else {
        Seq::empty()
    })
}

/// No access class occurs twice.
pub open spec fn no_repeated_access(access: Seq<LandlockAccess>) -> bool {
    forall|a: int, b: int| 0 <= a < b < access.len() ==> access[a] != access[b]
}

/// A well-formed access list: nonempty, canonical order, no repetition.
pub open spec fn access_list_ok(access: Seq<LandlockAccess>) -> bool {
    access.len() > 0 && access == canonical_access(access)
}

/// Contains one descriptor-based filesystem rule sent to the launcher.
#[derive(Debug, PartialEq, Eq)]
pub struct LauncherFilesystemRule {
    descriptor: u32,
    access: Vec<LandlockAccess>,
}

impl LauncherFilesystemRule {
    /// The model of this rule: its descriptor and its access classes.
    pub closed spec fn model(&self) -> (u32, Seq<LandlockAccess>) {
        (self.descriptor, self.access@)
    }

    /// The rule's invariant: a representable descriptor and a canonical nonempty access list.
    #[verifier::type_invariant]
    pub closed spec fn well_formed(&self) -> bool {
        self.descriptor <= i32::MAX && access_list_ok(self.access@)
    }

    /// Creates one nonempty rule, ordering the access classes canonically and
    /// rejecting a descriptor beyond `i32::MAX`, an empty list or a repeated class.
    pub fn new(descriptor: u32, access: Vec<LandlockAccess>) -> (r: Result<Self, LauncherError>)
        ensures
            r is Ok <==> (descriptor <= i32::MAX && access@.len() > 0 && no_repeated_access(access@)),
            r matches Ok(rule) ==> rule.model() == (descriptor, canonical_access(access@)),
            r matches Err(e) ==> e == LauncherError::Malformed,
    {
        if descriptor > 0x7fff_ffff || access.len() == 0 {
            return Err(LauncherError::Malformed);
        }
        let mut read: usize = 0;
        let mut write: usize = 0;
        let mut execute: usize = 0;
        let mut i: usize = 0;
        while i < access.len()
            invariant
                i <= access@.len(),
                read == count_access(access@.take(i as int), LandlockAccess::Read),
                write == count_access(access@.take(i as int), LandlockAccess::Write),
                execute == count_access(access@.take(i as int), LandlockAccess::Execute),
                read + write + execute == i,
            decreases access@.len() - i,
        {
            proof {
                assert(access@.take(i + 1).subrange(0, i as int) =~= access@.take(i as int));
            }
            match access[i] {
                LandlockAccess::Read => read = read + 1,
                LandlockAccess::Write => write = write + 1,
                LandlockAccess::Execute => execute = execute + 1,
            }
            i = i + 1;
        }
        proof {
            assert(access@.take(access@.len() as int) =~= access@);
            lemma_count_access(access@, LandlockAccess::Read);
            lemma_count_access(access@, LandlockAccess::Write);
            lemma_count_access(access@, LandlockAccess::Execute);
        }
        if read > 1 || write > 1 || execute > 1 {
            return Err(LauncherError::Malformed);
        }
        let mut canonical: Vec<LandlockAccess> = Vec::new();
        if read == 1 {
            canonical.push(LandlockAccess::Read);
        }
        if write == 1 {
            canonical.push(LandlockAccess::Write);
        }
        if execute == 1 {
            canonical.push(LandlockAccess::Execute);
        }
        proof {
            assert(canonical@ =~= canonical_access(access@));
            lemma_canonical_access_idempotent(access@);
        }
        Ok(LauncherFilesystemRule { descriptor, access: canonical })
    }

    /// Returns the inherited descriptor number.
    pub fn descriptor(&self) -> (r: u32)
        ensures
            r == self.model().0,
    {
        self.descriptor
    }

    /// Returns the canonical nonempty access set.
    pub fn access(&self) -> (r: &[LandlockAccess])
        ensures
            r@ == self.model().1,
    {
        self.access.as_slice()
    }
}

/// The number of occurrences of `a` in `s`.
pub open spec fn count_access(s: Seq<LandlockAccess>, a: LandlockAccess) -> nat
    decreases s.len(),
{
    if s.len() == 0 {
        0
    } else {
        count_access(s.subrange(0, s.len() - 1), a) + (if s[s.len() - 1] == a {
            1nat
        } else {
            0nat
        })
    }
}

proof fn lemma_count_access(s: Seq<LandlockAccess>, a: LandlockAccess)
    ensures
        (count_access(s, a) > 0) == s.contains(a),
        (count_access(s, a) <= 1) == (forall|x: int, y: int| 0 <= x < y < s.len() && s[x] == a ==> s[y] != a),
    decreases s.len(),
{
    if s.len() > 0 {
        let t = s.subrange(0, s.len() - 1);
        lemma_count_access(t, a);
        if t.contains(a) {
            let k = choose|k: int| 0 <= k < t.len() && t[k] == a;
            assert(s[k] == a);
        }
        if s.contains(a) && s[s.len() - 1] != a {
            let k = choose|k: int| 0 <= k < s.len() && s[k] == a;
            assert(t[k] == a);
        }
        if count_access(s, a) > 1 {
            if s[s.len() - 1] == a {
                let k = choose|k: int| 0 <= k < t.len() && t[k] == a;
                assert(s[k] == a && k < s.len() - 1);
            } else {
                let (x, y) = choose|x: int, y: int| 0 <= x < y < t.len() && t[x] == a && t[y] == a;
                assert(s[x] == a && s[y] == a);
            }
        } else {
            assert forall|x: int, y: int| 0 <= x < y < s.len() && s[x] == a implies s[y] != a by {
                if y < s.len() - 1 {
                    assert(t[x] == s[x] && t[y] == s[y]);
                } else if s[y] == a {
                    assert(t[x] == a);
                }
            }
        }
    }
}

proof fn lemma_canonical_access_idempotent(s: Seq<LandlockAccess>)
    ensures
        canonical_access(canonical_access(s)) == canonical_access(s),
{
    let c = canonical_access(s);
    assert(c.contains(LandlockAccess::Read) == s.contains(LandlockAccess::Read)) by {
        if s.contains(LandlockAccess::Read) {
            assert(c[0] == LandlockAccess::Read);
        }
    }
    assert(c.contains(LandlockAccess::Write) == s.contains(LandlockAccess::Write)) by {
        if s.contains(LandlockAccess::Write) {
            let k: int = if s.contains(LandlockAccess::Read) { 1 } else { 0 };
            assert(c[k] == LandlockAccess::Write);
        }
    }
    assert(c.contains(LandlockAccess::Execute) == s.contains(LandlockAccess::Execute)) by {
        if s.contains(LandlockAccess::Execute) {
            assert(c[c.len() - 1] == LandlockAccess::Execute);
        }
    }
}

/// The model of a measured artifact: role, digest bytes, size and mode bits.
pub struct ArtifactModel {
    pub role: ArtifactRole,
    pub digest: Seq<u8>,
    pub size: u64,
    pub mode: u16,
}

/// The model of an artifact identity.
pub open spec fn artifact_model(a: ArtifactIdentity) -> ArtifactModel {
    ArtifactModel { role: a.role_of(), digest: a.digest_of().bytes(), size: a.size_of(), mode: a.mode_of().bits() }
}

/// The model of an install request; strings are held as their UTF-8 bytes.
pub struct InstallModel {
    pub identity: IdentityModel,
    pub executable: ArtifactModel,
    pub executable_fd: u32,
    pub working_directory_fd: u32,
    pub arguments: Seq<Seq<u8>>,
    pub environment: Seq<(Seq<u8>, Seq<u8>)>,
    pub filesystem: Seq<(u32, Seq<LandlockAccess>)>,
    pub seccomp_program: Seq<u8>,
    pub close_from: u32,
}

/// The models of a list of rules.
pub open spec fn rule_models(rules: Seq<LauncherFilesystemRule>) -> Seq<(u32, Seq<LandlockAccess>)> {
    rules.map_values(|r: LauncherFilesystemRule| r.model())
}

/// The UTF-8 bytes of each string of a list.
pub open spec fn string_models(strings: Seq<String>) -> Seq<Seq<u8>> {
    strings.map_values(|x: String| string_bytes(x))
}

/// The UTF-8 bytes of each name and value of an environment.
pub open spec fn env_models(env: Seq<(String, String)>) -> Seq<(Seq<u8>, Seq<u8>)> {
    env.map_values(|p: (String, String)| (string_bytes(p.0), string_bytes(p.1)))
}

/// The executable and working-directory descriptors are representable, not standard
/// streams, and below the first descriptor the launcher closes.
pub open spec fn descriptor_bounds_ok(executable_fd: u32, working_directory_fd: u32, close_from: u32) -> bool {
    &&& 3 <= executable_fd <= i32::MAX
    &&& 3 <= working_directory_fd <= i32::MAX
    &&& 3 <= close_from <= i32::MAX
    &&& executable_fd < close_from
    &&& working_directory_fd < close_from
}

/// At least one argument, at most the collection limit, none holding a NUL byte.
pub open spec fn arguments_ok(arguments: Seq<Seq<u8>>) -> bool {
    &&& 0 < arguments.len() <= MAX_COLLECTION_ITEMS
    &&& forall|k: int| 0 <= k < arguments.len() ==> !(#[trigger] arguments[k]).contains(0u8)
}

/// An environment name: nonempty, at most 255 bytes, without NUL or `=`.
pub open spec fn env_name_ok(name: Seq<u8>) -> bool {
    0 < name.len() <= 255 && !name.contains(0u8) && !name.contains(0x3du8)
}

/// Every entry has a valid name and a value without NUL; at most the collection limit.
pub open spec fn env_entries_ok(env: Seq<(Seq<u8>, Seq<u8>)>) -> bool {
    &&& env.len() <= MAX_COLLECTION_ITEMS
    &&& forall|k: int| 0 <= k < env.len() ==> env_name_ok((#[trigger] env[k]).0) && !env[k].1.contains(0u8)
}

/// No name occurs twice.
pub open spec fn distinct_env_names(env: Seq<(Seq<u8>, Seq<u8>)>) -> bool {
    forall|a: int, b: int| 0 <= a < b < env.len() ==> (#[trigger] env[a]).0 != (#[trigger] env[b]).0
}

/// Names strictly increase in byte order.
pub open spec fn env_names_sorted(env: Seq<(Seq<u8>, Seq<u8>)>) -> bool {
    names_sorted_by(false, env)
}

/// `a` sorts strictly before `b` as CBOR map keys: shorter first, then byte order.
pub open spec fn key_less(a: Seq<u8>, b: Seq<u8>) -> bool {
    a.len() < b.len() || (a.len() == b.len() && lex_less(a, b))
}

/// `a` sorts strictly before `b` as a name: by CBOR key order when `canonical`,
/// by byte order otherwise.
pub open spec fn name_precedes(canonical: bool, a: Seq<u8>, b: Seq<u8>) -> bool {
    if canonical {
        key_less(a, b)
    } else {
        lex_less(a, b)
    }
}

/// Names strictly increase in the chosen order.
pub open spec fn names_sorted_by(canonical: bool, env: Seq<(Seq<u8>, Seq<u8>)>) -> bool {
    forall|a: int, b: int|
        0 <= a < b < env.len() ==> name_precedes(canonical, (#[trigger] env[a]).0, (#[trigger] env[b]).0)
}

/// Both name orders are strict total orders.
pub proof fn lemma_name_order(canonical: bool, a: Seq<u8>, b: Seq<u8>, c: Seq<u8>)
    ensures
        !name_precedes(canonical, a, a),
        name_precedes(canonical, a, b) && name_precedes(canonical, b, c) ==> name_precedes(canonical, a, c),
        a != b ==> name_precedes(canonical, a, b) || name_precedes(canonical, b, a),
        name_precedes(canonical, a, b) ==> !name_precedes(canonical, b, a),
{
    lemma_lex_order(a, b, c);
    lemma_lex_order(b, a, c);
    lemma_lex_order(b, c, a);
    lemma_lex_order(a, c, b);
}

fn names_precede(canonical: bool, a: &[u8], b: &[u8]) -> (r: bool)
    ensures
        r == name_precedes(canonical, a@, b@),
{
    if canonical {
        a.len() < b.len() || (a.len() == b.len() && crate::text::bytes_lex_less(a, b))
    } else {
        crate::text::bytes_lex_less(a, b)
    }
}

/// The executable rule of a request: read and execute on the executable descriptor, nothing more.
pub open spec fn executable_rule(executable_fd: u32) -> (u32, Seq<LandlockAccess>) {
    (executable_fd, seq![LandlockAccess::Read, LandlockAccess::Execute])
}

/// One to the collection limit of rules, each on a retained descriptor, one of them
/// exactly the executable rule.
pub open spec fn rules_ok(rules: Seq<(u32, Seq<LandlockAccess>)>, executable_fd: u32, close_from: u32) -> bool {
    &&& 0 < rules.len() <= MAX_COLLECTION_ITEMS
    &&& forall|k: int| 0 <= k < rules.len() ==> 3 <= (#[trigger] rules[k]).0 < close_from
    &&& rules.contains(executable_rule(executable_fd))
}

/// No descriptor has two rules.
pub open spec fn distinct_descriptors(rules: Seq<(u32, Seq<LandlockAccess>)>) -> bool {
    forall|a: int, b: int| 0 <= a < b < rules.len() ==> (#[trigger] rules[a]).0 != (#[trigger] rules[b]).0
}

/// Descriptors strictly increase.
pub open spec fn descriptors_sorted(rules: Seq<(u32, Seq<LandlockAccess>)>) -> bool {
    forall|a: int, b: int| 0 <= a < b < rules.len() ==> (#[trigger] rules[a]).0 < (#[trigger] rules[b]).0
}

/// The two lists hold the same elements, each once as often: same length, same members.
pub open spec fn same_members<T>(a: Seq<T>, b: Seq<T>) -> bool {
    a.len() == b.len() && forall|x: T| a.contains(x) <==> b.contains(x)
}

/// A closed version 1 install request.
pub open spec fn install_model_ok(m: InstallModel) -> bool {
    &&& m.executable.role == ArtifactRole::RuntimeExecutable
    &&& descriptor_bounds_ok(m.executable_fd, m.working_directory_fd, m.close_from)
    &&& arguments_ok(m.arguments)
    &&& env_entries_ok(m.environment)
    &&& env_names_sorted(m.environment)
    &&& rules_ok(m.filesystem, m.executable_fd, m.close_from)
    &&& descriptors_sorted(m.filesystem)
    &&& forall|k: int| 0 <= k < m.filesystem.len() ==> access_list_ok((#[trigger] m.filesystem[k]).1)
    &&& m.seccomp_program.len() > 0
}

/// Contains a validated supervisor-to-launcher install request.
#[derive(Debug, PartialEq, Eq)]
pub struct InstallRequest {
    identity: LauncherIdentity,
    executable_id: ArtifactIdentity,
    executable_fd: u32,
    working_directory_fd: u32,
    arguments: Vec<String>,
    environment: Vec<(String, String)>,
    filesystem: Vec<LauncherFilesystemRule>,
    seccomp_program: Vec<u8>,
    close_file_descriptors_from: u32,
}

impl InstallRequest {
    /// The model of this request.
    pub closed spec fn model(&self) -> InstallModel {
        InstallModel {
            identity: self.identity.model(),
            executable: artifact_model(self.executable_id),
            executable_fd: self.executable_fd,
            working_directory_fd: self.working_directory_fd,
            arguments: string_models(self.arguments@),
            environment: env_models(self.environment@),
            filesystem: rule_models(self.filesystem@),
            seccomp_program: self.seccomp_program@,
            close_from: self.close_file_descriptors_from,
        }
    }

    pub closed spec fn identity_of(&self) -> LauncherIdentity {
        self.identity
    }

    pub closed spec fn executable_of(&self) -> ArtifactIdentity {
        self.executable_id
    }

    #[verifier::type_invariant]
    closed spec fn closed_request(&self) -> bool {
        install_model_ok(self.model())
    }

    /// Creates one closed version 1 install request. The filesystem rules are held in
    /// descriptor order and the environment in byte order of its names; a repeated
    /// descriptor or name, and every other departure from the closed request, is `Malformed`.
    pub fn new(
        identity: LauncherIdentity,
        executable_id: ArtifactIdentity,
        executable_fd: u32,
        working_directory_fd: u32,
        arguments: Vec<String>,
        environment: Vec<(String, String)>,
        filesystem: Vec<LauncherFilesystemRule>,
        seccomp_program: Vec<u8>,
        close_file_descriptors_from: u32,
    ) -> (r: Result<Self, LauncherError>)
        ensures
            r is Ok <==> {
                &&& executable_id.role_of() == ArtifactRole::RuntimeExecutable
                &&& descriptor_bounds_ok(executable_fd, working_directory_fd, close_file_descriptors_from)
                &&& arguments_ok(string_models(arguments@))
                &&& env_entries_ok(env_models(environment@))
                &&& distinct_env_names(env_models(environment@))
                &&& rules_ok(rule_models(filesystem@), executable_fd, close_file_descriptors_from)
                &&& distinct_descriptors(rule_models(filesystem@))
                &&& seccomp_program@.len() > 0
            },
            r matches Ok(req) ==> {
                &&& req.identity_of() == identity
                &&& req.executable_of() == executable_id
                &&& req.model().identity == identity.model()
                &&& req.model().executable == artifact_model(executable_id)
                &&& req.model().executable_fd == executable_fd
                &&& req.model().working_directory_fd == working_directory_fd
                &&& req.model().arguments == string_models(arguments@)
                &&& same_members(req.model().environment, env_models(environment@))
                &&& same_members(req.model().filesystem, rule_models(filesystem@))
                &&& descriptors_sorted(req.model().filesystem)
                &&& env_names_sorted(req.model().environment)
                &&& req.model().seccomp_program == seccomp_program@
                &&& req.model().close_from == close_file_descriptors_from
            },
            r matches Err(e) ==> e == LauncherError::Malformed,
    {
        if executable_id.role() != ArtifactRole::RuntimeExecutable || executable_fd < 3 || working_directory_fd
            < 3 || executable_fd > 0x7fff_ffff || working_directory_fd > 0x7fff_ffff
            || close_file_descriptors_from > 0x7fff_ffff || close_file_descriptors_from < 3
            || executable_fd >= close_file_descriptors_from || working_directory_fd
            >= close_file_descriptors_from || arguments.len() == 0 || arguments.len() > MAX_COLLECTION_ITEMS
            || environment.len() > MAX_COLLECTION_ITEMS || filesystem.len() == 0 || filesystem.len()
            > MAX_COLLECTION_ITEMS || seccomp_program.len() == 0 {
            return Err(LauncherError::Malformed);
        }
        let ghost rules_in = rule_models(filesystem@);
        let ghost env_in = env_models(environment@);
        let sorted_fs = sort_rules(filesystem)?;
        let mut k: usize = 0;
        let mut has_executable_rule = false;
        while k < sorted_fs.len()
            invariant
                k <= sorted_fs@.len(),
                rules_in == rule_models(filesystem@),
                same_members(rule_models(sorted_fs@), rules_in),
                forall|j: int| 0 <= j < k ==> 3 <= (#[trigger] rule_models(sorted_fs@)[j]).0 < close_file_descriptors_from,
                has_executable_rule == exists|j: int|
                    0 <= j < k && #[trigger] rule_models(sorted_fs@)[j] == executable_rule(executable_fd),
                forall|j: int| 0 <= j < k ==> access_list_ok((#[trigger] rule_models(sorted_fs@)[j]).1),
            decreases sorted_fs@.len() - k,
        {
            let rule = &sorted_fs[k];
            proof {
                use_type_invariant(rule);
            }
            let d = rule.descriptor();
            if d < 3 || d >= close_file_descriptors_from {
                proof {
                    let m = rule_models(sorted_fs@);
                    assert(m.contains(m[k as int]));
                    assert(rules_in.contains(m[k as int]));
                    let j = choose|j: int| 0 <= j < rules_in.len() && #[trigger] rules_in[j] == m[k as int];
                    assert(!(3 <= rules_in[j].0 < close_file_descriptors_from));
                }
                return Err(LauncherError::Malformed);
            }
            let a = rule.access();
            let is_exec = d == executable_fd && a.len() == 2 && a[0] == LandlockAccess::Read && a[1]
                == LandlockAccess::Execute;
            proof {
                let m = rule_models(sorted_fs@);
                assert(m[k as int] == rule.model());
                if is_exec {
                    assert(m[k as int].1 =~= seq![LandlockAccess::Read, LandlockAccess::Execute]);
                }
                if m[k as int] == executable_rule(executable_fd) {
                    assert(a@ == m[k as int].1);
                    assert(a@[0] == LandlockAccess::Read && a@[1] == LandlockAccess::Execute);
                }
            }
            has_executable_rule = has_executable_rule || is_exec;
            k = k + 1;
        }
        proof {
            let m = rule_models(sorted_fs@);
            assert forall|j: int| 0 <= j < rules_in.len() implies 3 <= (#[trigger] rules_in[j]).0 < close_file_descriptors_from by {
                assert(rules_in.contains(rules_in[j]));
                assert(m.contains(rules_in[j]));
                let i2 = choose|i2: int| 0 <= i2 < m.len() && #[trigger] m[i2] == rules_in[j];
            }
            if has_executable_rule {
                let j = choose|j: int| 0 <= j < m.len() && #[trigger] m[j] == executable_rule(executable_fd);
                assert(m.contains(executable_rule(executable_fd)));
            } else {
                if m.contains(executable_rule(executable_fd)) {
                    let j = choose|j: int| 0 <= j < m.len() && #[trigger] m[j] == executable_rule(executable_fd);
                }
            }
        }
        if !has_executable_rule {
            return Err(LauncherError::Malformed);
        }
        let mut k: usize = 0;
        while k < arguments.len()
            invariant
                k <= arguments@.len(),
                forall|j: int| 0 <= j < k ==> !(#[trigger] string_models(arguments@)[j]).contains(0u8),
            decreases arguments@.len() - k,
        {
            if crate::text::contains_byte(arguments[k].as_str().as_bytes(), 0) {
                proof {
                    assert(string_models(arguments@)[k as int].contains(0u8));
                }
                return Err(LauncherError::Malformed);
            }
            k = k + 1;
        }
        let sorted_env = sort_environment(environment, false)?;
        let mut k: usize = 0;
        while k < sorted_env.len()
            invariant
                k <= sorted_env@.len(),
                env_in == env_models(environment@),
                same_members(env_models(sorted_env@), env_in),
                forall|j: int|
                    0 <= j < k ==> env_name_ok((#[trigger] env_models(sorted_env@)[j]).0) && !env_models(
                        sorted_env@,
                    )[j].1.contains(0u8),
            decreases sorted_env@.len() - k,
        {
            let name = sorted_env[k].0.as_str().as_bytes();
            let value = sorted_env[k].1.as_str().as_bytes();
            if name.len() == 0 || name.len() > 255 || crate::text::contains_byte(name, 0)
                || crate::text::contains_byte(name, 0x3d) || crate::text::contains_byte(value, 0) {
                proof {
                    let m = env_models(sorted_env@);
                    assert(m[k as int] == (string_bytes(sorted_env@[k as int].0), string_bytes(sorted_env@[k as int].1)));
                    assert(m.contains(m[k as int]));
                    assert(env_in.contains(m[k as int]));
                    let j = choose|j: int| 0 <= j < env_in.len() && #[trigger] env_in[j] == m[k as int];
                    assert(!(env_name_ok(env_in[j].0) && !env_in[j].1.contains(0u8)));
                }
                return Err(LauncherError::Malformed);
            }
            k = k + 1;
        }
        proof {
            let m = env_models(sorted_env@);
            assert forall|j: int| 0 <= j < env_in.len() implies env_name_ok((#[trigger] env_in[j]).0) && !env_in[j].1.contains(0u8) by {
                assert(env_in.contains(env_in[j]));
                assert(m.contains(env_in[j]));
                let i2 = choose|i2: int| 0 <= i2 < m.len() && #[trigger] m[i2] == env_in[j];
            }
        }
        Ok(
            InstallRequest {
                identity,
                executable_id,
                executable_fd,
                working_directory_fd,
                arguments,
                environment: sorted_env,
                filesystem: sorted_fs,
                seccomp_program,
                close_file_descriptors_from,
            },
        )
    }

    /// Returns the message identity tuple.
    pub fn identity(&self) -> (r: LauncherIdentity)
        ensures
            r == self.identity_of(),
            r.model() == self.model().identity,
    {
        self.identity
    }

    /// Returns the expected executable identity.
    pub fn executable_id(&self) -> (r: &ArtifactIdentity)
        ensures
            *r == self.executable_of(),
            artifact_model(*r) == self.model().executable,
    {
        &self.executable_id
    }

    /// Returns the inherited executable descriptor number.
    pub fn executable_fd(&self) -> (r: u32)
        ensures
            r == self.model().executable_fd,
    {
        self.executable_fd
    }

    /// Returns the inherited working-directory descriptor number.
    pub fn working_directory_fd(&self) -> (r: u32)
        ensures
            r == self.model().working_directory_fd,
    {
        self.working_directory_fd
    }

    /// Returns the exact child argument list.
    pub fn arguments(&self) -> (r: &[String])
        ensures
            string_models(r@) == self.model().arguments,
    {
        self.arguments.as_slice()
    }

    /// Returns the complete child environment in byte order of the names.
    pub fn environment(&self) -> (r: &[(String, String)])
        ensures
            env_models(r@) == self.model().environment,
            env_names_sorted(env_models(r@)),
    {
        proof {
            use_type_invariant(self);
        }
        self.environment.as_slice()
    }

    /// Returns the descriptor-based filesystem rules in descriptor order.
    pub fn filesystem(&self) -> (r: &[LauncherFilesystemRule])
        ensures
            rule_models(r@) == self.model().filesystem,
            descriptors_sorted(rule_models(r@)),
    {
        proof {
            use_type_invariant(self);
        }
        self.filesystem.as_slice()
    }

    /// Returns the exact registered seccomp program bytes.
    pub fn seccomp_program(&self) -> (r: &[u8])
        ensures
            r@ == self.model().seccomp_program,
    {
        self.seccomp_program.as_slice()
    }

    /// Returns the first descriptor number that must be closed.
    pub fn close_file_descriptors_from(&self) -> (r: u32)
        ensures
            r == self.model().close_from,
    {
        self.close_file_descriptors_from
    }

    /// The descriptors the request declares, which the launcher marks close-on-exec:
    /// the executable, the working directory, then each rule's descriptor in order.
    pub fn declared_descriptors(&self) -> (r: Vec<u32>)
        ensures
            r@ == seq![self.model().executable_fd, self.model().working_directory_fd] + Seq::new(
                self.model().filesystem.len(),
                |i: int| self.model().filesystem[i].0,
            ),
    {
        let mut descriptors: Vec<u32> = Vec::new();
        descriptors.push(self.executable_fd);
        descriptors.push(self.working_directory_fd);
        let rules = self.filesystem();
        let mut k: usize = 0;
        while k < rules.len()
            invariant
                k <= rules@.len(),
                rule_models(rules@) == self.model().filesystem,
                descriptors@ == seq![self.model().executable_fd, self.model().working_directory_fd] + Seq::new(
                    k as nat,
                    |i: int| self.model().filesystem[i].0,
                ),
            decreases rules@.len() - k,
        {
            let d = rules[k].descriptor();
            proof {
                assert(rule_models(rules@)[k as int] == rules@[k as int].model());
            }
            descriptors.push(d);
            proof {
                assert(descriptors@ =~= seq![self.model().executable_fd, self.model().working_directory_fd] + Seq::new(
                    (k + 1) as nat,
                    |i: int| self.model().filesystem[i].0,
                ));
            }
            k = k + 1;
        }
        descriptors
    }
}

/// The `name=value` entry of one environment variable.
pub fn environment_entry(name: &str, value: &str) -> (r: Vec<u8>)
    ensures
        r@ == name.spec_bytes() + seq![0x3du8] + value.spec_bytes(),
{
    let mut entry: Vec<u8> = Vec::new();
    let n = name.as_bytes();
    let v = value.as_bytes();
    let mut k: usize = 0;
    while k < n.len()
        invariant
            k <= n@.len(),
            entry@ == n@.take(k as int),
        decreases n@.len() - k,
    {
        entry.push(n[k]);
        proof {
            assert(n@.take(k + 1) =~= n@.take(k as int).push(n@[k as int]));
        }
        k = k + 1;
    }
    entry.push(0x3d);
    let ghost head = entry@;
    let mut k: usize = 0;
    while k < v.len()
        invariant
            k <= v@.len(),
            entry@ == head + v@.take(k as int),
        decreases v@.len() - k,
    {
        entry.push(v[k]);
        proof {
            assert(v@.take(k + 1) =~= v@.take(k as int).push(v@[k as int]));
        }
        k = k + 1;
    }
    proof {
        assert(n@.take(n@.len() as int) =~= n@);
        assert(v@.take(v@.len() as int) =~= v@);
        assert(entry@ =~= name.spec_bytes() + seq![0x3du8] + value.spec_bytes());
    }
    entry
}

/// The Linux error number of a permission failure.
pub const ERRNO_EPERM: i32 = 1;

/// The Linux error number of a missing file.
pub const ERRNO_ENOENT: i32 = 2;

/// The Linux error number of an unrecognised executable format.
pub const ERRNO_ENOEXEC: i32 = 8;

/// The Linux error number of a denied access.
pub const ERRNO_EACCES: i32 = 13;

/// The launcher error for a failed exec with operating-system error number `errno`.
pub fn exec_error(errno: Option<i32>) -> (r: LauncherError)
    ensures
        r == match errno {
            Some(ERRNO_EACCES) => LauncherError::ExecPermissionDenied,
            Some(ERRNO_EPERM) => LauncherError::ExecOperationNotPermitted,
            Some(ERRNO_ENOENT) => LauncherError::ExecNotFound,
            Some(ERRNO_ENOEXEC) => LauncherError::ExecFormatInvalid,
            _ => LauncherError::ExecFailed,
        },
{
    match errno {
        Some(ERRNO_EACCES) => LauncherError::ExecPermissionDenied,
        Some(ERRNO_EPERM) => LauncherError::ExecOperationNotPermitted,
        Some(ERRNO_ENOENT) => LauncherError::ExecNotFound,
        Some(ERRNO_ENOEXEC) => LauncherError::ExecFormatInvalid,
        _ => LauncherError::ExecFailed,
    }
}

/// Orders rules by descriptor; `Malformed` when two rules share a descriptor.
fn sort_rules(rules: Vec<LauncherFilesystemRule>) -> (r: Result<Vec<LauncherFilesystemRule>, LauncherError>)
    ensures
        r is Ok <==> distinct_descriptors(rule_models(rules@)),
        r matches Ok(s) ==> descriptors_sorted(rule_models(s@)) && same_members(rule_models(s@), rule_models(rules@)),
        r matches Err(e) ==> e == LauncherError::Malformed,
{
    let ghost m = rule_models(rules@);
    let mut pending = rules;
    let mut sorted: Vec<LauncherFilesystemRule> = Vec::new();
    while pending.len() > 0
        invariant
            m == rule_models(rules@),
            pending@.len() <= m.len(),
            rule_models(pending@) == m.take(pending@.len() as int),
            descriptors_sorted(rule_models(sorted@)),
            same_members(rule_models(sorted@), m.skip(pending@.len() as int)),
            distinct_descriptors(m.skip(pending@.len() as int)),
        decreases pending@.len(),
    {
        let ghost n = pending@.len() as int;
        let ghost before = pending@;
        let rule = pending.pop().unwrap();
        proof {
            assert(rule == before[n - 1]);
            assert(rule_models(before)[n - 1] == before[n - 1].model());
            assert(m.take(n)[n - 1] == m[n - 1]);
            assert(rule_models(pending@) =~= m.take(n - 1));
            assert(rule.model() == m[n - 1]);
        }
        let d = rule.descriptor();
        let mut p: usize = 0;
        while p < sorted.len() && sorted[p].descriptor() < d
            invariant
                p <= sorted@.len(),
                forall|j: int| 0 <= j < p ==> (#[trigger] rule_models(sorted@)[j]).0 < d,
            decreases sorted@.len() - p,
        {
            p = p + 1;
        }
        let ghost sm = rule_models(sorted@);
        if p < sorted.len() && sorted[p].descriptor() == d {
            proof {
                assert(m.skip(n).contains(sm[p as int]));
                let j = choose|j: int| 0 <= j < m.skip(n).len() && m.skip(n)[j] == sm[p as int];
                assert(m[n + j] == m.skip(n)[j]);
                assert(m[n - 1].0 == m[n + j].0);
            }
            return Err(LauncherError::Malformed);
        }
        sorted.insert(p, rule);
        proof {
            let nm = rule_models(sorted@);
            assert(nm =~= sm.insert(p as int, m[n - 1]));
            assert(m.skip(n - 1) =~= seq![m[n - 1]] + m.skip(n));
            assert forall|x: (u32, Seq<LandlockAccess>)| nm.contains(x) <==> m.skip(n - 1).contains(x) by {
                if nm.contains(x) {
                    let j = choose|j: int| 0 <= j < nm.len() && #[trigger] nm[j] == x;
                    if j < p {
                        assert(sm[j] == x);
                        assert(m.skip(n).contains(x));
                        let i2 = choose|i2: int| 0 <= i2 < m.skip(n).len() && #[trigger] m.skip(n)[i2] == x;
                        assert(m.skip(n - 1)[i2 + 1] == x);
                    } else if j > p {
                        assert(sm[j - 1] == x);
                        assert(m.skip(n).contains(x));
                        let i2 = choose|i2: int| 0 <= i2 < m.skip(n).len() && #[trigger] m.skip(n)[i2] == x;
                        assert(m.skip(n - 1)[i2 + 1] == x);
                    } else {
                        assert(m.skip(n - 1)[0] == x);
                    }
                }
                if m.skip(n - 1).contains(x) {
                    let i2 = choose|i2: int| 0 <= i2 < m.skip(n - 1).len() && #[trigger] m.skip(n - 1)[i2] == x;
                    if i2 == 0 {
                        assert(nm[p as int] == x);
                    } else {
                        assert(m.skip(n)[i2 - 1] == x);
                        assert(sm.contains(x));
                        let j = choose|j: int| 0 <= j < sm.len() && #[trigger] sm[j] == x;
                        if j < p {
                            assert(nm[j] == x);
                        } else {
                            assert(nm[j + 1] == x);
                        }
                    }
                }
            }
            assert forall|a: int, b: int| 0 <= a < b < nm.len() implies (#[trigger] nm[a]).0 < (#[trigger] nm[b]).0 by {
                if b < p {
                    assert(nm[a] == sm[a] && nm[b] == sm[b]);
                } else if b == p {
                    assert(nm[a] == sm[a]);
                } else if a < p {
                    assert(nm[a] == sm[a] && nm[b] == sm[b - 1]);
                    assert(sm[p as int].0 > d);
                } else if a == p {
                    assert(nm[b] == sm[b - 1]);
                    assert(sm[p as int].0 > d);
                } else {
                    assert(nm[a] == sm[a - 1] && nm[b] == sm[b - 1]);
                }
            }
            assert forall|a: int, b: int| 0 <= a < b < m.skip(n - 1).len() implies (#[trigger] m.skip(n - 1)[a]).0
                != (#[trigger] m.skip(n - 1)[b]).0 by {
                if a > 0 {
                    assert(m.skip(n - 1)[a] == m.skip(n)[a - 1]);
                    assert(m.skip(n - 1)[b] == m.skip(n)[b - 1]);
                } else {
                    assert(m.skip(n).contains(m.skip(n - 1)[b]));
                    assert(m.skip(n - 1)[b] == m.skip(n)[b - 1]);
                    assert(sm.contains(m.skip(n)[b - 1]));
                    let j = choose|j: int| 0 <= j < sm.len() && sm[j] == m.skip(n)[b - 1];
                    if j < p {
                        assert(sm[j].0 < d);
                    } else {
                        if j > p {
                            assert(sm[p as int].0 < sm[j].0);
                        }
                    }
                }
            }
        }
    }
    proof {
        assert(m.skip(0) =~= m);
    }
    Ok(sorted)
}

/// Orders environment entries by name, in CBOR key order when `canonical` and in byte
/// order otherwise; `Malformed` when a name repeats.
fn sort_environment(env: Vec<(String, String)>, canonical: bool) -> (r: Result<Vec<(String, String)>, LauncherError>)
    ensures
        r is Ok <==> distinct_env_names(env_models(env@)),
        r matches Ok(s) ==> names_sorted_by(canonical, env_models(s@)) && same_members(env_models(s@), env_models(env@)),
        r matches Err(e) ==> e == LauncherError::Malformed,
{
    let ghost m = env_models(env@);
    let mut pending = env;
    let mut sorted: Vec<(String, String)> = Vec::new();
    while pending.len() > 0
        invariant
            m == env_models(env@),
            pending@.len() <= m.len(),
            env_models(pending@) == m.take(pending@.len() as int),
            names_sorted_by(canonical, env_models(sorted@)),
            same_members(env_models(sorted@), m.skip(pending@.len() as int)),
            distinct_env_names(m.skip(pending@.len() as int)),
        decreases pending@.len(),
    {
        let ghost n = pending@.len() as int;
        let ghost before = pending@;
        let entry = pending.pop().unwrap();
        let ghost e = (string_bytes(entry.0), string_bytes(entry.1));
        proof {
            assert(entry == before[n - 1]);
            assert(env_models(before)[n - 1] == (string_bytes(before[n - 1].0), string_bytes(before[n - 1].1)));
            assert(m.take(n)[n - 1] == m[n - 1]);
            assert(env_models(pending@) =~= m.take(n - 1));
            assert(e == m[n - 1]);
        }
        let mut p: usize = 0;
        while p < sorted.len() && names_precede(canonical, sorted[p].0.as_str().as_bytes(), entry.0.as_str().as_bytes())
            invariant
                p <= sorted@.len(),
                e == (string_bytes(entry.0), string_bytes(entry.1)),
                forall|j: int| 0 <= j < p ==> name_precedes(canonical, (#[trigger] env_models(sorted@)[j]).0, e.0),
            decreases sorted@.len() - p,
        {
            p = p + 1;
        }
        let ghost sm = env_models(sorted@);
        if p < sorted.len() && crate::text::bytes_equal(sorted[p].0.as_str().as_bytes(), entry.0.as_str().as_bytes()) {
            proof {
                assert(m.skip(n).contains(sm[p as int]));
                let j = choose|j: int| 0 <= j < m.skip(n).len() && m.skip(n)[j] == sm[p as int];
                assert(m[n + j] == m.skip(n)[j]);
                assert(m[n - 1].0 == m[n + j].0);
            }
            return Err(LauncherError::Malformed);
        }
        proof {
            if p < sm.len() {
                lemma_name_order(canonical, sm[p as int].0, e.0, e.0);
            }
        }
        sorted.insert(p, entry);
        proof {
            let nm = env_models(sorted@);
            assert(nm =~= sm.insert(p as int, m[n - 1]));
            assert(m.skip(n - 1) =~= seq![m[n - 1]] + m.skip(n));
            assert forall|x: (Seq<u8>, Seq<u8>)| nm.contains(x) <==> m.skip(n - 1).contains(x) by {
                if nm.contains(x) {
                    let j = choose|j: int| 0 <= j < nm.len() && #[trigger] nm[j] == x;
                    if j < p {
                        assert(sm[j] == x);
                        assert(m.skip(n).contains(x));
                        let i2 = choose|i2: int| 0 <= i2 < m.skip(n).len() && #[trigger] m.skip(n)[i2] == x;
                        assert(m.skip(n - 1)[i2 + 1] == x);
                    } else if j > p {
                        assert(sm[j - 1] == x);
                        assert(m.skip(n).contains(x));
                        let i2 = choose|i2: int| 0 <= i2 < m.skip(n).len() && #[trigger] m.skip(n)[i2] == x;
                        assert(m.skip(n - 1)[i2 + 1] == x);
                    } else {
                        assert(m.skip(n - 1)[0] == x);
                    }
                }
                if m.skip(n - 1).contains(x) {
                    let i2 = choose|i2: int| 0 <= i2 < m.skip(n - 1).len() && #[trigger] m.skip(n - 1)[i2] == x;
                    if i2 == 0 {
                        assert(nm[p as int] == x);
                    } else {
                        assert(m.skip(n)[i2 - 1] == x);
                        assert(sm.contains(x));
                        let j = choose|j: int| 0 <= j < sm.len() && #[trigger] sm[j] == x;
                        if j < p {
                            assert(nm[j] == x);
                        } else {
                            assert(nm[j + 1] == x);
                        }
                    }
                }
            }
            assert forall|a: int, b: int| 0 <= a < b < nm.len() implies name_precedes(canonical, (#[trigger] nm[a]).0, (#[trigger] nm[b]).0) by {
                if b < p {
                    assert(nm[a] == sm[a] && nm[b] == sm[b]);
                } else if b == p {
                    assert(nm[a] == sm[a]);
                } else if a < p {
                    assert(nm[a] == sm[a] && nm[b] == sm[b - 1]);
                    lemma_name_order(canonical, sm[a].0, e.0, sm[p as int].0);
                    if b - 1 > p {
                        lemma_name_order(canonical, sm[a].0, sm[p as int].0, sm[b - 1].0);
                    }
                } else if a == p {
                    assert(nm[b] == sm[b - 1]);
                    if b - 1 > p {
                        lemma_name_order(canonical, e.0, sm[p as int].0, sm[b - 1].0);
                    }
                } else {
                    assert(nm[a] == sm[a - 1] && nm[b] == sm[b - 1]);
                }
            }
            assert forall|a: int, b: int| 0 <= a < b < m.skip(n - 1).len() implies (#[trigger] m.skip(n - 1)[a]).0
                != (#[trigger] m.skip(n - 1)[b]).0 by {
                if a > 0 {
                    assert(m.skip(n - 1)[a] == m.skip(n)[a - 1]);
                    assert(m.skip(n - 1)[b] == m.skip(n)[b - 1]);
                } else {
                    assert(m.skip(n - 1)[b] == m.skip(n)[b - 1]);
                    assert(sm.contains(m.skip(n)[b - 1]));
                    let j = choose|j: int| 0 <= j < sm.len() && sm[j] == m.skip(n)[b - 1];
                    lemma_name_order(canonical, sm[j].0, e.0, e.0);
                    if j > p {
                        lemma_name_order(canonical, e.0, sm[p as int].0, sm[j].0);
                    }
                }
            }
        }
    }
    proof {
        assert(m.skip(0) =~= m);
    }
    Ok(sorted)
}

/// The largest accepted failure code, in bytes.
pub const MAX_FAILURE_CODE_BYTES: usize = 128;

/// A failure code: 1 to 128 bytes without NUL.
pub open spec fn failure_code_ok(code: Seq<u8>) -> bool {
    0 < code.len() <= MAX_FAILURE_CODE_BYTES && !code.contains(0u8)
}

/// Contains a typed launcher failure bound to one execution.
#[derive(Debug, PartialEq, Eq)]
pub struct LauncherFailure {
    identity: LauncherIdentity,
    stage: LauncherStage,
    error_code: String,
}

impl LauncherFailure {
    #[verifier::type_invariant]
    closed spec fn code_ok(&self) -> bool {
        failure_code_ok(string_bytes(self.error_code))
    }

    pub closed spec fn identity_of(&self) -> LauncherIdentity {
        self.identity
    }

    pub closed spec fn stage_of(&self) -> LauncherStage {
        self.stage
    }

    pub closed spec fn code_of(&self) -> Seq<u8> {
        string_bytes(self.error_code)
    }

    /// Creates one failure with a nonempty bounded machine code.
    pub fn new(identity: LauncherIdentity, stage: LauncherStage, error_code: &str) -> (r: Result<Self, LauncherError>)
        ensures
            r is Ok <==> failure_code_ok(error_code.spec_bytes()),
            r matches Ok(f) ==> f.identity_of() == identity && f.stage_of() == stage && f.code_of()
                == error_code.spec_bytes(),
            r matches Err(e) ==> e == LauncherError::Malformed,
    {
        let bytes = error_code.as_bytes();
        if bytes.len() == 0 || bytes.len() > MAX_FAILURE_CODE_BYTES || crate::text::contains_byte(bytes, 0) {
            return Err(LauncherError::Malformed);
        }
        let error_code = error_code.to_owned();
        Ok(LauncherFailure { identity, stage, error_code })
    }

    /// Returns the message identity tuple.
    pub fn identity(&self) -> (r: LauncherIdentity)
        ensures
            r == self.identity_of(),
    {
        self.identity
    }

    /// Returns the failed launcher stage.
    pub fn stage(&self) -> (r: LauncherStage)
        ensures
            r == self.stage_of(),
    {
        self.stage
    }

    /// Returns the stable underlying error code.
    pub fn error_code(&self) -> (r: &str)
        ensures
            r.spec_bytes() == self.code_of(),
            failure_code_ok(r.spec_bytes()),
    {
        proof {
            use_type_invariant(self);
        }
        self.error_code.as_str()
    }
}

/// Contains a typed boundary acknowledgement bound to one execution.
#[derive(Clone, Copy, Debug, PartialEq, Eq)]
pub struct BoundaryInstalled {
    identity: LauncherIdentity,
}

impl BoundaryInstalled {
    pub closed spec fn identity_of(self) -> LauncherIdentity {
        self.identity
    }

    /// Creates the acknowledgement of one execution's installed boundary.
    pub fn new(identity: LauncherIdentity) -> (r: Self)
        ensures
            r.identity_of() == identity,
    {
        BoundaryInstalled { identity }
    }

    /// Returns the message identity tuple.
    pub fn identity(self) -> (r: LauncherIdentity)
        ensures
            r == self.identity_of(),
    {
        self.identity
    }
}

/// Contains one closed version 1 launcher message.
#[derive(Debug, PartialEq, Eq)]
pub enum LauncherMessage {
    /// Requests installation of one exact compiled policy.
    Install(InstallRequest),
    /// Confirms that every required boundary was installed.
    BoundaryInstalled(BoundaryInstalled),
    /// Reports a typed launcher failure before child execution.
    Failure(LauncherFailure),
}

/// The model of a launcher message.
pub enum MessageModel {
    Install(InstallModel),
    Boundary(IdentityModel),
    Failure(IdentityModel, LauncherStage, Seq<u8>),
}

impl LauncherMessage {
    /// The model of this message.
    pub open spec fn model(&self) -> MessageModel {
        match self {
            LauncherMessage::Install(r) => MessageModel::Install(r.model()),
            LauncherMessage::BoundaryInstalled(b) => MessageModel::Boundary(b.identity_of().model()),
            LauncherMessage::Failure(f) => MessageModel::Failure(f.identity_of().model(), f.stage_of(), f.code_of()),
        }
    }
}

/// Verifies a launcher response against the expected execution identities; an
/// install request is never a response.
pub fn verify_launcher_response(message: &LauncherMessage, expected: LauncherIdentity) -> (r: Result<(), LauncherError>)
    ensures
        r == (match message.model() {
            MessageModel::Boundary(id) => identity_check(id, expected.model()),
            MessageModel::Failure(id, _, _) => identity_check(id, expected.model()),
            MessageModel::Install(_) => Err(LauncherError::UnexpectedMessage),
        }),
{
    match message {
        LauncherMessage::BoundaryInstalled(installed) => installed.identity.verify(expected),
        LauncherMessage::Failure(failure) => failure.identity.verify(expected),
        LauncherMessage::Install(_) => Err(LauncherError::UnexpectedMessage),
    }
}

/// The launcher's position in its one-way acknowledgement sequence.
#[derive(Clone, Copy, Debug, PartialEq, Eq, Structural)]
pub enum SequenceState {
    /// The install request arrived and its identities matched.
    InstallValidated,
    /// Privileges, Landlock and seccomp were all installed.
    BoundariesInstalled,
    /// The boundary acknowledgement was sent.
    Acknowledged,
    /// The exec handoff was authorized.
    ExecAuthorized,
}

/// One step the launcher reports to its sequence.
#[derive(Clone, Copy, Debug, PartialEq, Eq, Structural)]
pub enum SequenceEvent {
    /// Every boundary was installed.
    BoundariesInstalled,
    /// The acknowledgement was emitted.
    AcknowledgementEmitted,
    /// Exec was authorized.
    ExecAuthorized,
}

/// The transition table of the acknowledgement sequence.
pub open spec fn sequence_step(state: SequenceState, event: SequenceEvent) -> Result<SequenceState, LauncherError> {
    match (state, event) {
        (SequenceState::InstallValidated, SequenceEvent::BoundariesInstalled) => Ok(SequenceState::BoundariesInstalled),
        (SequenceState::BoundariesInstalled, SequenceEvent::AcknowledgementEmitted) => Ok(SequenceState::Acknowledged),
        (SequenceState::Acknowledged, SequenceEvent::ExecAuthorized) => Ok(SequenceState::ExecAuthorized),
        (SequenceState::InstallValidated, SequenceEvent::AcknowledgementEmitted) => Err(LauncherError::BoundaryNotInstalled),
        (_, SequenceEvent::ExecAuthorized) => Err(LauncherError::AcknowledgementMissing),
        _ => Err(LauncherError::UnexpectedMessage),
    }
}

/// Advances the sequence by one event; every out-of-order event is refused.
pub fn advance_sequence(state: SequenceState, event: SequenceEvent) -> (r: Result<SequenceState, LauncherError>)
    ensures
        r == sequence_step(state, event),
{
    match (state, event) {
        (SequenceState::InstallValidated, SequenceEvent::BoundariesInstalled) => Ok(SequenceState::BoundariesInstalled),
        (SequenceState::BoundariesInstalled, SequenceEvent::AcknowledgementEmitted) => Ok(SequenceState::Acknowledged),
        (SequenceState::Acknowledged, SequenceEvent::ExecAuthorized) => Ok(SequenceState::ExecAuthorized),
        (SequenceState::InstallValidated, SequenceEvent::AcknowledgementEmitted) => Err(LauncherError::BoundaryNotInstalled),
        (_, SequenceEvent::ExecAuthorized) => Err(LauncherError::AcknowledgementMissing),
        _ => Err(LauncherError::UnexpectedMessage),
    }
}

/// The state after a sequence of events, or the first refusal.
pub open spec fn run_sequence(state: SequenceState, events: Seq<SequenceEvent>) -> Result<SequenceState, LauncherError>
    decreases events.len(),
{
    if events.len() == 0 {
        Ok(state)
    } else {
        match sequence_step(state, events[0]) {
            Ok(next) => run_sequence(next, events.subrange(1, events.len() as int)),
            Err(e) => Err(e),
        }
    }
}

/// Exec is reached from a validated install exactly by installing every boundary,
/// then acknowledging, then authorizing, and by no other sequence of events.
pub proof fn lemma_exec_only_after_acknowledgement(events: Seq<SequenceEvent>)
    ensures
        run_sequence(SequenceState::InstallValidated, events) == Ok::<SequenceState, LauncherError>(
            SequenceState::ExecAuthorized,
        ) <==> events == seq![
            SequenceEvent::BoundariesInstalled,
            SequenceEvent::AcknowledgementEmitted,
            SequenceEvent::ExecAuthorized,
        ],
{
    let target = seq![
        SequenceEvent::BoundariesInstalled,
        SequenceEvent::AcknowledgementEmitted,
        SequenceEvent::ExecAuthorized,
    ];
    reveal_with_fuel(run_sequence, 5);
    if events.len() >= 4 {
        let e1 = events.subrange(1, events.len() as int);
        let e2 = e1.subrange(1, e1.len() as int);
        let e3 = e2.subrange(1, e2.len() as int);
        lemma_terminal_state_refuses(e3.subrange(1, e3.len() as int));
    }
    if events == target {
        assert(events.subrange(1, 3) =~= seq![SequenceEvent::AcknowledgementEmitted, SequenceEvent::ExecAuthorized]);
        assert(events.subrange(1, 3).subrange(1, 2) =~= seq![SequenceEvent::ExecAuthorized]);
    }
    if run_sequence(SequenceState::InstallValidated, events) == Ok::<SequenceState, LauncherError>(
        SequenceState::ExecAuthorized,
    ) {
        if events.len() == 3 {
            let e1 = events.subrange(1, events.len() as int);
            let e2 = e1.subrange(1, e1.len() as int);
            assert(events[0] == SequenceEvent::BoundariesInstalled);
            assert(e1[0] == SequenceEvent::AcknowledgementEmitted);
            assert(e2[0] == SequenceEvent::ExecAuthorized);
            assert(events =~= target);
        }
    }
}

proof fn lemma_terminal_state_refuses(events: Seq<SequenceEvent>)
    ensures
        run_sequence(SequenceState::ExecAuthorized, events) is Ok ==> events.len() == 0,
{
}

/// Contains an identity-checked request before boundary installation.
#[derive(Debug)]
pub struct PreparedLauncher {
    request: InstallRequest,
    sequence: SequenceState,
}

/// Takes the first launcher message: only an install request whose identities
/// match the expected ones starts the sequence.
pub fn accept_install_request(message: LauncherMessage, expected: LauncherIdentity) -> (r: Result<
    PreparedLauncher,
    LauncherError,
>)
    ensures
        r is Ok <==> (message.model() is Install && identity_check(
            message.model()->Install_0.identity,
            expected.model(),
        ) is Ok),
        r matches Ok(p) ==> message.model() == MessageModel::Install(p.request_model()),
        r matches Err(e) ==> e == (match message.model() {
            MessageModel::Install(m) => identity_check(m.identity, expected.model())->Err_0,
            _ => LauncherError::UnexpectedMessage,
        }),
{
    match message {
        LauncherMessage::Install(request) => {
            request.identity.verify(expected)?;
            Ok(PreparedLauncher { request, sequence: SequenceState::InstallValidated })
        },
        _ => Err(LauncherError::UnexpectedMessage),
    }
}

impl PreparedLauncher {
    #[verifier::type_invariant]
    closed spec fn at_start(&self) -> bool {
        self.sequence == SequenceState::InstallValidated
    }

    pub closed spec fn request_model(&self) -> InstallModel {
        self.request.model()
    }

    /// Returns the validated request that the launcher must install.
    pub fn request(&self) -> (r: &InstallRequest)
        ensures
            r.model() == self.request_model(),
    {
        &self.request
    }

    /// Checks the request's seccomp program against the program this launcher compiles
    /// for its architecture; any other program is `SeccompProgramMismatch`.
    pub fn require_registered_program(&self, compiled: &[u8]) -> (r: Result<(), LauncherError>)
        ensures
            r is Ok <==> compiled@ == self.request_model().seccomp_program,
            r matches Err(e) ==> e == LauncherError::SeccompProgramMismatch,
    {
        if crate::text::bytes_equal(self.request().seccomp_program(), compiled) {
            Ok(())
        } else {
            Err(LauncherError::SeccompProgramMismatch)
        }
    }

    /// Records the complete boundary only from all three installation witnesses and the
    /// exact program bytes installed; a program other than the requested one is refused.
    pub fn record_boundary_installed(
        self,
        privileges: &LockedPrivileges,
        landlock: &LandlockBoundary,
        seccomp: &SeccompBoundary,
        installed_program: &[u8],
    ) -> (r: Result<InstalledLauncher, LauncherError>)
        ensures
            r is Ok <==> installed_program@ == self.request_model().seccomp_program,
            r matches Ok(i) ==> i.request_model() == self.request_model(),
            r matches Err(e) ==> e == LauncherError::SeccompProgramMismatch,
    {
        proof {
            use_type_invariant(&self);
        }
        if !crate::text::bytes_equal(self.request.seccomp_program.as_slice(), installed_program) {
            return Err(LauncherError::SeccompProgramMismatch);
        }
        let sequence = advance_sequence(self.sequence, SequenceEvent::BoundariesInstalled)?;
        Ok(InstalledLauncher { identity: self.request.identity, request: self.request, sequence })
    }
}

/// Contains a request after all irreversible launcher boundaries were observed.
#[derive(Debug)]
pub struct InstalledLauncher {
    identity: LauncherIdentity,
    request: InstallRequest,
    sequence: SequenceState,
}

impl InstalledLauncher {
    #[verifier::type_invariant]
    closed spec fn installed(&self) -> bool {
        self.sequence == SequenceState::BoundariesInstalled && self.identity == self.request.identity_of()
    }

    pub closed spec fn request_model(&self) -> InstallModel {
        self.request.model()
    }

    /// The only valid boundary acknowledgement for this launcher.
    pub fn acknowledgement(&self) -> (r: LauncherMessage)
        ensures
            r.model() == MessageModel::Boundary(self.request_model().identity),
    {
        proof {
            use_type_invariant(self);
        }
        LauncherMessage::BoundaryInstalled(BoundaryInstalled { identity: self.identity })
    }

    /// Advances the state once the acknowledgement was sent; a failed send is returned as is.
    pub fn acknowledge(self, sent: Result<(), LauncherError>) -> (r: Result<AcknowledgedLauncher, LauncherError>)
        ensures
            r is Ok <==> sent is Ok,
            r matches Ok(a) ==> a.request_model() == self.request_model(),
            r matches Err(e) ==> sent == Err::<(), LauncherError>(e),
    {
        proof {
            use_type_invariant(&self);
        }
        sent?;
        let sequence = advance_sequence(self.sequence, SequenceEvent::AcknowledgementEmitted)?;
        Ok(AcknowledgedLauncher { request: self.request, sequence })
    }
}

/// Contains a request after its boundary acknowledgement was emitted.
#[derive(Debug)]
pub struct AcknowledgedLauncher {
    request: InstallRequest,
    sequence: SequenceState,
}

impl AcknowledgedLauncher {
    #[verifier::type_invariant]
    closed spec fn acknowledged(&self) -> bool {
        self.sequence == SequenceState::Acknowledged
    }

    pub closed spec fn request_model(&self) -> InstallModel {
        self.request.model()
    }

    /// Consumes the acknowledgement state and authorizes the exec handoff.
    pub fn authorize_exec(self) -> (r: Result<ExecAuthorization, LauncherError>)
        ensures
            r is Ok,
            r matches Ok(a) ==> a.request_model() == self.request_model(),
    {
        proof {
            use_type_invariant(&self);
        }
        let sequence = advance_sequence(self.sequence, SequenceEvent::ExecAuthorized)?;
        Ok(ExecAuthorization { request: self.request, sequence })
    }
}

/// Authorizes one exec handoff after complete boundary installation and acknowledgement.
#[derive(Debug)]
pub struct ExecAuthorization {
    request: InstallRequest,
    sequence: SequenceState,
}

impl ExecAuthorization {
    #[verifier::type_invariant]
    closed spec fn authorized(&self) -> bool {
        self.sequence == SequenceState::ExecAuthorized
    }

    pub closed spec fn request_model(&self) -> InstallModel {
        self.request.model()
    }

    /// Returns the fully validated request for the final descriptor-relative exec.
    pub fn request(&self) -> (r: &InstallRequest)
        ensures
            r.model() == self.request_model(),
    {
        &self.request
    }

    /// Reports that the complete launch sequence authorized exec; every value of this
    /// type was authorized.
    pub fn is_authorized(&self) -> (r: bool)
        ensures
            r,
    {
        proof {
            use_type_invariant(self);
        }
        self.sequence == SequenceState::ExecAuthorized
    }
}

/// The stage to report for a failure to receive the install request.
pub fn stage_for_protocol_error(error: LauncherError) -> (r: LauncherStage)
    ensures
        r == (match error {
            LauncherError::PolicyIdentityMismatch | LauncherError::CgroupIdentityMismatch
            | LauncherError::ExecutionIdentityMismatch | LauncherError::ExecutableIdentityMismatch
            | LauncherError::SeccompProgramMismatch => LauncherStage::Identity,
            _ => LauncherStage::Decode,
        }),
{
    match error {
        LauncherError::PolicyIdentityMismatch | LauncherError::CgroupIdentityMismatch
        | LauncherError::ExecutionIdentityMismatch | LauncherError::ExecutableIdentityMismatch
        | LauncherError::SeccompProgramMismatch => LauncherStage::Identity,
        _ => LauncherStage::Decode,
    }
}

/// The stage to report for a failure to lock privileges.
pub fn privilege_stage(error: PrivilegeError) -> (r: LauncherStage)
    ensures
        r == (match error {
            PrivilegeError::NoNewPrivilegesInstallFailed | PrivilegeError::NoNewPrivilegesVerificationFailed => {
                LauncherStage::NoNewPrivileges
            },
            _ => LauncherStage::Privileges,
        }),
{
    match error {
        PrivilegeError::NoNewPrivilegesInstallFailed | PrivilegeError::NoNewPrivilegesVerificationFailed => {
            LauncherStage::NoNewPrivileges
        },
        _ => LauncherStage::Privileges,
    }
}

/// A nonempty ASCII text of at most 128 characters without NUL is a valid failure code.
proof fn lemma_code_text_ok(s: &str)
    requires
        0 < s@.len() <= MAX_FAILURE_CODE_BYTES,
        forall|i: int| 0 <= i < s@.len() ==> '\u{1}' <= #[trigger] s@[i] <= '\u{7f}',
    ensures
        failure_code_ok(s.spec_bytes()),
{
    assert(vstd::string::is_ascii(s));
    vstd::string::is_ascii_spec_bytes(s);
    let b = s.spec_bytes();
    assert forall|i: int| 0 <= i < b.len() implies b[i] != 0u8 by {
        let c = s@[i];
        assert('\u{1}' <= c <= '\u{7f}');
        assert(b[i] == c as u8);
        assert(1 <= (c as u32) <= 0x7f);
        assert((c as u32) as u8 == c as u8);
    }
}

/// Every launcher error's code is a valid failure code, so a failure report can
/// always be built for it.
pub proof fn lemma_launcher_codes_are_failure_codes(e: LauncherError)
    ensures
        failure_code_ok(e.code_view()),
{
    match e {
        LauncherError::UnsupportedOperatingSystem => {
            reveal_strlit("launcher.os.unsupported");
            lemma_code_text_ok("launcher.os.unsupported");
        },
        LauncherError::ChannelCreationFailed => {
            reveal_strlit("launcher.channel.creation-failed");
            lemma_code_text_ok("launcher.channel.creation-failed");
        },
        LauncherError::ChannelReadFailed => {
            reveal_strlit("launcher.channel.read-failed");
            lemma_code_text_ok("launcher.channel.read-failed");
        },
        LauncherError::ChannelTimeout => {
            reveal_strlit("launcher.channel.timeout");
            lemma_code_text_ok("launcher.channel.timeout");
        },
        LauncherError::ChannelWriteFailed => {
            reveal_strlit("launcher.channel.write-failed");
            lemma_code_text_ok("launcher.channel.write-failed");
        },
        LauncherError::PauseFailed => {
            reveal_strlit("launcher.pause.failed");
            lemma_code_text_ok("launcher.pause.failed");
        },
        LauncherError::Eof => {
            reveal_strlit("launcher.protocol.eof");
            lemma_code_text_ok("launcher.protocol.eof");
        },
        LauncherError::Truncated => {
            reveal_strlit("launcher.protocol.truncated");
            lemma_code_text_ok("launcher.protocol.truncated");
        },
        LauncherError::FrameTooLarge => {
            reveal_strlit("launcher.protocol.frame-too-large");
            lemma_code_text_ok("launcher.protocol.frame-too-large");
        },
        LauncherError::Malformed => {
            reveal_strlit("launcher.protocol.malformed");
            lemma_code_text_ok("launcher.protocol.malformed");
        },
        LauncherError::NonCanonical => {
            reveal_strlit("launcher.protocol.non-canonical");
            lemma_code_text_ok("launcher.protocol.non-canonical");
        },
        LauncherError::DuplicateKey => {
            reveal_strlit("launcher.protocol.duplicate-key");
            lemma_code_text_ok("launcher.protocol.duplicate-key");
        },
        LauncherError::TrailingData => {
            reveal_strlit("launcher.protocol.trailing-data");
            lemma_code_text_ok("launcher.protocol.trailing-data");
        },
        LauncherError::UnsupportedVersion => {
            reveal_strlit("launcher.protocol.unsupported-version");
            lemma_code_text_ok("launcher.protocol.unsupported-version");
        },
        LauncherError::PolicyIdentityMismatch => {
            reveal_strlit("launcher.identity.policy-mismatch");
            lemma_code_text_ok("launcher.identity.policy-mismatch");
        },
        LauncherError::CgroupIdentityMismatch => {
            reveal_strlit("launcher.identity.cgroup-mismatch");
            lemma_code_text_ok("launcher.identity.cgroup-mismatch");
        },
        LauncherError::ExecutionIdentityMismatch => {
            reveal_strlit("launcher.identity.execution-mismatch");
            lemma_code_text_ok("launcher.identity.execution-mismatch");
        },
        LauncherError::SeccompProgramMismatch => {
            reveal_strlit("launcher.identity.seccomp-program-mismatch");
            lemma_code_text_ok("launcher.identity.seccomp-program-mismatch");
        },
        LauncherError::FileDescriptorInvalid => {
            reveal_strlit("launcher.file-descriptor.invalid");
            lemma_code_text_ok("launcher.file-descriptor.invalid");
        },
        LauncherError::ExecutableIdentityMismatch => {
            reveal_strlit("launcher.identity.executable-mismatch");
            lemma_code_text_ok("launcher.identity.executable-mismatch");
        },
        LauncherError::PrivilegeInstallationFailed => {
            reveal_strlit("launcher.privileges.installation-failed");
            lemma_code_text_ok("launcher.privileges.installation-failed");
        },
        LauncherError::LandlockInstallationFailed => {
            reveal_strlit("launcher.landlock.installation-failed");
            lemma_code_text_ok("launcher.landlock.installation-failed");
        },
        LauncherError::SeccompInstallationFailed => {
            reveal_strlit("launcher.seccomp.installation-failed");
            lemma_code_text_ok("launcher.seccomp.installation-failed");
        },
        LauncherError::WorkingDirectoryFailed => {
            reveal_strlit("launcher.working-directory.failed");
            lemma_code_text_ok("launcher.working-directory.failed");
        },
        LauncherError::ExecPermissionDenied => {
            reveal_strlit("launcher.exec.permission-denied");
            lemma_code_text_ok("launcher.exec.permission-denied");
        },
        LauncherError::ExecOperationNotPermitted => {
            reveal_strlit("launcher.exec.operation-not-permitted");
            lemma_code_text_ok("launcher.exec.operation-not-permitted");
        },
        LauncherError::ExecNotFound => {
            reveal_strlit("launcher.exec.not-found");
            lemma_code_text_ok("launcher.exec.not-found");
        },
        LauncherError::ExecFormatInvalid => {
            reveal_strlit("launcher.exec.format-invalid");
            lemma_code_text_ok("launcher.exec.format-invalid");
        },
        LauncherError::ExecFailed => {
            reveal_strlit("launcher.exec.failed");
            lemma_code_text_ok("launcher.exec.failed");
        },
        LauncherError::BoundaryNotInstalled => {
            reveal_strlit("launcher.sequence.boundary-not-installed");
            lemma_code_text_ok("launcher.sequence.boundary-not-installed");
        },
        LauncherError::AcknowledgementMissing => {
            reveal_strlit("launcher.sequence.acknowledgement-missing");
            lemma_code_text_ok("launcher.sequence.acknowledgement-missing");
        },
        LauncherError::UnexpectedMessage => {
            reveal_strlit("launcher.sequence.unexpected-message");
            lemma_code_text_ok("launcher.sequence.unexpected-message");
        },
    }
}

/// The failure message that reports `error` at `stage`, when its code is a valid failure code.
pub fn failure_report(identity: LauncherIdentity, stage: LauncherStage, error: LauncherError) -> (r: Option<
    LauncherMessage,
>)
    ensures
        r is Some <==> failure_code_ok(error.code_view()),
        r is Some,
        r matches Some(m) ==> m.model() == MessageModel::Failure(identity.model(), stage, error.code_view()),
{
    proof {
        lemma_launcher_codes_are_failure_codes(error);
    }
    match LauncherFailure::new(identity, stage, error.code()) {
        Ok(failure) => Some(LauncherMessage::Failure(failure)),
        Err(_) => None,
    }
}

impl LauncherError {
    /// The UTF-8 bytes of this error's code.
    pub open spec fn code_view(self) -> Seq<u8> {
        vstd::utf8::encode_utf8(launcher_error_code(self))
    }
}

/// Two lists with the same members, both strictly sorted by name in one order, are equal.
pub proof fn lemma_sorted_members_unique(canonical: bool, a: Seq<(Seq<u8>, Seq<u8>)>, b: Seq<(Seq<u8>, Seq<u8>)>)
    requires
        same_members(a, b),
        names_sorted_by(canonical, a),
        names_sorted_by(canonical, b),
    ensures
        a == b,
    decreases a.len(),
{
    if a.len() == 0 {
        assert(a =~= b);
    } else {
        assert(a.contains(a[0]));
        assert(b.contains(a[0]));
        let k = choose|k: int| 0 <= k < b.len() && #[trigger] b[k] == a[0];
        assert(b.contains(b[0]));
        assert(a.contains(b[0]));
        let m = choose|m: int| 0 <= m < a.len() && #[trigger] a[m] == b[0];
        lemma_name_order(canonical, a[0].0, b[0].0, a[0].0);
        if k > 0 {
            assert(name_precedes(canonical, b[0].0, b[k].0));
            if m > 0 {
                assert(name_precedes(canonical, a[0].0, a[m].0));
            }
        }
        assert(a[0] == b[0]);
        let ta = a.subrange(1, a.len() as int);
        let tb = b.subrange(1, b.len() as int);
        assert forall|x: (Seq<u8>, Seq<u8>)| ta.contains(x) <==> tb.contains(x) by {
            if ta.contains(x) {
                let i2 = choose|i2: int| 0 <= i2 < ta.len() && #[trigger] ta[i2] == x;
                assert(a[i2 + 1] == x);
                assert(a.contains(x));
                assert(b.contains(x));
                let j2 = choose|j2: int| 0 <= j2 < b.len() && #[trigger] b[j2] == x;
                lemma_name_order(canonical, a[0].0, a[0].0, a[0].0);
                assert(name_precedes(canonical, a[0].0, a[i2 + 1].0));
                if j2 == 0 {
                    assert(x == a[0]);
                }
                assert(tb[j2 - 1] == x);
            }
            if tb.contains(x) {
                let j2 = choose|j2: int| 0 <= j2 < tb.len() && #[trigger] tb[j2] == x;
                assert(b[j2 + 1] == x);
                assert(b.contains(x));
                assert(a.contains(x));
                let i2 = choose|i2: int| 0 <= i2 < a.len() && #[trigger] a[i2] == x;
                lemma_name_order(canonical, b[0].0, b[0].0, b[0].0);
                assert(name_precedes(canonical, b[0].0, b[j2 + 1].0));
                if i2 == 0 {
                    assert(x == b[0]);
                }
                assert(ta[i2 - 1] == x);
            }
        }
        assert forall|x: int, y: int| 0 <= x < y < ta.len() implies name_precedes(canonical, (#[trigger] ta[x]).0, (#[trigger] ta[y]).0) by {
            assert(ta[x] == a[x + 1] && ta[y] == a[y + 1]);
        }
        assert forall|x: int, y: int| 0 <= x < y < tb.len() implies name_precedes(canonical, (#[trigger] tb[x]).0, (#[trigger] tb[y]).0) by {
            assert(tb[x] == b[x + 1] && tb[y] == b[y + 1]);
        }
        lemma_sorted_members_unique(canonical, ta, tb);
        assert(a =~= seq![a[0]] + ta);
        assert(b =~= seq![b[0]] + tb);
    }
}

/// An environment in CBOR key order of its names.
pub open spec fn canonical_env(env: Seq<(Seq<u8>, Seq<u8>)>) -> Seq<(Seq<u8>, Seq<u8>)> {
    choose|s: Seq<(Seq<u8>, Seq<u8>)>| same_members(s, env) && names_sorted_by(true, s)
}

/// The map entries of an environment: each name with its value as text.
pub open spec fn env_items(env: Seq<(Seq<u8>, Seq<u8>)>) -> Seq<(Seq<u8>, Item)> {
    Seq::new(env.len(), |i: int| (env[i].0, Item::Text(env[i].1)))
}

/// The wire name of each access class.
pub open spec fn access_name(access: LandlockAccess) -> Seq<u8> {
    match access {
        LandlockAccess::Read => "read".spec_bytes(),
        LandlockAccess::Write => "write".spec_bytes(),
        LandlockAccess::Execute => "execute".spec_bytes(),
    }
}

/// The item of a digest: its algorithm and bytes.
pub open spec fn digest_item(digest: Seq<u8>) -> Item {
    Item::TextMap(seq![
        ("digest".spec_bytes(), Item::Bytes(digest)),
        ("algorithm".spec_bytes(), Item::Text("sha256".spec_bytes())),
    ])
}

/// The item of a cgroup identity.
pub open spec fn cgroup_item(mount: u64, inode: u64) -> Item {
    Item::TextMap(seq![("inode".spec_bytes(), Item::Unsigned(inode)), ("mount_id".spec_bytes(), Item::Unsigned(mount))])
}

/// The item of an artifact identity.
pub open spec fn artifact_item(a: ArtifactModel) -> Item {
    Item::TextMap(seq![
        ("mode".spec_bytes(), Item::Unsigned(a.mode as u64)),
        ("role".spec_bytes(), Item::Text(vstd::utf8::encode_utf8(artifact_role_name(a.role)))),
        ("size".spec_bytes(), Item::Unsigned(a.size)),
        ("digest".spec_bytes(), digest_item(a.digest)),
    ])
}

/// The item of one filesystem rule.
pub open spec fn rule_item(rule: (u32, Seq<LandlockAccess>)) -> Item {
    Item::TextMap(seq![
        ("fd".spec_bytes(), Item::Unsigned(rule.0 as u64)),
        ("access".spec_bytes(), Item::Array(Seq::new(rule.1.len(), |j: int| Item::Text(access_name(rule.1[j]))))),
    ])
}

/// The schema of install requests.
pub open spec fn install_schema() -> Seq<u8> {
    "proofbound-runtime-launcher-install/1".spec_bytes()
}

/// The schema of boundary acknowledgements.
pub open spec fn boundary_schema() -> Seq<u8> {
    "proofbound-runtime-launcher-boundary-installed/1".spec_bytes()
}

/// The schema of launcher failures.
pub open spec fn failure_schema() -> Seq<u8> {
    "proofbound-runtime-launcher-failure/1".spec_bytes()
}

/// The map entries of an install request, in canonical key order.
pub open spec fn install_entries(r: InstallModel) -> Seq<(Seq<u8>, Item)> {
    seq![
            ("schema".spec_bytes(), Item::Text(install_schema())),
            ("arguments".spec_bytes(), Item::Array(Seq::new(r.arguments.len(), |i: int| Item::Text(r.arguments[i])))),
            ("cgroup_id".spec_bytes(), cgroup_item(r.identity.mount, r.identity.inode)),
            ("policy_id".spec_bytes(), digest_item(r.identity.policy)),
            ("filesystem".spec_bytes(), Item::Array(Seq::new(r.filesystem.len(), |i: int| rule_item(r.filesystem[i])))),
            ("environment".spec_bytes(), Item::TextMap(env_items(canonical_env(r.environment)))),
            ("execution_id".spec_bytes(), Item::Bytes(r.identity.execution)),
            ("executable_fd".spec_bytes(), Item::Unsigned(r.executable_fd as u64)),
            ("executable_id".spec_bytes(), artifact_item(r.executable)),
            ("seccomp_program".spec_bytes(), Item::Bytes(r.seccomp_program)),
            ("working_directory_fd".spec_bytes(), Item::Unsigned(r.working_directory_fd as u64)),
            ("close_file_descriptors_from".spec_bytes(), Item::Unsigned(r.close_from as u64)),
        ]
}

/// The CBOR item of a message, map entries in canonical key order.
pub open spec fn message_item(m: MessageModel) -> Item {
    match m {
        MessageModel::Install(r) => Item::TextMap(install_entries(r)),
        MessageModel::Boundary(id) => Item::TextMap(seq![
            ("state".spec_bytes(), Item::Text("installed".spec_bytes())),
            ("schema".spec_bytes(), Item::Text(boundary_schema())),
            ("cgroup_id".spec_bytes(), cgroup_item(id.mount, id.inode)),
            ("policy_id".spec_bytes(), digest_item(id.policy)),
            ("execution_id".spec_bytes(), Item::Bytes(id.execution)),
        ]),
        MessageModel::Failure(id, stage, code) => Item::TextMap(seq![
            ("stage".spec_bytes(), Item::Text(vstd::utf8::encode_utf8(stage_name(stage)))),
            ("schema".spec_bytes(), Item::Text(failure_schema())),
            ("cgroup_id".spec_bytes(), cgroup_item(id.mount, id.inode)),
            ("policy_id".spec_bytes(), digest_item(id.policy)),
            ("error_code".spec_bytes(), Item::Text(code)),
            ("execution_id".spec_bytes(), Item::Bytes(id.execution)),
        ]),
    }
}

/// The deterministic encoding of a message.
pub open spec fn message_bytes(m: MessageModel) -> Seq<u8> {
    item_bytes(message_item(m))
}

/// A well-formed identity model: a version 4 execution identifier and a 32-byte policy digest.
pub open spec fn identity_model_ok(id: IdentityModel) -> bool {
    crate::model::is_version4(id.execution) && id.policy.len() == 32
}

/// A closed install request whose texts are UTF-8 and whose environment has a
/// CBOR key order.
pub open spec fn install_message_ok(r: InstallModel) -> bool {
    &&& install_model_ok(r)
    &&& identity_model_ok(r.identity)
    &&& r.executable.digest.len() == 32
    &&& r.executable.mode <= crate::model::MAX_FILE_MODE
    &&& forall|i: int| 0 <= i < r.arguments.len() ==> vstd::utf8::valid_utf8(#[trigger] r.arguments[i])
    &&& forall|i: int|
        0 <= i < r.environment.len() ==> vstd::utf8::valid_utf8((#[trigger] r.environment[i]).0)
            && vstd::utf8::valid_utf8(r.environment[i].1)
    &&& same_members(canonical_env(r.environment), r.environment)
    &&& names_sorted_by(true, canonical_env(r.environment))
}

/// The model of a message a launcher or supervisor can hold.
pub open spec fn message_model_ok(m: MessageModel) -> bool {
    match m {
        MessageModel::Install(r) => install_message_ok(r),
        MessageModel::Boundary(id) => identity_model_ok(id),
        MessageModel::Failure(id, _, code) => identity_model_ok(id) && failure_code_ok(code) && vstd::utf8::valid_utf8(
            code,
        ),
    }
}

proof fn lemma_key_literals()
    ensures
        "schema".spec_bytes().len() == 6,
        "arguments".spec_bytes().len() == 9 && "arguments".spec_bytes()[0] == 0x61,
        "cgroup_id".spec_bytes().len() == 9 && "cgroup_id".spec_bytes()[0] == 0x63,
        "policy_id".spec_bytes().len() == 9 && "policy_id".spec_bytes()[0] == 0x70,
        "filesystem".spec_bytes().len() == 10,
        "environment".spec_bytes().len() == 11,
        "execution_id".spec_bytes().len() == 12,
        "executable_fd".spec_bytes().len() == 13 && "executable_fd".spec_bytes()[11] == 0x66,
        "executable_id".spec_bytes().len() == 13 && "executable_id".spec_bytes()[11] == 0x69,
        "seccomp_program".spec_bytes().len() == 15,
        "working_directory_fd".spec_bytes().len() == 20,
        "close_file_descriptors_from".spec_bytes().len() == 27,
        "state".spec_bytes().len() == 5,
        "stage".spec_bytes().len() == 5 && "stage".spec_bytes()[2] == 0x61,
        "error_code".spec_bytes().len() == 10,
        "digest".spec_bytes().len() == 6,
        "algorithm".spec_bytes().len() == 9,
        "inode".spec_bytes().len() == 5,
        "mount_id".spec_bytes().len() == 8,
        "mode".spec_bytes().len() == 4 && "mode".spec_bytes()[0] == 0x6d,
        "role".spec_bytes().len() == 4 && "role".spec_bytes()[0] == 0x72,
        "size".spec_bytes().len() == 4 && "size".spec_bytes()[0] == 0x73,
        "fd".spec_bytes().len() == 2,
        "access".spec_bytes().len() == 6,
        "read".spec_bytes().len() == 4,
        "write".spec_bytes().len() == 5,
        "execute".spec_bytes().len() == 7,
{
    reveal_strlit("schema");
    reveal_strlit("arguments");
    reveal_strlit("cgroup_id");
    reveal_strlit("policy_id");
    reveal_strlit("filesystem");
    reveal_strlit("environment");
    reveal_strlit("execution_id");
    reveal_strlit("executable_fd");
    reveal_strlit("executable_id");
    reveal_strlit("seccomp_program");
    reveal_strlit("working_directory_fd");
    reveal_strlit("close_file_descriptors_from");
    reveal_strlit("state");
    reveal_strlit("stage");
    reveal_strlit("error_code");
    reveal_strlit("digest");
    reveal_strlit("algorithm");
    reveal_strlit("inode");
    reveal_strlit("mount_id");
    reveal_strlit("mode");
    reveal_strlit("role");
    reveal_strlit("size");
    reveal_strlit("fd");
    reveal_strlit("access");
    reveal_strlit("read");
    reveal_strlit("write");
    reveal_strlit("execute");
    reveal_with_fuel(crate::text::ascii_upto, 28);
    crate::text::lemma_ascii_str_bytes("schema");
    crate::text::lemma_ascii_str_bytes("arguments");
    crate::text::lemma_ascii_str_bytes("cgroup_id");
    crate::text::lemma_ascii_str_bytes("policy_id");
    crate::text::lemma_ascii_str_bytes("filesystem");
    crate::text::lemma_ascii_str_bytes("environment");
    crate::text::lemma_ascii_str_bytes("execution_id");
    crate::text::lemma_ascii_str_bytes("executable_fd");
    crate::text::lemma_ascii_str_bytes("executable_id");
    crate::text::lemma_ascii_str_bytes("seccomp_program");
    crate::text::lemma_ascii_str_bytes("working_directory_fd");
    crate::text::lemma_ascii_str_bytes("close_file_descriptors_from");
    crate::text::lemma_ascii_str_bytes("state");
    crate::text::lemma_ascii_str_bytes("stage");
    crate::text::lemma_ascii_str_bytes("error_code");
    crate::text::lemma_ascii_str_bytes("digest");
    crate::text::lemma_ascii_str_bytes("algorithm");
    crate::text::lemma_ascii_str_bytes("inode");
    crate::text::lemma_ascii_str_bytes("mount_id");
    crate::text::lemma_ascii_str_bytes("mode");
    crate::text::lemma_ascii_str_bytes("role");
    crate::text::lemma_ascii_str_bytes("size");
    crate::text::lemma_ascii_str_bytes("fd");
    crate::text::lemma_ascii_str_bytes("access");
    crate::text::lemma_ascii_str_bytes("read");
    crate::text::lemma_ascii_str_bytes("write");
    crate::text::lemma_ascii_str_bytes("execute");
}

/// The three schema texts differ from one another.
proof fn lemma_schema_literals()
    ensures
        install_schema() != boundary_schema(),
        install_schema() != failure_schema(),
        boundary_schema() != failure_schema(),
{
    reveal_strlit("proofbound-runtime-launcher-install/1");
    reveal_strlit("proofbound-runtime-launcher-boundary-installed/1");
    reveal_strlit("proofbound-runtime-launcher-failure/1");
    lemma_str_bytes_eq("proofbound-runtime-launcher-install/1", "proofbound-runtime-launcher-boundary-installed/1");
    lemma_str_bytes_eq("proofbound-runtime-launcher-install/1", "proofbound-runtime-launcher-failure/1");
    lemma_str_bytes_eq("proofbound-runtime-launcher-boundary-installed/1", "proofbound-runtime-launcher-failure/1");
    assert("proofbound-runtime-launcher-install/1"@[28] != "proofbound-runtime-launcher-failure/1"@[28]);
    assert("proofbound-runtime-launcher-install/1"@.len() != "proofbound-runtime-launcher-boundary-installed/1"@.len());
    assert("proofbound-runtime-launcher-boundary-installed/1"@.len() != "proofbound-runtime-launcher-failure/1"@.len());
}

/// The bytes of every string literal are UTF-8.
proof fn lemma_str_utf8()
    ensures
        forall|s: &str| vstd::utf8::valid_utf8(#[trigger] s.spec_bytes()),
{
    assert forall|s: &str| vstd::utf8::valid_utf8(#[trigger] s.spec_bytes()) by {
        vstd::utf8::encode_utf8_valid_utf8(s@);
    }
}

/// No key of a map occurs twice.
pub open spec fn keys_distinct(es: Seq<(Seq<u8>, Item)>) -> bool {
    forall|i: int, j: int| 0 <= i < j < es.len() ==> (#[trigger] es[i]).0 != (#[trigger] es[j]).0
}

proof fn lemma_digest_item_ok(d: Seq<u8>, depth: int)
    requires
        0 <= depth,
        depth + 2 < MAX_NESTING_DEPTH,
    ensures
        item_ok(digest_item(d), depth),
        keys_distinct(digest_item(d)->TextMap_0),
{
    lemma_key_literals();
    lemma_str_utf8();
    let es = digest_item(d)->TextMap_0;
    assert(item_ok(es[0].1, depth + 1));
    assert(item_ok(es[1].1, depth + 1));
}

proof fn lemma_cgroup_item_ok(mount: u64, inode: u64, depth: int)
    requires
        0 <= depth,
        depth + 2 < MAX_NESTING_DEPTH,
    ensures
        item_ok(cgroup_item(mount, inode), depth),
        keys_distinct(cgroup_item(mount, inode)->TextMap_0),
{
    lemma_key_literals();
    lemma_str_utf8();
    let es = cgroup_item(mount, inode)->TextMap_0;
    assert(item_ok(es[0].1, depth + 1));
    assert(item_ok(es[1].1, depth + 1));
}

#[verifier::spinoff_prover]
proof fn lemma_artifact_item_ok(a: ArtifactModel, depth: int)
    requires
        0 <= depth,
        depth + 3 < MAX_NESTING_DEPTH,
    ensures
        item_ok(artifact_item(a), depth),
        keys_distinct(artifact_item(a)->TextMap_0),
{
    lemma_key_literals();
    lemma_str_utf8();
    assert(vstd::utf8::valid_utf8("mode".spec_bytes()));
    assert(vstd::utf8::valid_utf8("role".spec_bytes()));
    assert(vstd::utf8::valid_utf8("size".spec_bytes()));
    assert(vstd::utf8::valid_utf8("digest".spec_bytes()));
    vstd::utf8::encode_utf8_valid_utf8(artifact_role_name(a.role));
    lemma_digest_item_ok(a.digest, depth + 1);
    let es = artifact_item(a)->TextMap_0;
    assert(item_ok(es[0].1, depth + 1));
    assert(item_ok(es[1].1, depth + 1));
    assert(item_ok(es[2].1, depth + 1));
    assert(es[0].0[0] != es[1].0[0] && es[0].0[0] != es[2].0[0] && es[1].0[0] != es[2].0[0]);
    assert(keys_distinct(es));
}

proof fn lemma_rule_item_ok(rule: (u32, Seq<LandlockAccess>), depth: int)
    requires
        0 <= depth,
        depth + 3 < MAX_NESTING_DEPTH,
        access_list_ok(rule.1),
    ensures
        item_ok(rule_item(rule), depth),
        keys_distinct(rule_item(rule)->TextMap_0),
{
    lemma_key_literals();
    lemma_str_utf8();
    let es = rule_item(rule)->TextMap_0;
    let xs = es[1].1->Array_0;
    assert(rule.1.len() <= 3);
    assert forall|j: int| 0 <= j < xs.len() implies item_ok(#[trigger] xs[j], depth + 2) by {
        assert(vstd::utf8::valid_utf8(access_name(rule.1[j])));
    }
    assert(item_ok(es[0].1, depth + 1));
    assert(item_ok(es[1].1, depth + 1));
}

proof fn lemma_env_item_ok(env: Seq<(Seq<u8>, Seq<u8>)>, depth: int)
    requires
        0 <= depth,
        depth + 2 < MAX_NESTING_DEPTH,
        env.len() <= MAX_COLLECTION_ITEMS,
        names_sorted_by(true, env),
        forall|i: int|
            0 <= i < env.len() ==> vstd::utf8::valid_utf8((#[trigger] env[i]).0) && vstd::utf8::valid_utf8(
                env[i].1,
            ),
    ensures
        item_ok(Item::TextMap(env_items(env)), depth),
        keys_distinct(env_items(env)),
{
    let es = env_items(env);
    assert forall|i: int, j: int| 0 <= i < j < es.len() implies (#[trigger] es[i]).0 != (#[trigger] es[j]).0 by {
        lemma_name_order(true, env[i].0, env[j].0, env[j].0);
    }
    assert forall|i: int| 0 <= i < es.len() implies vstd::utf8::valid_utf8((#[trigger] es[i]).0) && item_ok(
        es[i].1,
        depth + 1,
    ) by {}
}

/// The environment of a well-formed install request in CBOR key order: the same
/// entries, each with UTF-8 name and value.
proof fn lemma_canonical_env_utf8(r: InstallModel)
    requires
        install_message_ok(r),
    ensures
        canonical_env(r.environment).len() == r.environment.len(),
        forall|i: int|
            0 <= i < canonical_env(r.environment).len() ==> vstd::utf8::valid_utf8(
                (#[trigger] canonical_env(r.environment)[i]).0,
            ) && vstd::utf8::valid_utf8(canonical_env(r.environment)[i].1),
{
    let c = canonical_env(r.environment);
    assert forall|i: int| 0 <= i < c.len() implies vstd::utf8::valid_utf8((#[trigger] c[i]).0)
        && vstd::utf8::valid_utf8(c[i].1) by {
        assert(c.contains(c[i]));
        assert(r.environment.contains(c[i]));
        let j = choose|j: int| 0 <= j < r.environment.len() && r.environment[j] == c[i];
        assert(vstd::utf8::valid_utf8(r.environment[j].0));
    }
}

#[verifier::spinoff_prover]
#[verifier::rlimit(40)]
proof fn lemma_install_item_ok(r: InstallModel)
    requires
        install_message_ok(r),
    ensures
        item_ok(message_item(MessageModel::Install(r)), 0),
        keys_distinct(install_entries(r)),
{
    lemma_key_literals();
    lemma_str_utf8();
    let es = install_entries(r);
    lemma_canonical_env_utf8(r);
    lemma_env_item_ok(canonical_env(r.environment), 1);
    lemma_cgroup_item_ok(r.identity.mount, r.identity.inode, 1);
    lemma_digest_item_ok(r.identity.policy, 1);
    lemma_artifact_item_ok(r.executable, 1);
    let args = es[1].1->Array_0;
    assert forall|i: int| 0 <= i < args.len() implies item_ok(#[trigger] args[i], 2) by {}
    let fs = es[4].1->Array_0;
    assert forall|i: int| 0 <= i < fs.len() implies item_ok(#[trigger] fs[i], 2) by {
        lemma_rule_item_ok(r.filesystem[i], 2);
    }
    assert(item_ok(es[0].1, 1));
    assert(item_ok(es[1].1, 1));
    assert(item_ok(es[4].1, 1));
    assert(item_ok(es[6].1, 1));
    assert(item_ok(es[7].1, 1));
    assert(item_ok(es[9].1, 1));
    assert(item_ok(es[10].1, 1));
    assert(item_ok(es[11].1, 1));
    assert(es[1].0[0] != es[2].0[0] && es[1].0[0] != es[3].0[0] && es[2].0[0] != es[3].0[0]);
    assert(es[7].0[11] != es[8].0[11]);
    assert(keys_distinct(es));
    assert forall|i: int| 0 <= i < es.len() implies vstd::utf8::valid_utf8((#[trigger] es[i]).0) && item_ok(
        es[i].1,
        1,
    ) by {}
}

#[verifier::spinoff_prover]
#[verifier::rlimit(40)]
proof fn lemma_boundary_item_ok(id: IdentityModel)
    ensures
        item_ok(message_item(MessageModel::Boundary(id)), 0),
        keys_distinct(message_item(MessageModel::Boundary(id))->TextMap_0),
{
    let es = message_item(MessageModel::Boundary(id))->TextMap_0;
    vstd::utf8::encode_utf8_valid_utf8("installed"@);
    vstd::utf8::encode_utf8_valid_utf8("proofbound-runtime-launcher-boundary-installed/1"@);
    vstd::utf8::encode_utf8_valid_utf8("state"@);
    vstd::utf8::encode_utf8_valid_utf8("schema"@);
    vstd::utf8::encode_utf8_valid_utf8("cgroup_id"@);
    vstd::utf8::encode_utf8_valid_utf8("policy_id"@);
    vstd::utf8::encode_utf8_valid_utf8("execution_id"@);
    lemma_cgroup_item_ok(id.mount, id.inode, 1);
    lemma_digest_item_ok(id.policy, 1);
    assert(item_ok(es[0].1, 1));
    assert(item_ok(es[1].1, 1));
    assert(item_ok(es[4].1, 1));
    assert forall|i: int| 0 <= i < es.len() implies vstd::utf8::valid_utf8((#[trigger] es[i]).0) && item_ok(
        es[i].1,
        1,
    ) by {}
    lemma_boundary_keys(id);
}

proof fn lemma_boundary_keys(id: IdentityModel)
    ensures
        keys_distinct(message_item(MessageModel::Boundary(id))->TextMap_0),
{
    lemma_key_literals();
    let es = message_item(MessageModel::Boundary(id))->TextMap_0;
    let k = Seq::new(5, |i: int| es[i].0);
    assert(k[0].len() == 5 && k[1].len() == 6 && k[2].len() == 9 && k[3].len() == 9 && k[4].len() == 12);
    assert forall|i: int, j: int| 0 <= i < j < es.len() implies (#[trigger] es[i]).0 != (#[trigger] es[j]).0 by {
        assert(es[i].0 == k[i] && es[j].0 == k[j]);
        if i == 2 && j == 3 {
            assert(k[2][0] != k[3][0]);
        }
    }
}

#[verifier::spinoff_prover]
#[verifier::rlimit(40)]
proof fn lemma_failure_item_ok(id: IdentityModel, stage: LauncherStage, code: Seq<u8>)
    requires
        vstd::utf8::valid_utf8(code),
    ensures
        item_ok(message_item(MessageModel::Failure(id, stage, code)), 0),
        keys_distinct(message_item(MessageModel::Failure(id, stage, code))->TextMap_0),
{
    lemma_key_literals();
    lemma_str_utf8();
    vstd::utf8::encode_utf8_valid_utf8(stage_name(stage));
    lemma_cgroup_item_ok(id.mount, id.inode, 1);
    lemma_digest_item_ok(id.policy, 1);
    let es = message_item(MessageModel::Failure(id, stage, code))->TextMap_0;
    assert(item_ok(es[0].1, 1));
    assert(item_ok(es[1].1, 1));
    assert(item_ok(es[4].1, 1));
    assert(item_ok(es[5].1, 1));
    assert(es[2].0[0] != es[3].0[0]);
    assert(keys_distinct(es));
    assert forall|i: int| 0 <= i < es.len() implies vstd::utf8::valid_utf8((#[trigger] es[i]).0) && item_ok(
        es[i].1,
        1,
    ) by {}
}

proof fn lemma_access_name_injective(x: LandlockAccess, y: LandlockAccess)
    requires
        access_name(x) == access_name(y),
    ensures
        x == y,
{
    reveal_strlit("read");
    reveal_strlit("write");
    reveal_strlit("execute");
    lemma_str_bytes_eq("read", "write");
    lemma_str_bytes_eq("read", "execute");
    lemma_str_bytes_eq("write", "execute");
}

proof fn lemma_rule_item_injective(a: (u32, Seq<LandlockAccess>), b: (u32, Seq<LandlockAccess>))
    requires
        rule_item(a) == rule_item(b),
    ensures
        a == b,
{
    let ea = rule_item(a)->TextMap_0;
    let eb = rule_item(b)->TextMap_0;
    assert(ea[0] == eb[0] && ea[1] == eb[1]);
    let xa = ea[1].1->Array_0;
    let xb = eb[1].1->Array_0;
    assert(xa.len() == xb.len());
    assert forall|j: int| 0 <= j < a.1.len() implies a.1[j] == b.1[j] by {
        assert(xa[j] == xb[j]);
        lemma_access_name_injective(a.1[j], b.1[j]);
    }
    assert(a.1 =~= b.1);
}

proof fn lemma_identity_items_injective(a: IdentityModel, b: IdentityModel)
    requires
        Item::Bytes(a.execution) == Item::Bytes(b.execution),
        digest_item(a.policy) == digest_item(b.policy),
        cgroup_item(a.mount, a.inode) == cgroup_item(b.mount, b.inode),
    ensures
        a == b,
{
    assert(digest_item(a.policy)->TextMap_0[0] == digest_item(b.policy)->TextMap_0[0]);
    assert(cgroup_item(a.mount, a.inode)->TextMap_0[0] == cgroup_item(b.mount, b.inode)->TextMap_0[0]);
    assert(cgroup_item(a.mount, a.inode)->TextMap_0[1] == cgroup_item(b.mount, b.inode)->TextMap_0[1]);
}

proof fn lemma_artifact_item_injective(a: ArtifactModel, b: ArtifactModel)
    requires
        artifact_item(a) == artifact_item(b),
        a.role == b.role,
    ensures
        a == b,
{
    let ea = artifact_item(a)->TextMap_0;
    let eb = artifact_item(b)->TextMap_0;
    assert(ea[0] == eb[0] && ea[2] == eb[2] && ea[3] == eb[3]);
    assert(digest_item(a.digest)->TextMap_0[0] == digest_item(b.digest)->TextMap_0[0]);
}

#[verifier::spinoff_prover]
proof fn lemma_arguments_injective(a: Seq<Seq<u8>>, b: Seq<Seq<u8>>)
    requires
        Seq::new(a.len(), |i: int| Item::Text(a[i])) == Seq::new(b.len(), |i: int| Item::Text(b[i])),
    ensures
        a == b,
{
    let aa = Seq::new(a.len(), |i: int| Item::Text(a[i]));
    let ab = Seq::new(b.len(), |i: int| Item::Text(b[i]));
    assert(aa.len() == ab.len());
    assert forall|j: int| 0 <= j < a.len() implies a[j] == b[j] by {
        assert(aa[j] == ab[j]);
    }
    assert(a =~= b);
}

#[verifier::spinoff_prover]
proof fn lemma_rules_injective(a: Seq<(u32, Seq<LandlockAccess>)>, b: Seq<(u32, Seq<LandlockAccess>)>)
    requires
        Seq::new(a.len(), |i: int| rule_item(a[i])) == Seq::new(b.len(), |i: int| rule_item(b[i])),
    ensures
        a == b,
{
    let fa = Seq::new(a.len(), |i: int| rule_item(a[i]));
    let fb = Seq::new(b.len(), |i: int| rule_item(b[i]));
    assert(fa.len() == fb.len());
    assert forall|j: int| 0 <= j < a.len() implies a[j] == b[j] by {
        assert(fa[j] == fb[j]);
        lemma_rule_item_injective(a[j], b[j]);
    }
    assert(a =~= b);
}

proof fn lemma_env_items_injective(a: InstallModel, b: InstallModel)
    requires
        install_message_ok(a),
        install_message_ok(b),
        env_items(canonical_env(a.environment)) == env_items(canonical_env(b.environment)),
    ensures
        a.environment == b.environment,
{
    let ca = canonical_env(a.environment);
    let cb = canonical_env(b.environment);
    assert(env_items(ca).len() == env_items(cb).len());
    assert forall|j: int| 0 <= j < ca.len() implies ca[j] == cb[j] by {
        assert(env_items(ca)[j] == env_items(cb)[j]);
    }
    assert(ca =~= cb);
    assert forall|x: (Seq<u8>, Seq<u8>)| a.environment.contains(x) <==> b.environment.contains(x) by {
        assert(a.environment.contains(x) <==> ca.contains(x));
        assert(b.environment.contains(x) <==> cb.contains(x));
    }
    lemma_sorted_members_unique(false, a.environment, b.environment);
}

#[verifier::spinoff_prover]
proof fn lemma_install_item_injective(a: InstallModel, b: InstallModel)
    requires
        install_message_ok(a),
        install_message_ok(b),
        install_entries(a) == install_entries(b),
    ensures
        a == b,
{
    let ea = install_entries(a);
    let eb = install_entries(b);
    assert(ea[1] == eb[1] && ea[2] == eb[2] && ea[3] == eb[3] && ea[4] == eb[4] && ea[5] == eb[5]);
    assert(ea[6] == eb[6] && ea[7] == eb[7] && ea[8] == eb[8] && ea[9] == eb[9] && ea[10] == eb[10] && ea[11]
        == eb[11]);
    lemma_arguments_injective(a.arguments, b.arguments);
    lemma_rules_injective(a.filesystem, b.filesystem);
    lemma_env_items_injective(a, b);
    lemma_artifact_item_injective(a.executable, b.executable);
    lemma_identity_items_injective(a.identity, b.identity);
}

proof fn lemma_boundary_item_injective(a: IdentityModel, b: IdentityModel)
    requires
        message_item(MessageModel::Boundary(a)) == message_item(MessageModel::Boundary(b)),
    ensures
        a == b,
{
    let ea = message_item(MessageModel::Boundary(a))->TextMap_0;
    let eb = message_item(MessageModel::Boundary(b))->TextMap_0;
    assert(ea[2] == eb[2] && ea[3] == eb[3] && ea[4] == eb[4]);
    lemma_identity_items_injective(a, b);
}

proof fn lemma_failure_item_injective(
    ia: IdentityModel,
    sa: LauncherStage,
    ca: Seq<u8>,
    ib: IdentityModel,
    sb: LauncherStage,
    cb: Seq<u8>,
)
    requires
        message_item(MessageModel::Failure(ia, sa, ca)) == message_item(MessageModel::Failure(ib, sb, cb)),
    ensures
        ia == ib && sa == sb && ca == cb,
{
    let ea = message_item(MessageModel::Failure(ia, sa, ca))->TextMap_0;
    let eb = message_item(MessageModel::Failure(ib, sb, cb))->TextMap_0;
    assert(ea[0] == eb[0] && ea[2] == eb[2] && ea[3] == eb[3] && ea[4] == eb[4] && ea[5] == eb[5]);
    lemma_identity_items_injective(ia, ib);
    vstd::utf8::encode_utf8_decode_utf8(stage_name(sa));
    vstd::utf8::encode_utf8_decode_utf8(stage_name(sb));
    lemma_stage_name_round_trip(sa);
    lemma_stage_name_round_trip(sb);
}

/// The number of entries of the item of each kind of message.
#[verifier::spinoff_prover]
proof fn lemma_message_item_len(m: MessageModel)
    ensures
        message_item(m)->TextMap_0.len() == match m {
            MessageModel::Install(_) => 12int,
            MessageModel::Boundary(_) => 5int,
            MessageModel::Failure(..) => 6int,
        },
{
}

/// Two well-formed messages with the same item are the same message.
#[verifier::spinoff_prover]
proof fn lemma_message_item_injective(a: MessageModel, b: MessageModel)
    requires
        message_model_ok(a),
        message_model_ok(b),
        message_item(a) == message_item(b),
    ensures
        a == b,
{
    lemma_message_item_len(a);
    lemma_message_item_len(b);
    match a {
        MessageModel::Install(ra) => {
            if let MessageModel::Install(rb) = b {
                lemma_install_item_injective(ra, rb);
            }
        },
        MessageModel::Boundary(ia) => {
            if let MessageModel::Boundary(ib) = b {
                lemma_boundary_item_injective(ia, ib);
            }
        },
        MessageModel::Failure(ia, sa, ca) => {
            if let MessageModel::Failure(ib, sb, cb) = b {
                lemma_failure_item_injective(ia, sa, ca, ib, sb, cb);
            }
        },
    }
}

/// The item of a well-formed message is one the decoder reads back.
proof fn lemma_message_item_ok(m: MessageModel)
    requires
        message_model_ok(m),
    ensures
        item_ok(message_item(m), 0),
        keys_distinct(message_item(m)->TextMap_0),
{
    match m {
        MessageModel::Install(r) => lemma_install_item_ok(r),
        MessageModel::Boundary(id) => lemma_boundary_item_ok(id),
        MessageModel::Failure(id, stage, code) => lemma_failure_item_ok(id, stage, code),
    }
}

fn owned(s: &str) -> (r: String)
    ensures
        string_bytes(r) == s.spec_bytes(),
{
    s.to_owned()
}

fn text_value(s: &str) -> (r: CborValue)
    ensures
        r.item() == Item::Text(s.spec_bytes()),
{
    CborValue::Text(s.to_owned())
}

fn bytes_value(b: &[u8]) -> (r: CborValue)
    ensures
        r.item() == Item::Bytes(b@),
{
    let mut out: Vec<u8> = Vec::new();
    let mut i: usize = 0;
    while i < b.len()
        invariant
            i <= b@.len(),
            out@ == b@.take(i as int),
        decreases b@.len() - i,
    {
        out.push(b[i]);
        assert(b@.take(i + 1) =~= b@.take(i as int).push(b@[i as int]));
        i = i + 1;
    }
    assert(b@.take(b@.len() as int) =~= b@);
    CborValue::Bytes(out)
}

/// Builds a map value from its entries in order.
fn map_value(entries: Vec<(String, CborValue)>) -> (r: CborValue)
    ensures
        r.item() == Item::TextMap(entries_of(entries@)),
{
    CborValue::TextMap(entries)
}

fn digest_value(digest: &Sha256Digest) -> (r: CborValue)
    ensures
        r.item() == digest_item(digest.bytes()),
{
    let mut entries: Vec<(String, CborValue)> = Vec::new();
    entries.push((owned("digest"), bytes_value(digest.as_bytes())));
    entries.push((owned("algorithm"), text_value("sha256")));
    proof {
        lemma_entries_of(entries@);
        assert(entries_of(entries@) =~= digest_item(digest.bytes())->TextMap_0);
    }
    map_value(entries)
}

fn cgroup_value(identity: CgroupIdentity) -> (r: CborValue)
    ensures
        r.item() == cgroup_item(identity.mount_of(), identity.inode_of()),
{
    let mut entries: Vec<(String, CborValue)> = Vec::new();
    entries.push((owned("inode"), CborValue::Unsigned(identity.inode())));
    entries.push((owned("mount_id"), CborValue::Unsigned(identity.mount_id())));
    proof {
        lemma_entries_of(entries@);
        assert(entries_of(entries@) =~= cgroup_item(identity.mount_of(), identity.inode_of())->TextMap_0);
    }
    map_value(entries)
}

fn artifact_value(identity: &ArtifactIdentity) -> (r: CborValue)
    ensures
        r.item() == artifact_item(artifact_model(*identity)),
{
    let mut entries: Vec<(String, CborValue)> = Vec::new();
    entries.push((owned("mode"), CborValue::Unsigned(identity.mode().get() as u64)));
    entries.push((owned("role"), text_value(identity.role().as_str())));
    entries.push((owned("size"), CborValue::Unsigned(identity.size())));
    entries.push((owned("digest"), digest_value(&identity.digest())));
    proof {
        lemma_entries_of(entries@);
        assert(entries_of(entries@) =~= artifact_item(artifact_model(*identity))->TextMap_0);
    }
    map_value(entries)
}

fn access_value(access: LandlockAccess) -> (r: CborValue)
    ensures
        r.item() == Item::Text(access_name(access)),
{
    match access {
        LandlockAccess::Read => text_value("read"),
        LandlockAccess::Write => text_value("write"),
        LandlockAccess::Execute => text_value("execute"),
    }
}

fn filesystem_rule_value(rule: &LauncherFilesystemRule) -> (r: CborValue)
    ensures
        r.item() == rule_item(rule.model()),
{
    let access = rule.access();
    let mut items: Vec<CborValue> = Vec::new();
    let mut j: usize = 0;
    while j < access.len()
        invariant
            j <= access@.len(),
            items@.len() == j,
            forall|k: int| 0 <= k < j ==> (#[trigger] items@[k]).item() == Item::Text(access_name(access@[k])),
        decreases access@.len() - j,
    {
        items.push(access_value(access[j]));
        j = j + 1;
    }
    proof {
        lemma_items_of(items@);
        assert(items_of(items@) =~= Seq::new(access@.len(), |k: int| Item::Text(access_name(access@[k]))));
    }
    let mut entries: Vec<(String, CborValue)> = Vec::new();
    entries.push((owned("fd"), CborValue::Unsigned(rule.descriptor() as u64)));
    entries.push((owned("access"), CborValue::Array(items)));
    proof {
        lemma_entries_of(entries@);
        assert(entries_of(entries@) =~= rule_item(rule.model())->TextMap_0);
    }
    map_value(entries)
}

/// The identity entries that every message carries, in the order given.
fn push_identity(entries: &mut Vec<(String, CborValue)>, identity: LauncherIdentity)
    ensures
        final(entries)@.len() == old(entries)@.len() + 2,
        forall|k: int| 0 <= k < old(entries)@.len() ==> final(entries)@[k] == old(entries)@[k],
        string_bytes(final(entries)@[old(entries)@.len() as int].0) == "cgroup_id".spec_bytes(),
        final(entries)@[old(entries)@.len() as int].1.item() == cgroup_item(identity.model().mount, identity.model().inode),
        string_bytes(final(entries)@[old(entries)@.len() as int + 1].0) == "policy_id".spec_bytes(),
        final(entries)@[old(entries)@.len() as int + 1].1.item() == digest_item(identity.model().policy),
{
    entries.push((owned("cgroup_id"), cgroup_value(identity.cgroup_id())));
    entries.push((owned("policy_id"), digest_value(&identity.policy_id())));
}

/// Copies an environment, preserving its order.
fn copy_environment(env: &[(String, String)]) -> (r: Vec<(String, String)>)
    ensures
        env_models(r@) == env_models(env@),
{
    let mut out: Vec<(String, String)> = Vec::new();
    let mut k: usize = 0;
    while k < env.len()
        invariant
            k <= env@.len(),
            out@.len() == k,
            forall|j: int|
                0 <= j < k ==> string_bytes((#[trigger] out@[j]).0) == string_bytes(env@[j].0) && string_bytes(
                    out@[j].1,
                ) == string_bytes(env@[j].1),
        decreases env@.len() - k,
    {
        let name = env[k].0.clone();
        let value = env[k].1.clone();
        out.push((name, value));
        k = k + 1;
    }
    proof {
        assert(env_models(out@) =~= env_models(env@));
    }
    out
}

fn environment_value(env: &[(String, String)]) -> (r: CborValue)
    requires
        env_names_sorted(env_models(env@)),
    ensures
        r.item() == Item::TextMap(env_items(canonical_env(env_models(env@)))),
        same_members(canonical_env(env_models(env@)), env_models(env@)),
        names_sorted_by(true, canonical_env(env_models(env@))),
{
    let copy = copy_environment(env);
    proof {
        let m = env_models(env@);
        assert forall|a: int, b: int| 0 <= a < b < m.len() implies (#[trigger] m[a]).0 != (#[trigger] m[b]).0 by {
            lemma_name_order(false, m[a].0, m[b].0, m[b].0);
        }
    }
    let sorted = match sort_environment(copy, true) {
        Ok(sorted) => sorted,
        Err(_) => {
            proof {
                assert(false);
            }
            Vec::new()
        },
    };
    proof {
        let m = env_models(env@);
        let c = canonical_env(m);
        assert(same_members(env_models(sorted@), m) && names_sorted_by(true, env_models(sorted@)));
        assert(same_members(c, m) && names_sorted_by(true, c));
        assert forall|x: (Seq<u8>, Seq<u8>)| env_models(sorted@).contains(x) <==> c.contains(x) by {}
        lemma_sorted_members_unique(true, env_models(sorted@), c);
    }
    let mut entries: Vec<(String, CborValue)> = Vec::new();
    let mut k: usize = 0;
    while k < sorted.len()
        invariant
            k <= sorted@.len(),
            entries@.len() == k,
            forall|j: int|
                0 <= j < k ==> string_bytes((#[trigger] entries@[j]).0) == string_bytes(sorted@[j].0)
                    && entries@[j].1.item() == Item::Text(string_bytes(sorted@[j].1)),
        decreases sorted@.len() - k,
    {
        let name = sorted[k].0.clone();
        let value = CborValue::Text(sorted[k].1.clone());
        entries.push((name, value));
        k = k + 1;
    }
    proof {
        lemma_entries_of(entries@);
        assert(entries_of(entries@) =~= env_items(canonical_env(env_models(env@))));
    }
    map_value(entries)
}

fn arguments_value(args: &[String]) -> (r: CborValue)
    ensures
        r.item() == Item::Array(Seq::new(string_models(args@).len(), |i: int| Item::Text(string_models(args@)[i]))),
{
    let mut arguments: Vec<CborValue> = Vec::new();
    let mut k: usize = 0;
    while k < args.len()
        invariant
            k <= args@.len(),
            arguments@.len() == k,
            forall|j: int| 0 <= j < k ==> (#[trigger] arguments@[j]).item() == Item::Text(string_models(args@)[j]),
        decreases args@.len() - k,
    {
        arguments.push(CborValue::Text(args[k].clone()));
        k = k + 1;
    }
    proof {
        lemma_items_of(arguments@);
        assert(items_of(arguments@) =~= Seq::new(string_models(args@).len(), |i: int| Item::Text(string_models(args@)[i])));
    }
    CborValue::Array(arguments)
}

fn filesystem_value(rules: &[LauncherFilesystemRule]) -> (r: CborValue)
    ensures
        r.item() == Item::Array(Seq::new(rule_models(rules@).len(), |i: int| rule_item(rule_models(rules@)[i]))),
{
    let mut filesystem: Vec<CborValue> = Vec::new();
    let mut k: usize = 0;
    while k < rules.len()
        invariant
            k <= rules@.len(),
            filesystem@.len() == k,
            forall|j: int| 0 <= j < k ==> (#[trigger] filesystem@[j]).item() == rule_item(rule_models(rules@)[j]),
        decreases rules@.len() - k,
    {
        filesystem.push(filesystem_rule_value(&rules[k]));
        k = k + 1;
    }
    proof {
        lemma_items_of(filesystem@);
        assert(items_of(filesystem@) =~= Seq::new(rule_models(rules@).len(), |i: int| rule_item(rule_models(rules@)[i])));
    }
    CborValue::Array(filesystem)
}

fn install_head(request: &InstallRequest) -> (r: Vec<(String, CborValue)>)
    ensures
        same_members(canonical_env(request.model().environment), request.model().environment),
        names_sorted_by(true, canonical_env(request.model().environment)),
        r@.len() == 6,
        forall|k: int|
            0 <= k < 6 ==> (string_bytes((#[trigger] r@[k]).0), r@[k].1.item()) == install_entries(request.model())[k],
{
    let identity = request.identity();
    let mut entries: Vec<(String, CborValue)> = Vec::new();
    entries.push((owned("schema"), text_value("proofbound-runtime-launcher-install/1")));
    entries.push((owned("arguments"), arguments_value(request.arguments())));
    push_identity(&mut entries, identity);
    entries.push((owned("filesystem"), filesystem_value(request.filesystem())));
    entries.push((owned("environment"), environment_value(request.environment())));
    proof {
        let t = install_entries(request.model());
        assert forall|k: int| 0 <= k < 6 implies (string_bytes((#[trigger] entries@[k]).0), entries@[k].1.item()) == t[k] by {
            if k == 0 {
            } else if k == 1 {
            } else if k == 2 {
            } else if k == 3 {
            } else if k == 4 {
            } else {
            }
        }
    }
    entries
}

fn install_tail(request: &InstallRequest, entries: &mut Vec<(String, CborValue)>)
    requires
        old(entries)@.len() == 6,
    ensures
        final(entries)@.len() == 12,
        forall|k: int| 0 <= k < 6 ==> final(entries)@[k] == old(entries)@[k],
        forall|k: int|
            6 <= k < 12 ==> (string_bytes((#[trigger] final(entries)@[k]).0), final(entries)@[k].1.item())
                == install_entries(request.model())[k],
{
    let identity = request.identity();
    entries.push((owned("execution_id"), bytes_value(identity.execution_id().as_bytes())));
    entries.push((owned("executable_fd"), CborValue::Unsigned(request.executable_fd() as u64)));
    entries.push((owned("executable_id"), artifact_value(request.executable_id())));
    entries.push((owned("seccomp_program"), bytes_value(request.seccomp_program())));
    entries.push((owned("working_directory_fd"), CborValue::Unsigned(request.working_directory_fd() as u64)));
    entries.push((owned("close_file_descriptors_from"), CborValue::Unsigned(request.close_file_descriptors_from() as u64)));
    proof {
        let t = install_entries(request.model());
        assert forall|k: int| 6 <= k < 12 implies (string_bytes((#[trigger] entries@[k]).0), entries@[k].1.item()) == t[k] by {
            if k == 6 {
            } else if k == 7 {
            } else if k == 8 {
            } else if k == 9 {
            } else if k == 10 {
            } else {
            }
        }
    }
}

#[verifier::spinoff_prover]
#[verifier::rlimit(80)]
fn install_value(request: &InstallRequest) -> (r: CborValue)
    ensures
        r.item() == message_item(MessageModel::Install(request.model())),
        install_message_ok(request.model()),
{
    proof {
        use_type_invariant(request);
        let m = request.model();
        assert forall|i: int| 0 <= i < m.arguments.len() implies vstd::utf8::valid_utf8(#[trigger] m.arguments[i]) by {
            vstd::utf8::encode_utf8_valid_utf8(request.arguments@[i]@);
        }
        assert forall|i: int| 0 <= i < m.environment.len() implies vstd::utf8::valid_utf8((#[trigger] m.environment[i]).0)
            && vstd::utf8::valid_utf8(m.environment[i].1) by {
            vstd::utf8::encode_utf8_valid_utf8(request.environment@[i].0@);
            vstd::utf8::encode_utf8_valid_utf8(request.environment@[i].1@);
        }
    }
    let executable = request.executable_id();
    let _digest_bytes = executable.digest().as_bytes();
    let _mode_bits = executable.mode().get();
    identity_checked(request.identity());
    let mut entries = install_head(request);
    install_tail(request, &mut entries);
    proof {
        lemma_entries_of(entries@);
        let t = install_entries(request.model());
        assert(entries_of(entries@) =~= t);
    }
    map_value(entries)
}

/// Builds the CBOR value of a message, entries in canonical key order.
pub fn message_to_value(message: &LauncherMessage) -> (r: CborValue)
    ensures
        r.item() == message_item(message.model()),
        message_model_ok(message.model()),
{
    match message {
        LauncherMessage::Install(request) => install_value(request),
        LauncherMessage::BoundaryInstalled(installed) => {
            identity_checked(installed.identity());
            boundary_value(installed)
        },
        LauncherMessage::Failure(failure) => {
            identity_checked(failure.identity());
            let code = failure.error_code();
            proof {
                vstd::utf8::encode_utf8_valid_utf8(code@);
            }
            failure_value(failure)
        },
    }
}

/// The identity of every message is well formed.
fn identity_checked(identity: LauncherIdentity)
    ensures
        identity_model_ok(identity.model()),
{
    let execution = identity.execution_id();
    let policy = identity.policy_id();
    let _execution_bytes = execution.as_bytes();
    let _policy_bytes = policy.as_bytes();
}

fn boundary_value(installed: &BoundaryInstalled) -> (r: CborValue)
    ensures
        r.item() == message_item(MessageModel::Boundary(installed.identity_of().model())),
{
    let identity = installed.identity();
    let mut entries: Vec<(String, CborValue)> = Vec::new();
    entries.push((owned("state"), text_value("installed")));
    entries.push((owned("schema"), text_value("proofbound-runtime-launcher-boundary-installed/1")));
    push_identity(&mut entries, identity);
    entries.push((owned("execution_id"), bytes_value(identity.execution_id().as_bytes())));
    proof {
        lemma_entries_of(entries@);
        assert(entries_of(entries@) =~= message_item(MessageModel::Boundary(installed.identity_of().model()))->TextMap_0);
    }
    map_value(entries)
}

fn failure_value(failure: &LauncherFailure) -> (r: CborValue)
    ensures
        r.item() == message_item(
            MessageModel::Failure(failure.identity_of().model(), failure.stage_of(), failure.code_of()),
        ),
{
    let identity = failure.identity();
    let mut entries: Vec<(String, CborValue)> = Vec::new();
    let stage = failure.stage().as_str();
    entries.push((owned("stage"), text_value(stage)));
    entries.push((owned("schema"), text_value("proofbound-runtime-launcher-failure/1")));
    push_identity(&mut entries, identity);
    entries.push((owned("error_code"), text_value(failure.error_code())));
    entries.push((owned("execution_id"), bytes_value(identity.execution_id().as_bytes())));
    proof {
        lemma_entries_of(entries@);
        assert(entries_of(entries@) =~= message_item(
            MessageModel::Failure(failure.identity_of().model(), failure.stage_of(), failure.code_of()),
        )->TextMap_0);
    }
    map_value(entries)
}

/// Encodes one launcher message as deterministic CBOR bytes; a message whose
/// encoding exceeds one frame is `FrameTooLarge`.
pub fn encode_launcher_message(message: &LauncherMessage) -> (r: Result<Vec<u8>, LauncherError>)
    ensures
        r is Ok <==> message_bytes(message.model()).len() <= MAX_LAUNCHER_FRAME_BYTES,
        r matches Ok(b) ==> b@ == message_bytes(message.model()),
        message_model_ok(message.model()),
        r matches Err(e) ==> e == LauncherError::FrameTooLarge,
{
    let value = message_to_value(message);
    let mut output: Vec<u8> = Vec::new();
    encode_value(&value, &mut output)?;
    assert(output@ =~= message_bytes(message.model()));
    if output.len() > MAX_LAUNCHER_FRAME_BYTES {
        return Err(LauncherError::FrameTooLarge);
    }
    Ok(output)
}

fn array16(b: &[u8]) -> (r: [u8; 16])
    requires
        b@.len() == 16,
    ensures
        r@ == b@,
{
    let r: [u8; 16] = [b[0], b[1], b[2], b[3], b[4], b[5], b[6], b[7], b[8], b[9], b[10], b[11], b[12], b[13], b[14], b[15]];
    assert(r@ =~= b@);
    r
}

fn array32(b: &[u8]) -> (r: [u8; 32])
    requires
        b@.len() == 32,
    ensures
        r@ == b@,
{
    let r: [u8; 32] = [b[0], b[1], b[2], b[3], b[4], b[5], b[6], b[7], b[8], b[9], b[10], b[11], b[12], b[13], b[14], b[15], b[16], b[17], b[18], b[19], b[20], b[21], b[22], b[23], b[24], b[25], b[26], b[27], b[28], b[29], b[30], b[31]];
    assert(r@ =~= b@);
    r
}

/// Some entry of `entries` is named `name`.
pub open spec fn has_key(entries: Seq<(String, CborValue)>, name: Seq<u8>) -> bool {
    exists|k: int| 0 <= k < entries.len() && string_bytes(#[trigger] entries[k].0) == name
}

/// In a map whose model has distinct keys, the entry named like the `i`th entry
/// of the model is that entry.
proof fn lemma_lookup_at(entries: Seq<(String, CborValue)>, model: Seq<(Seq<u8>, Item)>, i: int)
    requires
        entries_of(entries) == model,
        keys_distinct(model),
        0 <= i < model.len(),
    ensures
        has_key(entries, model[i].0),
        forall|k: int|
            0 <= k < entries.len() && string_bytes(#[trigger] entries[k].0) == model[i].0 ==> entries[k].1.item()
                == model[i].1,
{
    lemma_entries_of(entries);
    assert(string_bytes(entries[i].0) == model[i].0);
    assert forall|k: int| 0 <= k < entries.len() && string_bytes(#[trigger] entries[k].0) == model[i].0 implies entries[k].1.item()
        == model[i].1 by {
        assert(entries_of(entries)[k] == (string_bytes(entries[k].0), entries[k].1.item()));
        if k < i {
            assert(model[k].0 != model[i].0);
        } else if k > i {
            assert(model[i].0 != model[k].0);
        }
    }
}

/// A map whose model has distinct keys holds every key of its model.
proof fn lemma_keys_present(entries: Seq<(String, CborValue)>, model: Seq<(Seq<u8>, Item)>, expected: Seq<&str>)
    requires
        entries_of(entries) == model,
        keys_distinct(model),
        expected.len() == model.len(),
        forall|i: int| 0 <= i < expected.len() ==> (#[trigger] expected[i]).spec_bytes() == model[i].0,
    ensures
        entries.len() == expected.len(),
        forall|i: int| 0 <= i < expected.len() ==> has_key(entries, (#[trigger] expected[i]).spec_bytes()),
{
    lemma_entries_of(entries);
    assert forall|i: int| 0 <= i < expected.len() implies has_key(entries, (#[trigger] expected[i]).spec_bytes()) by {
        lemma_lookup_at(entries, model, i);
    }
}

/// The value of the first entry of `entries` named `name`, if any.
fn field<'a>(entries: &'a [(String, CborValue)], name: &str) -> (r: Result<&'a CborValue, LauncherError>)
    ensures
        r is Ok <==> has_key(entries@, name.spec_bytes()),
        r matches Ok(v) ==> exists|k: int|
            0 <= k < entries@.len() && string_bytes(#[trigger] entries@[k].0) == name.spec_bytes() && *v
                == entries@[k].1,
        r matches Err(e) ==> e == LauncherError::Malformed,
{
    let mut k: usize = 0;
    while k < entries.len()
        invariant
            k <= entries@.len(),
            forall|j: int| 0 <= j < k ==> string_bytes(#[trigger] entries@[j].0) != name.spec_bytes(),
        decreases entries@.len() - k,
    {
        if crate::text::bytes_equal(entries[k].0.as_str().as_bytes(), name.as_bytes()) {
            return Ok(&entries[k].1);
        }
        k = k + 1;
    }
    Err(LauncherError::Malformed)
}

/// The map has exactly the expected keys: as many entries as keys, each key present.
fn require_keys(entries: &[(String, CborValue)], expected: &[&str]) -> (r: Result<(), LauncherError>)
    ensures
        r is Ok <==> entries@.len() == expected@.len() && forall|i: int|
            0 <= i < expected@.len() ==> has_key(entries@, (#[trigger] expected@[i]).spec_bytes()),
        r is Err ==> r == Err::<(), LauncherError>(LauncherError::Malformed),
{
    if entries.len() != expected.len() {
        return Err(LauncherError::Malformed);
    }
    let mut k: usize = 0;
    while k < expected.len()
        invariant
            k <= expected@.len(),
            entries@.len() == expected@.len(),
            forall|i: int| 0 <= i < k ==> has_key(entries@, (#[trigger] expected@[i]).spec_bytes()),
        decreases expected@.len() - k,
    {
        field(entries, expected[k])?;
        k = k + 1;
    }
    Ok(())
}

fn as_map(value: &CborValue) -> (r: Result<&[(String, CborValue)], LauncherError>)
    ensures
        r is Ok <==> value is TextMap,
        r matches Ok(m) ==> m@ == value->TextMap_0@,
        r matches Err(e) ==> e == LauncherError::Malformed,
{
    match value {
        CborValue::TextMap(entries) => Ok(entries.as_slice()),
        _ => Err(LauncherError::Malformed),
    }
}

fn as_array(value: &CborValue) -> (r: Result<&[CborValue], LauncherError>)
    ensures
        r is Ok <==> value is Array,
        r matches Ok(m) ==> m@ == value->Array_0@,
        r matches Err(e) ==> e == LauncherError::Malformed,
{
    match value {
        CborValue::Array(items) => Ok(items.as_slice()),
        _ => Err(LauncherError::Malformed),
    }
}

fn as_text(value: &CborValue) -> (r: Result<&String, LauncherError>)
    ensures
        r is Ok <==> value is Text,
        r matches Ok(t) ==> *t == value->Text_0,
        r matches Err(e) ==> e == LauncherError::Malformed,
{
    match value {
        CborValue::Text(text) => Ok(text),
        _ => Err(LauncherError::Malformed),
    }
}

fn as_bytes(value: &CborValue) -> (r: Result<&[u8], LauncherError>)
    ensures
        r is Ok <==> value is Bytes,
        r matches Ok(b) ==> b@ == value->Bytes_0@,
        r matches Err(e) ==> e == LauncherError::Malformed,
{
    match value {
        CborValue::Bytes(bytes) => Ok(bytes.as_slice()),
        _ => Err(LauncherError::Malformed),
    }
}

fn as_unsigned(value: &CborValue) -> (r: Result<u64, LauncherError>)
    ensures
        r is Ok <==> value is Unsigned,
        r matches Ok(n) ==> n == value->Unsigned_0,
        r matches Err(e) ==> e == LauncherError::Malformed,
{
    match value {
        CborValue::Unsigned(n) => Ok(*n),
        _ => Err(LauncherError::Malformed),
    }
}

fn as_u32(value: &CborValue) -> (r: Result<u32, LauncherError>)
    ensures
        r is Ok <==> (value is Unsigned && value->Unsigned_0 <= u32::MAX),
        r matches Ok(n) ==> n == value->Unsigned_0,
        r matches Err(e) ==> e == LauncherError::Malformed,
{
    let n = as_unsigned(value)?;
    if n > 0xffff_ffff {
        return Err(LauncherError::Malformed);
    }
    Ok(n as u32)
}

fn text_is(text: &String, expected: &str) -> (r: bool)
    ensures
        r == (string_bytes(*text) == expected.spec_bytes()),
{
    crate::text::bytes_equal(text.as_str().as_bytes(), expected.as_bytes())
}

fn decode_digest(value: &CborValue, Ghost(d): Ghost<Seq<u8>>) -> (r: Result<Sha256Digest, LauncherError>)
    ensures
        r matches Err(e) ==> e == LauncherError::Malformed,
        value.item() == digest_item(d) && d.len() == 32 ==> (r matches Ok(x) && x.bytes() == d),
{
    let ghost good = value.item() == digest_item(d) && d.len() == 32;
    let map = as_map(value)?;
    proof {
        if good {
            lemma_digest_item_ok(d, 0);
            lemma_lookup_at(map@, digest_item(d)->TextMap_0, 0);
            lemma_lookup_at(map@, digest_item(d)->TextMap_0, 1);
        }
    }
    let keys: &[&str] = &["digest", "algorithm"];
    proof {
        if good {
            lemma_keys_present(map@, digest_item(d)->TextMap_0, keys@);
        }
    }
    require_keys(map, keys)?;
    if !text_is(as_text(field(map, "algorithm")?)?, "sha256") {
        return Err(LauncherError::Malformed);
    }
    let bytes = as_bytes(field(map, "digest")?)?;
    if bytes.len() != 32 {
        return Err(LauncherError::Malformed);
    }
    Ok(Sha256Digest::from_bytes(array32(bytes)))
}

fn decode_cgroup(value: &CborValue, Ghost(mount): Ghost<u64>, Ghost(inode): Ghost<u64>) -> (r: Result<
    CgroupIdentity,
    LauncherError,
>)
    ensures
        r matches Err(e) ==> e == LauncherError::Malformed,
        value.item() == cgroup_item(mount, inode) ==> (r matches Ok(c) && c.mount_of() == mount && c.inode_of()
            == inode),
{
    let ghost good = value.item() == cgroup_item(mount, inode);
    let map = as_map(value)?;
    proof {
        if good {
            lemma_cgroup_item_ok(mount, inode, 0);
            lemma_lookup_at(map@, cgroup_item(mount, inode)->TextMap_0, 0);
            lemma_lookup_at(map@, cgroup_item(mount, inode)->TextMap_0, 1);
        }
    }
    let keys: &[&str] = &["inode", "mount_id"];
    proof {
        if good {
            lemma_keys_present(map@, cgroup_item(mount, inode)->TextMap_0, keys@);
        }
    }
    require_keys(map, keys)?;
    let mount_id = as_unsigned(field(map, "mount_id")?)?;
    let inode_number = as_unsigned(field(map, "inode")?)?;
    Ok(CgroupIdentity::new(mount_id, inode_number))
}

/// The entries of `model` that carry identity `id` stand at `ie`, `ip` and `ic`.
pub open spec fn identity_at(model: Seq<(Seq<u8>, Item)>, id: IdentityModel, ie: int, ip: int, ic: int) -> bool {
    &&& 0 <= ie < model.len() && model[ie] == ("execution_id".spec_bytes(), Item::Bytes(id.execution))
    &&& 0 <= ip < model.len() && model[ip] == ("policy_id".spec_bytes(), digest_item(id.policy))
    &&& 0 <= ic < model.len() && model[ic] == ("cgroup_id".spec_bytes(), cgroup_item(id.mount, id.inode))
}

fn decode_identity(
    map: &[(String, CborValue)],
    Ghost(model): Ghost<Seq<(Seq<u8>, Item)>>,
    Ghost(id): Ghost<IdentityModel>,
    Ghost(ie): Ghost<int>,
    Ghost(ip): Ghost<int>,
    Ghost(ic): Ghost<int>,
) -> (r: Result<LauncherIdentity, LauncherError>)
    ensures
        r matches Err(e) ==> e == LauncherError::Malformed,
        entries_of(map@) == model && keys_distinct(model) && identity_at(model, id, ie, ip, ic) && identity_model_ok(
            id,
        ) ==> (r matches Ok(x) && x.model() == id),
{
    let ghost good = entries_of(map@) == model && keys_distinct(model) && identity_at(model, id, ie, ip, ic)
        && identity_model_ok(id);
    proof {
        if good {
            lemma_lookup_at(map@, model, ie);
            lemma_lookup_at(map@, model, ip);
            lemma_lookup_at(map@, model, ic);
        }
    }
    let bytes = as_bytes(field(map, "execution_id")?)?;
    if bytes.len() != 16 {
        return Err(LauncherError::Malformed);
    }
    let execution_id = match ExecutionId::from_bytes(array16(bytes)) {
        Some(id) => id,
        None => {
            return Err(LauncherError::Malformed);
        },
    };
    let policy_id = decode_digest(field(map, "policy_id")?, Ghost(id.policy))?;
    let cgroup_id = decode_cgroup(field(map, "cgroup_id")?, Ghost(id.mount), Ghost(id.inode))?;
    Ok(LauncherIdentity::new(execution_id, policy_id, cgroup_id))
}

fn decode_artifact(value: &CborValue, Ghost(a): Ghost<ArtifactModel>) -> (r: Result<ArtifactIdentity, LauncherError>)
    ensures
        r matches Err(e) ==> e == LauncherError::Malformed,
        value.item() == artifact_item(a) && a.role == ArtifactRole::RuntimeExecutable && a.digest.len() == 32
            && a.mode <= crate::model::MAX_FILE_MODE ==> (r matches Ok(x) && artifact_model(x) == a),
{
    let ghost good = value.item() == artifact_item(a) && a.role == ArtifactRole::RuntimeExecutable && a.digest.len()
        == 32 && a.mode <= crate::model::MAX_FILE_MODE;
    let map = as_map(value)?;
    proof {
        if good {
            lemma_artifact_item_ok(a, 0);
            lemma_lookup_at(map@, artifact_item(a)->TextMap_0, 0);
            lemma_lookup_at(map@, artifact_item(a)->TextMap_0, 1);
            lemma_lookup_at(map@, artifact_item(a)->TextMap_0, 2);
            lemma_lookup_at(map@, artifact_item(a)->TextMap_0, 3);
        }
    }
    let keys: &[&str] = &["mode", "role", "size", "digest"];
    proof {
        if good {
            lemma_keys_present(map@, artifact_item(a)->TextMap_0, keys@);
        }
    }
    require_keys(map, keys)?;
    if !text_is(as_text(field(map, "role")?)?, ArtifactRole::RuntimeExecutable.as_str()) {
        return Err(LauncherError::Malformed);
    }
    let raw_mode = as_unsigned(field(map, "mode")?)?;
    if raw_mode > 0xffff {
        return Err(LauncherError::Malformed);
    }
    let mode = match FileMode::new(raw_mode as u16) {
        Some(mode) => mode,
        None => {
            return Err(LauncherError::Malformed);
        },
    };
    let digest = decode_digest(field(map, "digest")?, Ghost(a.digest))?;
    let size = as_unsigned(field(map, "size")?)?;
    Ok(ArtifactIdentity::new(ArtifactRole::RuntimeExecutable, digest, size, mode))
}

/// Reads an access class from its wire name; any other name is `Malformed`.
fn parse_access(value: &String) -> (r: Result<LandlockAccess, LauncherError>)
    ensures
        r matches Ok(a) ==> access_name(a) == string_bytes(*value),
        forall|a: LandlockAccess| access_name(a) == string_bytes(*value) ==> r == Ok::<LandlockAccess, LauncherError>(a),
        r matches Err(e) ==> e == LauncherError::Malformed,
{
    proof {
        lemma_key_literals();
    }
    if text_is(value, "read") {
        Ok(LandlockAccess::Read)
    } else if text_is(value, "write") {
        Ok(LandlockAccess::Write)
    } else if text_is(value, "execute") {
        Ok(LandlockAccess::Execute)
    } else {
        Err(LauncherError::Malformed)
    }
}

/// A canonical access list names no class twice.
proof fn lemma_access_list_distinct(x: Seq<LandlockAccess>)
    requires
        access_list_ok(x),
    ensures
        no_repeated_access(x),
{
    let r = x.contains(LandlockAccess::Read);
    let w = x.contains(LandlockAccess::Write);
    let e = x.contains(LandlockAccess::Execute);
    let c = canonical_access(x);
    if r && w && e {
        assert(c =~= seq![LandlockAccess::Read, LandlockAccess::Write, LandlockAccess::Execute]);
    } else if r && w {
        assert(c =~= seq![LandlockAccess::Read, LandlockAccess::Write]);
    } else if r && e {
        assert(c =~= seq![LandlockAccess::Read, LandlockAccess::Execute]);
    } else if w && e {
        assert(c =~= seq![LandlockAccess::Write, LandlockAccess::Execute]);
    } else if r {
        assert(c =~= seq![LandlockAccess::Read]);
    } else if w {
        assert(c =~= seq![LandlockAccess::Write]);
    } else if e {
        assert(c =~= seq![LandlockAccess::Execute]);
    } else {
        assert(c =~= Seq::<LandlockAccess>::empty());
    }
}

fn decode_filesystem_rule(value: &CborValue, Ghost(rule): Ghost<(u32, Seq<LandlockAccess>)>) -> (r: Result<
    LauncherFilesystemRule,
    LauncherError,
>)
    ensures
        r matches Err(e) ==> e == LauncherError::Malformed,
        value.item() == rule_item(rule) && rule.0 <= i32::MAX && access_list_ok(rule.1) ==> (r matches Ok(x)
            && x.model() == rule),
{
    let ghost good = value.item() == rule_item(rule) && rule.0 <= i32::MAX && access_list_ok(rule.1);
    let map = as_map(value)?;
    proof {
        if good {
            lemma_rule_item_ok(rule, 0);
            lemma_lookup_at(map@, rule_item(rule)->TextMap_0, 0);
            lemma_lookup_at(map@, rule_item(rule)->TextMap_0, 1);
        }
    }
    let keys: &[&str] = &["fd", "access"];
    proof {
        if good {
            lemma_keys_present(map@, rule_item(rule)->TextMap_0, keys@);
        }
    }
    require_keys(map, keys)?;
    let items = as_array(field(map, "access")?)?;
    proof {
        if good {
            lemma_items_of(items@);
            assert forall|j: int| 0 <= j < items@.len() implies (#[trigger] items@[j]).item() == Item::Text(
                access_name(rule.1[j]),
            ) by {
                assert(items_of(items@)[j] == items@[j].item());
            }
        }
    }
    let mut access: Vec<LandlockAccess> = Vec::new();
    let mut k: usize = 0;
    while k < items.len()
        invariant
            k <= items@.len(),
            good == (value.item() == rule_item(rule) && rule.0 <= i32::MAX && access_list_ok(rule.1)),
            good ==> items@.len() == rule.1.len() && access@ == rule.1.take(k as int) && forall|j: int|
                0 <= j < items@.len() ==> (#[trigger] items@[j]).item() == Item::Text(access_name(rule.1[j])),
        decreases items@.len() - k,
    {
        access.push(parse_access(as_text(&items[k])?)?);
        proof {
            if good {
                assert(rule.1.take(k + 1) =~= rule.1.take(k as int).push(rule.1[k as int]));
            }
        }
        k = k + 1;
    }
    let descriptor = as_u32(field(map, "fd")?)?;
    proof {
        if good {
            assert(rule.1.take(rule.1.len() as int) =~= rule.1);
            lemma_access_list_distinct(rule.1);
        }
    }
    LauncherFilesystemRule::new(descriptor, access)
}

/// The environment of a well-formed install request, in CBOR key order, holds the
/// same well-formed entries under distinct names.
proof fn lemma_canonical_env_entries(r: InstallModel)
    requires
        install_message_ok(r),
    ensures
        env_entries_ok(canonical_env(r.environment)),
        distinct_env_names(canonical_env(r.environment)),
{
    let c = canonical_env(r.environment);
    assert forall|k: int| 0 <= k < c.len() implies env_name_ok((#[trigger] c[k]).0) && !c[k].1.contains(0u8) by {
        assert(c.contains(c[k]));
        assert(r.environment.contains(c[k]));
        let j = choose|j: int| 0 <= j < r.environment.len() && r.environment[j] == c[k];
        assert(env_name_ok(r.environment[j].0));
    }
    assert forall|a: int, b: int| 0 <= a < b < c.len() implies (#[trigger] c[a]).0 != (#[trigger] c[b]).0 by {
        lemma_name_order(true, c[a].0, c[b].0, c[b].0);
    }
}

/// Two rule lists with the same members, both in strictly increasing descriptor order, are equal.
pub proof fn lemma_sorted_rules_unique(a: Seq<(u32, Seq<LandlockAccess>)>, b: Seq<(u32, Seq<LandlockAccess>)>)
    requires
        same_members(a, b),
        descriptors_sorted(a),
        descriptors_sorted(b),
    ensures
        a == b,
    decreases a.len(),
{
    if a.len() == 0 {
        assert(a =~= b);
    } else {
        assert(a.contains(a[0]));
        assert(b.contains(a[0]));
        let k = choose|k: int| 0 <= k < b.len() && #[trigger] b[k] == a[0];
        assert(b.contains(b[0]));
        assert(a.contains(b[0]));
        let m = choose|m: int| 0 <= m < a.len() && #[trigger] a[m] == b[0];
        if k > 0 {
            assert(b[0].0 < b[k].0);
            if m > 0 {
                assert(a[0].0 < a[m].0);
            }
        }
        assert(a[0] == b[0]);
        let ta = a.subrange(1, a.len() as int);
        let tb = b.subrange(1, b.len() as int);
        assert forall|x: (u32, Seq<LandlockAccess>)| ta.contains(x) <==> tb.contains(x) by {
            if ta.contains(x) {
                let i2 = choose|i2: int| 0 <= i2 < ta.len() && #[trigger] ta[i2] == x;
                assert(a[i2 + 1] == x);
                assert(a.contains(x));
                assert(b.contains(x));
                let j2 = choose|j2: int| 0 <= j2 < b.len() && #[trigger] b[j2] == x;
                assert(a[0].0 < a[i2 + 1].0);
                if j2 == 0 {
                    assert(x == a[0]);
                }
                assert(tb[j2 - 1] == x);
            }
            if tb.contains(x) {
                let j2 = choose|j2: int| 0 <= j2 < tb.len() && #[trigger] tb[j2] == x;
                assert(b[j2 + 1] == x);
                assert(b.contains(x));
                assert(a.contains(x));
                let i2 = choose|i2: int| 0 <= i2 < a.len() && #[trigger] a[i2] == x;
                assert(b[0].0 < b[j2 + 1].0);
                if i2 == 0 {
                    assert(x == b[0]);
                }
                assert(ta[i2 - 1] == x);
            }
        }
        assert forall|x: int, y: int| 0 <= x < y < ta.len() implies (#[trigger] ta[x]).0 < (#[trigger] ta[y]).0 by {
            assert(ta[x] == a[x + 1] && ta[y] == a[y + 1]);
        }
        assert forall|x: int, y: int| 0 <= x < y < tb.len() implies (#[trigger] tb[x]).0 < (#[trigger] tb[y]).0 by {
            assert(tb[x] == b[x + 1] && tb[y] == b[y + 1]);
        }
        lemma_sorted_rules_unique(ta, tb);
        assert(a =~= seq![a[0]] + ta);
        assert(b =~= seq![b[0]] + tb);
    }
}

#[verifier::spinoff_prover]
#[verifier::rlimit(60)]
fn decode_install(map: &[(String, CborValue)], Ghost(r): Ghost<InstallModel>) -> (res: Result<
    InstallRequest,
    LauncherError,
>)
    ensures
        res matches Err(e) ==> e == LauncherError::Malformed,
        entries_of(map@) == install_entries(r) && install_message_ok(r) ==> (res matches Ok(x) && x.model() == r),
{
    let ghost good = entries_of(map@) == install_entries(r) && install_message_ok(r);
    let ghost es = install_entries(r);
    let ghost c = canonical_env(r.environment);
    proof {
        if good {
            lemma_install_item_ok(r);
            lemma_lookup_at(map@, es, 0);
            lemma_lookup_at(map@, es, 1);
            lemma_lookup_at(map@, es, 2);
            lemma_lookup_at(map@, es, 3);
            lemma_lookup_at(map@, es, 4);
            lemma_lookup_at(map@, es, 5);
            lemma_lookup_at(map@, es, 6);
            lemma_lookup_at(map@, es, 7);
            lemma_lookup_at(map@, es, 8);
            lemma_lookup_at(map@, es, 9);
            lemma_lookup_at(map@, es, 10);
            lemma_lookup_at(map@, es, 11);
        }
    }
let keys: &[&str] = &[
            "schema",
            "arguments",
            "cgroup_id",
            "policy_id",
            "filesystem",
            "environment",
            "execution_id",
            "executable_fd",
            "executable_id",
            "seccomp_program",
            "working_directory_fd",
            "close_file_descriptors_from",
        ];
    proof {
        if good {
            lemma_keys_present(map@, es, keys@);
        }
    }
    require_keys(map, keys)?;
    let identity = decode_identity(map, Ghost(es), Ghost(r.identity), Ghost(6), Ghost(3), Ghost(2))?;
    let executable_id = decode_artifact(field(map, "executable_id")?, Ghost(r.executable))?;
    let executable_fd = as_u32(field(map, "executable_fd")?)?;
    let working_directory_fd = as_u32(field(map, "working_directory_fd")?)?;
    let items = as_array(field(map, "arguments")?)?;
    proof {
        if good {
            lemma_items_of(items@);
            assert forall|j: int| 0 <= j < items@.len() implies (#[trigger] items@[j]).item() == Item::Text(
                r.arguments[j],
            ) by {
                assert(items_of(items@)[j] == items@[j].item());
            }
        }
    }
    let mut arguments: Vec<String> = Vec::new();
    let mut k: usize = 0;
    while k < items.len()
        invariant
            k <= items@.len(),
            arguments@.len() == k,
            good == (entries_of(map@) == install_entries(r) && install_message_ok(r)),
            c == canonical_env(r.environment),
            good ==> items@.len() == r.arguments.len() && (forall|j: int|
                0 <= j < items@.len() ==> (#[trigger] items@[j]).item() == Item::Text(r.arguments[j])) && (forall|
                j: int,
            | 0 <= j < k ==> string_bytes(#[trigger] arguments@[j]) == r.arguments[j]),
        decreases items@.len() - k,
    {
        arguments.push(as_text(&items[k])?.clone());
        k = k + 1;
    }
    let entries = as_map(field(map, "environment")?)?;
    proof {
        if good {
            lemma_entries_of(entries@);
            assert forall|j: int| 0 <= j < entries@.len() implies string_bytes((#[trigger] entries@[j]).0) == c[j].0
                && entries@[j].1.item() == Item::Text(c[j].1) by {
                assert(entries_of(entries@)[j] == (string_bytes(entries@[j].0), entries@[j].1.item()));
            }
        }
    }
    let mut environment: Vec<(String, String)> = Vec::new();
    let mut k: usize = 0;
    while k < entries.len()
        invariant
            k <= entries@.len(),
            environment@.len() == k,
            good == (entries_of(map@) == install_entries(r) && install_message_ok(r)),
            c == canonical_env(r.environment),
            good ==> entries@.len() == c.len() && (forall|j: int|
                0 <= j < entries@.len() ==> string_bytes((#[trigger] entries@[j]).0) == c[j].0 && entries@[j].1.item()
                    == Item::Text(c[j].1)) && (forall|j: int|
                0 <= j < k ==> string_bytes((#[trigger] environment@[j]).0) == c[j].0 && string_bytes(
                    environment@[j].1,
                ) == c[j].1),
        decreases entries@.len() - k,
    {
        let value = as_text(&entries[k].1)?.clone();
        environment.push((entries[k].0.clone(), value));
        k = k + 1;
    }
    let rules = as_array(field(map, "filesystem")?)?;
    proof {
        if good {
            lemma_items_of(rules@);
            assert forall|j: int| 0 <= j < rules@.len() implies (#[trigger] rules@[j]).item() == rule_item(
                r.filesystem[j],
            ) by {
                assert(items_of(rules@)[j] == rules@[j].item());
            }
        }
    }
    let mut filesystem: Vec<LauncherFilesystemRule> = Vec::new();
    let mut k: usize = 0;
    while k < rules.len()
        invariant
            k <= rules@.len(),
            filesystem@.len() == k,
            good == (entries_of(map@) == install_entries(r) && install_message_ok(r)),
            c == canonical_env(r.environment),
            good ==> install_message_ok(r) && rules@.len() == r.filesystem.len() && (forall|j: int|
                0 <= j < rules@.len() ==> (#[trigger] rules@[j]).item() == rule_item(r.filesystem[j])) && (forall|
                j: int,
            | 0 <= j < k ==> (#[trigger] filesystem@[j]).model() == r.filesystem[j]),
        decreases rules@.len() - k,
    {
        proof {
            if good {
                assert(access_list_ok(r.filesystem[k as int].1));
                assert(3 <= r.filesystem[k as int].0 < r.close_from);
            }
        }
        filesystem.push(decode_filesystem_rule(&rules[k], Ghost(r.filesystem[k as int]))?);
        k = k + 1;
    }
    let seccomp_program = as_bytes(field(map, "seccomp_program")?)?;
    let seccomp_program = copy_vec(seccomp_program);
    let close_file_descriptors_from = as_u32(field(map, "close_file_descriptors_from")?)?;
    proof {
        if good {
            assert(string_models(arguments@) =~= r.arguments);
            assert(env_models(environment@) =~= c);
            assert(rule_models(filesystem@) =~= r.filesystem);
            lemma_canonical_env_entries(r);
            assert(distinct_descriptors(r.filesystem)) by {
                assert forall|a: int, b: int| 0 <= a < b < r.filesystem.len() implies (
                #[trigger] r.filesystem[a]).0 != (#[trigger] r.filesystem[b]).0 by {}
            }
        }
    }
    let result = InstallRequest::new(
        identity,
        executable_id,
        executable_fd,
        working_directory_fd,
        arguments,
        environment,
        filesystem,
        seccomp_program,
        close_file_descriptors_from,
    );
    match result {
        Ok(request) => {
            proof {
                use_type_invariant(&request);
                if good {
                    let m = request.model();
                    assert forall|x: (Seq<u8>, Seq<u8>)| m.environment.contains(x) <==> r.environment.contains(
                        x,
                    ) by {
                        assert(m.environment.contains(x) <==> c.contains(x));
                        assert(c.contains(x) <==> r.environment.contains(x));
                    }
                    lemma_sorted_members_unique(false, m.environment, r.environment);
                    lemma_sorted_rules_unique(m.filesystem, r.filesystem);
                    assert(m == r);
                }
            }
            Ok(request)
        },
        Err(e) => Err(e),
    }
}

fn copy_vec(b: &[u8]) -> (r: Vec<u8>)
    ensures
        r@ == b@,
{
    let mut out: Vec<u8> = Vec::new();
    let mut i: usize = 0;
    while i < b.len()
        invariant
            i <= b@.len(),
            out@ == b@.take(i as int),
        decreases b@.len() - i,
    {
        out.push(b[i]);
        assert(b@.take(i + 1) =~= b@.take(i as int).push(b@[i as int]));
        i = i + 1;
    }
    assert(b@.take(b@.len() as int) =~= b@);
    out
}

fn decode_boundary(map: &[(String, CborValue)], Ghost(id): Ghost<IdentityModel>) -> (r: Result<
    BoundaryInstalled,
    LauncherError,
>)
    ensures
        r matches Err(e) ==> e == LauncherError::Malformed,
        entries_of(map@) == message_item(MessageModel::Boundary(id))->TextMap_0 && identity_model_ok(id) ==> (r matches Ok(
            b,
        ) && b.identity_of().model() == id),
{
    let ghost es = message_item(MessageModel::Boundary(id))->TextMap_0;
    let ghost good = entries_of(map@) == es && identity_model_ok(id);
    proof {
        if good {
            lemma_boundary_item_ok(id);
            lemma_lookup_at(map@, es, 0);
            lemma_lookup_at(map@, es, 1);
            lemma_lookup_at(map@, es, 2);
            lemma_lookup_at(map@, es, 3);
            lemma_lookup_at(map@, es, 4);
        }
    }
    let keys: &[&str] = &["state", "schema", "cgroup_id", "policy_id", "execution_id"];
    proof {
        if good {
            lemma_keys_present(map@, es, keys@);
        }
    }
    require_keys(map, keys)?;
    if !text_is(as_text(field(map, "state")?)?, "installed") {
        return Err(LauncherError::Malformed);
    }
    Ok(BoundaryInstalled { identity: decode_identity(map, Ghost(es), Ghost(id), Ghost(4), Ghost(3), Ghost(2))? })
}

fn decode_failure(
    map: &[(String, CborValue)],
    Ghost(id): Ghost<IdentityModel>,
    Ghost(stage): Ghost<LauncherStage>,
    Ghost(code): Ghost<Seq<u8>>,
) -> (r: Result<LauncherFailure, LauncherError>)
    ensures
        r matches Err(e) ==> e == LauncherError::Malformed,
        entries_of(map@) == message_item(MessageModel::Failure(id, stage, code))->TextMap_0 && identity_model_ok(id)
            && failure_code_ok(code) && vstd::utf8::valid_utf8(code) ==> (r matches Ok(f) && f.identity_of().model()
            == id && f.stage_of() == stage && f.code_of() == code),
{
    let ghost es = message_item(MessageModel::Failure(id, stage, code))->TextMap_0;
    let ghost good = entries_of(map@) == es && identity_model_ok(id) && failure_code_ok(code)
        && vstd::utf8::valid_utf8(code);
    proof {
        if good {
            lemma_failure_item_ok(id, stage, code);
            lemma_lookup_at(map@, es, 0);
            lemma_lookup_at(map@, es, 1);
            lemma_lookup_at(map@, es, 2);
            lemma_lookup_at(map@, es, 3);
            lemma_lookup_at(map@, es, 4);
            lemma_lookup_at(map@, es, 5);
        }
    }
    let keys: &[&str] = &["stage", "schema", "cgroup_id", "policy_id", "error_code", "execution_id"];
    proof {
        if good {
            lemma_keys_present(map@, es, keys@);
        }
    }
    require_keys(map, keys)?;
    let identity = decode_identity(map, Ghost(es), Ghost(id), Ghost(5), Ghost(3), Ghost(2))?;
    let stage_text = as_text(field(map, "stage")?)?;
    proof {
        if good {
            vstd::utf8::encode_utf8_decode_utf8(stage_text@);
            vstd::utf8::encode_utf8_decode_utf8(stage_name(stage));
            lemma_stage_name_round_trip(stage);
        }
    }
    let parsed_stage = LauncherStage::parse(stage_text.as_str())?;
    LauncherFailure::new(identity, parsed_stage, as_text(field(map, "error_code")?)?.as_str())
}

/// Reads a message from its CBOR value: an unknown schema text is `UnsupportedVersion`,
/// every other departure from a closed version 1 message `Malformed`.
#[verifier::spinoff_prover]
#[verifier::rlimit(40)]
fn value_to_message(value: &CborValue, Ghost(m): Ghost<MessageModel>) -> (r: Result<LauncherMessage, LauncherError>)
    ensures
        r matches Err(e) ==> e == LauncherError::Malformed || e == LauncherError::UnsupportedVersion,
        value.item() == message_item(m) && message_model_ok(m) ==> (r matches Ok(x) && x.model() == m),
{
    let ghost good = value.item() == message_item(m) && message_model_ok(m);
    let map = as_map(value)?;
    proof {
        if good {
            lemma_message_item_ok(m);
            lemma_schema_literals();
            let si: int = if m is Install {
                0
            } else {
                1
            };
            lemma_lookup_at(map@, message_item(m)->TextMap_0, si);
        }
    }
    let schema = as_text(field(map, "schema")?)?;
    if text_is(schema, "proofbound-runtime-launcher-install/1") {
        Ok(LauncherMessage::Install(decode_install(map, Ghost(m->Install_0))?))
    } else if text_is(schema, "proofbound-runtime-launcher-boundary-installed/1") {
        Ok(LauncherMessage::BoundaryInstalled(decode_boundary(map, Ghost(m->Boundary_0))?))
    } else if text_is(schema, "proofbound-runtime-launcher-failure/1") {
        Ok(LauncherMessage::Failure(decode_failure(map, Ghost(m->Failure_0), Ghost(m->Failure_1), Ghost(m->Failure_2))?))
    } else {
        Err(LauncherError::UnsupportedVersion)
    }
}

/// Decodes one closed deterministic CBOR launcher message. A message is returned
/// only when the input is exactly its deterministic encoding, and the encoding of
/// every well-formed message that fits in one frame is read back as that message.
pub fn decode_launcher_message(input: &[u8]) -> (r: Result<LauncherMessage, LauncherError>)
    ensures
        input@.len() == 0 ==> r == Err::<LauncherMessage, LauncherError>(LauncherError::Eof),
        input@.len() > MAX_LAUNCHER_FRAME_BYTES ==> r == Err::<LauncherMessage, LauncherError>(
            LauncherError::FrameTooLarge,
        ),
        0 < input@.len() <= MAX_LAUNCHER_FRAME_BYTES ==> match parse_item(input@, 0, 0) {
            Err(e) => r == Err::<LauncherMessage, LauncherError>(e),
            Ok((_, q)) => q != input@.len() ==> r == Err::<LauncherMessage, LauncherError>(
                LauncherError::TrailingData,
            ),
        },
        r matches Ok(m) ==> input@ == message_bytes(m.model()),
        r matches Err(e) ==> e != LauncherError::DuplicateKey || parse_item(input@, 0, 0) == Err::<
            (Item, int),
            LauncherError,
        >(LauncherError::DuplicateKey),
        forall|m: MessageModel|
            message_model_ok(m) && #[trigger] message_bytes(m) == input@ && input@.len() <= MAX_LAUNCHER_FRAME_BYTES
                ==> (r matches Ok(x) && x.model() == m),
{
    let ghost good = (exists|m: MessageModel| message_model_ok(m) && #[trigger] message_bytes(m) == input@)
        && input@.len() <= MAX_LAUNCHER_FRAME_BYTES;
    let ghost m = choose|m: MessageModel| message_model_ok(m) && #[trigger] message_bytes(m) == input@;
    proof {
        if good {
            lemma_message_item_ok(m);
            assert(input@.subrange(0, input@.len() as int) =~= input@);
            lemma_parse_item_bytes(input@, 0, message_item(m), 0);
            assert(item_bytes(message_item(m)).len() >= 1);
            assert forall|m2: MessageModel| message_model_ok(m2) && #[trigger] message_bytes(m2) == input@ implies m2
                == m by {
                lemma_message_item_ok(m2);
                lemma_parse_item_bytes(input@, 0, message_item(m2), 0);
                lemma_message_item_injective(m2, m);
            }
        }
    }
    if input.len() == 0 {
        return Err(LauncherError::Eof);
    }
    if input.len() > MAX_LAUNCHER_FRAME_BYTES {
        return Err(LauncherError::FrameTooLarge);
    }
    let mut decoder = Decoder::new(input);
    let value = decoder.value(0)?;
    if decoder.position() != input.len() {
        return Err(LauncherError::TrailingData);
    }
    let message = value_to_message(&value, Ghost(m))?;
    let canonical = encode_launcher_message(&message)?;
    if !crate::text::bytes_equal(canonical.as_slice(), input) {
        return Err(LauncherError::NonCanonical);
    }
    Ok(message)
}

} // verus!
