//! Shared execution identities, artifact identities and resource limits.
use vstd::prelude::*;

verus! {

/// The smallest accepted memory limit and the quantum of memory and swap limits.
pub const RESOURCE_QUANTUM: u64 = 65_536;

/// The largest accepted memory or swap limit (one tebibyte).
pub const MAX_RESOURCE_BYTES: u64 = 1_099_511_627_776;

/// An RFC 4122 version 4 identifier: version nibble 4 and variant bits `10`.
pub open spec fn is_version4(bytes: Seq<u8>) -> bool {
    bytes.len() == 16 && bytes[6] / 16 == 4 && bytes[8] / 64 == 2
}

/// A fresh version 4 execution identity.
#[derive(Clone, Copy, Debug, PartialEq, Eq)]
pub struct ExecutionId([u8; 16]);

impl ExecutionId {
    #[verifier::type_invariant]
    spec fn well_formed(self) -> bool {
        is_version4(self.0@)
    }

    /// The identifier bytes.
    pub closed spec fn bytes(self) -> Seq<u8> {
        self.0@
    }

    /// Accepts exactly the version 4 identifiers.
    pub fn from_bytes(bytes: [u8; 16]) -> (r: Option<Self>)
        ensures
            r is Some <==> is_version4(bytes@),
            r matches Some(id) ==> id.bytes() == bytes@,
    {
        if bytes[6] / 16 == 4 && bytes[8] / 64 == 2 {
            Some(ExecutionId(bytes))
        } else {
            None
        }
    }

    /// Wraps bytes already known to form a version 4 identifier.
    pub fn from_version4(bytes: [u8; 16]) -> (r: Self)
        requires
            is_version4(bytes@),
        ensures
            r.bytes() == bytes@,
    {
        ExecutionId(bytes)
    }

    /// Reports whether two identifiers hold the same bytes.
    pub fn same(&self, other: &Self) -> (r: bool)
        ensures
            r == (self.bytes() == other.bytes()),
    {
        crate::text::bytes_equal(&self.0, &other.0)
    }

    /// Returns the identifier bytes.
    pub fn as_bytes(&self) -> (r: &[u8; 16])
        ensures
            r@ == self.bytes(),
            is_version4(r@),
    {
        proof {
            use_type_invariant(self);
        }
        &self.0
    }
}

/// A SHA-256 digest.
#[derive(Clone, Copy, Debug, PartialEq, Eq)]
pub struct Sha256Digest([u8; 32]);

impl Sha256Digest {
    /// The digest bytes.
    pub closed spec fn bytes(self) -> Seq<u8> {
        self.0@
    }

    /// Wraps 32 digest bytes.
    pub fn from_bytes(bytes: [u8; 32]) -> (r: Self)
        ensures
            r.bytes() == bytes@,
    {
        Sha256Digest(bytes)
    }

    /// Reports whether two digests hold the same bytes.
    pub fn same(&self, other: &Self) -> (r: bool)
        ensures
            r == (self.bytes() == other.bytes()),
    {
        crate::text::bytes_equal(&self.0, &other.0)
    }

    /// Returns the digest bytes.
    pub fn as_bytes(&self) -> (r: &[u8; 32])
        ensures
            r@ == self.bytes(),
    {
        &self.0
    }
}

/// The mount-and-inode identity of one cgroup directory.
#[derive(Clone, Copy, Debug, PartialEq, Eq, Structural)]
pub struct CgroupIdentity {
    mount_id: u64,
    inode: u64,
}

impl CgroupIdentity {
    pub closed spec fn mount_of(self) -> u64 {
        self.mount_id
    }

    pub closed spec fn inode_of(self) -> u64 {
        self.inode
    }

    /// Creates one identity from its mount identifier and inode number.
    pub fn new(mount_id: u64, inode: u64) -> (r: Self)
        ensures
            r.mount_of() == mount_id,
            r.inode_of() == inode,
    {
        CgroupIdentity { mount_id, inode }
    }

    /// Returns the mount identifier.
    pub fn mount_id(self) -> (r: u64)
        ensures
            r == self.mount_of(),
    {
        self.mount_id
    }

    /// Returns the inode number.
    pub fn inode(self) -> (r: u64)
        ensures
            r == self.inode_of(),
    {
        self.inode
    }
}

/// The registered role of one measured artifact.
#[derive(Clone, Copy, Debug, PartialEq, Eq, Structural)]
pub enum ArtifactRole {
    ProjectInput,
    RuntimeExecutable,
    RuntimeLoaderExecutable,
    RuntimeLibrary,
    WorkingDirectory,
    OutputRoot,
    OutputArtifact,
    LauncherBinary,
    ExecutionPlan,
}

/// The wire name of each artifact role.
pub open spec fn artifact_role_name(role: ArtifactRole) -> Seq<char> {
    match role {
        ArtifactRole::ProjectInput => "project-input"@,
        ArtifactRole::RuntimeExecutable => "runtime-executable"@,
        ArtifactRole::RuntimeLoaderExecutable => "runtime-loader-executable"@,
        ArtifactRole::RuntimeLibrary => "runtime-library"@,
        ArtifactRole::WorkingDirectory => "working-directory"@,
        ArtifactRole::OutputRoot => "output-root"@,
        ArtifactRole::OutputArtifact => "output-artifact"@,
        ArtifactRole::LauncherBinary => "launcher-binary"@,
        ArtifactRole::ExecutionPlan => "execution-plan"@,
    }
}

impl ArtifactRole {
    /// Returns the wire name of the role.
    pub fn as_str(self) -> (r: &'static str)
        ensures
            r@ == artifact_role_name(self),
    {
        match self {
            ArtifactRole::ProjectInput => "project-input",
            ArtifactRole::RuntimeExecutable => "runtime-executable",
            ArtifactRole::RuntimeLoaderExecutable => "runtime-loader-executable",
            ArtifactRole::RuntimeLibrary => "runtime-library",
            ArtifactRole::WorkingDirectory => "working-directory",
            ArtifactRole::OutputRoot => "output-root",
            ArtifactRole::OutputArtifact => "output-artifact",
            ArtifactRole::LauncherBinary => "launcher-binary",
            ArtifactRole::ExecutionPlan => "execution-plan",
        }
    }
}

/// The largest Unix mode value: permission, set-id and sticky bits.
pub const MAX_FILE_MODE: u16 = 0o7777;

/// Unix permission, set-id and sticky mode bits.
#[derive(Clone, Copy, Debug, PartialEq, Eq, Structural)]
pub struct FileMode(u16);

impl FileMode {
    #[verifier::type_invariant]
    spec fn well_formed(self) -> bool {
        self.0 <= MAX_FILE_MODE
    }

    pub closed spec fn bits(self) -> u16 {
        self.0
    }

    /// Accepts the mode bits that fit in `0o7777`.
    pub fn new(mode: u16) -> (r: Option<Self>)
        ensures
            r is Some <==> mode <= MAX_FILE_MODE,
            r matches Some(m) ==> m.bits() == mode,
    {
        if mode <= MAX_FILE_MODE {
            Some(FileMode(mode))
        } else {
            None
        }
    }

    /// Returns the mode bits.
    pub fn get(self) -> (r: u16)
        ensures
            r == self.bits(),
            r <= MAX_FILE_MODE,
    {
        proof {
            use_type_invariant(&self);
        }
        self.0
    }
}

/// The measured identity of one artifact.
#[derive(Clone, Copy, Debug, PartialEq, Eq)]
pub struct ArtifactIdentity {
    role: ArtifactRole,
    digest: Sha256Digest,
    size: u64,
    mode: FileMode,
}

impl ArtifactIdentity {
    pub closed spec fn role_of(self) -> ArtifactRole {
        self.role
    }

    pub closed spec fn digest_of(self) -> Sha256Digest {
        self.digest
    }

    pub closed spec fn size_of(self) -> u64 {
        self.size
    }

    pub closed spec fn mode_of(self) -> FileMode {
        self.mode
    }

    /// Creates one identity.
    pub fn new(role: ArtifactRole, digest: Sha256Digest, size: u64, mode: FileMode) -> (r: Self)
        ensures
            r.role_of() == role,
            r.digest_of() == digest,
            r.size_of() == size,
            r.mode_of() == mode,
    {
        ArtifactIdentity { role, digest, size, mode }
    }

    /// Returns the role.
    pub fn role(self) -> (r: ArtifactRole)
        ensures
            r == self.role_of(),
    {
        self.role
    }

    /// Returns the complete-file digest.
    pub fn digest(self) -> (r: Sha256Digest)
        ensures
            r == self.digest_of(),
    {
        self.digest
    }

    /// Returns the file size in bytes.
    pub fn size(self) -> (r: u64)
        ensures
            r == self.size_of(),
    {
        self.size
    }

    /// Returns the mode bits.
    pub fn mode(self) -> (r: FileMode)
        ensures
            r == self.mode_of(),
    {
        self.mode
    }

    /// Reports whether two identities agree in role, digest, size and mode.
    pub fn same(&self, other: &Self) -> (r: bool)
        ensures
            r == (*self == *other),
    {
        let digests = self.digest.same(&other.digest);
        proof {
            if digests {
                assert(self.digest.0 =~= other.digest.0) by {
                    assert forall|i: int| 0 <= i < 32 implies self.digest.0[i] == other.digest.0[i] by {
                        assert(self.digest.0@[i] == other.digest.0@[i]);
                    }
                }
            }
        }
        self.role == other.role && digests && self.size == other.size && self.mode.get() == other.mode.get()
    }
}

/// A nonzero process limit.
#[derive(Clone, Copy, Debug, PartialEq, Eq, Structural)]
pub struct ProcessLimit(u32);

impl ProcessLimit {
    #[verifier::type_invariant]
    spec fn well_formed(self) -> bool {
        self.0 != 0
    }

    pub closed spec fn value(self) -> u32 {
        self.0
    }

    /// Accepts any nonzero limit.
    pub fn new(value: u32) -> (r: Option<Self>)
        ensures
            r is Some <==> value != 0,
            r matches Some(l) ==> l.value() == value,
    {
        if value == 0 {
            None
        } else {
            Some(ProcessLimit(value))
        }
    }

    /// Returns the limit.
    pub fn get(self) -> (r: u32)
        ensures
            r == self.value(),
            r != 0,
    {
        proof {
            use_type_invariant(&self);
        }
        self.0
    }
}

/// A valid memory limit: a positive multiple of the quantum, at most one tebibyte.
pub open spec fn valid_memory_bytes(value: u64) -> bool {
    RESOURCE_QUANTUM <= value <= MAX_RESOURCE_BYTES && value % RESOURCE_QUANTUM == 0
}

/// A valid swap limit: a multiple of the quantum, at most one tebibyte.
pub open spec fn valid_swap_bytes(value: u64) -> bool {
    value <= MAX_RESOURCE_BYTES && value % RESOURCE_QUANTUM == 0
}

/// A validated memory limit in bytes.
#[derive(Clone, Copy, Debug, PartialEq, Eq, Structural)]
pub struct MemoryByteLimit(u64);

impl MemoryByteLimit {
    #[verifier::type_invariant]
    spec fn well_formed(self) -> bool {
        valid_memory_bytes(self.0)
    }

    pub closed spec fn value(self) -> u64 {
        self.0
    }

    /// Accepts exactly the valid memory limits.
    pub fn new(value: u64) -> (r: Option<Self>)
        ensures
            r is Some <==> valid_memory_bytes(value),
            r matches Some(l) ==> l.value() == value,
    {
        if RESOURCE_QUANTUM <= value && value <= MAX_RESOURCE_BYTES && value % RESOURCE_QUANTUM == 0 {
            Some(MemoryByteLimit(value))
        } else {
            None
        }
    }

    /// Returns the limit in bytes.
    pub fn get(self) -> (r: u64)
        ensures
            r == self.value(),
            valid_memory_bytes(r),
    {
        proof {
            use_type_invariant(&self);
        }
        self.0
    }
}

/// A validated swap limit in bytes.
#[derive(Clone, Copy, Debug, PartialEq, Eq, Structural)]
pub struct SwapByteLimit(u64);

impl SwapByteLimit {
    #[verifier::type_invariant]
    spec fn well_formed(self) -> bool {
        valid_swap_bytes(self.0)
    }

    pub closed spec fn value(self) -> u64 {
        self.0
    }

    /// Accepts exactly the valid swap limits.
    pub fn new(value: u64) -> (r: Option<Self>)
        ensures
            r is Some <==> valid_swap_bytes(value),
            r matches Some(l) ==> l.value() == value,
    {
        if value <= MAX_RESOURCE_BYTES && value % RESOURCE_QUANTUM == 0 {
            Some(SwapByteLimit(value))
        } else {
            None
        }
    }

    /// Returns the limit in bytes.
    pub fn get(self) -> (r: u64)
        ensures
            r == self.value(),
            valid_swap_bytes(r),
    {
        proof {
            use_type_invariant(&self);
        }
        self.0
    }
}

/// The per-execution resource limits; version 2 adds the memory and swap bounds.
#[derive(Clone, Copy, Debug, PartialEq, Eq, Structural)]
pub struct ResourceLimits {
    processes: ProcessLimit,
    wall_time_ms: u64,
    stdout_bytes: u64,
    stderr_bytes: u64,
    memory: Option<MemoryByteLimit>,
    swap: Option<SwapByteLimit>,
}

impl ResourceLimits {
    pub closed spec fn processes_of(self) -> ProcessLimit {
        self.processes
    }

    pub closed spec fn memory_of(self) -> Option<MemoryByteLimit> {
        self.memory
    }

    pub closed spec fn swap_of(self) -> Option<SwapByteLimit> {
        self.swap
    }

    /// Creates version 1 limits without memory or swap bounds.
    pub fn new(processes: ProcessLimit, wall_time_ms: u64, stdout_bytes: u64, stderr_bytes: u64) -> (r:
        Self)
        ensures
            r.processes_of() == processes,
            r.memory_of() is None,
            r.swap_of() is None,
    {
        ResourceLimits { processes, wall_time_ms, stdout_bytes, stderr_bytes, memory: None, swap: None }
    }

    /// Creates version 2 limits with memory and swap bounds.
    pub fn new_v2(
        processes: ProcessLimit,
        wall_time_ms: u64,
        stdout_bytes: u64,
        stderr_bytes: u64,
        memory: MemoryByteLimit,
        swap: SwapByteLimit,
    ) -> (r: Self)
        ensures
            r.processes_of() == processes,
            r.memory_of() == Some(memory),
            r.swap_of() == Some(swap),
    {
        ResourceLimits {
            processes,
            wall_time_ms,
            stdout_bytes,
            stderr_bytes,
            memory: Some(memory),
            swap: Some(swap),
        }
    }

    /// Returns the process limit.
    pub fn processes(self) -> (r: ProcessLimit)
        ensures
            r == self.processes_of(),
    {
        self.processes
    }

    /// Returns the memory limit, if any.
    pub fn memory(self) -> (r: Option<MemoryByteLimit>)
        ensures
            r == self.memory_of(),
    {
        self.memory
    }

    /// Returns the swap limit, if any.
    pub fn swap(self) -> (r: Option<SwapByteLimit>)
        ensures
            r == self.swap_of(),
    {
        self.swap
    }
}

} // verus!
