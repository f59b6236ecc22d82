//! The diagnostic trace: process identities and limits, the closed vocabulary of
//! observed events, the architecture-qualified system-call decoder, and the parsers
//! the observer applies to kernel-reported text and registers.
use vstd::prelude::*;
use vstd::string::StringSliceAdditionalSpecFns;

use crate::text::{bytes_equal, copy_range, lines, next_line, unsigned_digits, unsigned_text, decimal_value};

verus! {

/// The largest retained process count of one trace.
pub const MAX_TRACE_PROCESS_LIMIT: u32 = 4096;

/// The largest path or tracee-string read bound, in bytes.
pub const MAX_TRACE_PATH_BYTES: u32 = 1048576;

/// The largest socket-address read bound, in bytes.
pub const MAX_TRACE_SOCKET_ADDRESS_BYTES: u32 = 4096;

/// The Linux audit architecture value of 64-bit Arm.
pub const AUDIT_ARCH_AARCH64: u32 = 0xc000_00b7;

/// The Linux audit architecture value of x86-64.
pub const AUDIT_ARCH_X86_64: u32 = 0xc000_003e;

/// The bit that marks an x32 system-call number on x86-64.
pub const X32_SYSCALL_BIT: u64 = 0x4000_0000;

/// Identifies one fail-closed active-trace observation error.
#[derive(Clone, Copy, Debug, PartialEq, Eq, Structural)]
pub enum TraceObservationError {
    /// Active trace observation is unavailable on this operating system.
    UnsupportedOperatingSystem,
    /// An active trace cannot continue until the process tree is drained.
    DrainRequired,
    /// The tree was already empty before another event was requested.
    ProcessTreeDrained,
    /// One process identity was outside the Linux positive PID range.
    ProcessIdentityInvalid,
    /// A wait result changed identity outside a validated exec transition.
    ProcessIdentityChanged,
    /// One new child reused a live process identity.
    ProcessIdentityDuplicate,
    /// A process-tree event could not be retained and reconciled exactly.
    TreeReconciliationFailed,
    /// The retained process set exceeded its closed drain capacity.
    ProcessCapacityExceeded,
    /// An event referred to a process outside the exact known tree.
    ProcessUnknown,
    /// A new child reached a syscall stop before its mandatory initial stop.
    InitialStopMissing,
    /// The exact wait operation failed.
    WaitFailed,
    /// No complete event arrived before the deadline.
    WaitTimedOut,
    /// A stopped tracee could not resume at the next syscall boundary.
    ResumeFailed,
    /// The kernel event message was unavailable or invalid.
    EventMessageInvalid,
    /// System-call information was unavailable or outside the closed format.
    SyscallInformationInvalid,
    /// The Linux audit architecture has no registered decoder.
    ArchitectureUnsupported,
    /// A registered system-call family used an unsupported ABI form.
    SyscallFormUnsupported,
    /// A stopped tracee operand could not be read completely.
    TraceeMemoryReadFailed,
    /// A tracee string had no terminator within its read bound.
    TraceeStringLimitExceeded,
    /// A retained path exceeded its independent byte bound.
    PathLimitExceeded,
    /// A socket address exceeded its independent byte bound.
    SocketAddressLimitExceeded,
    /// System-call entry and exit stops were not paired.
    SyscallOrderInvalid,
    /// A process identity handle could not be created.
    ProcessHandleFailed,
    /// A tracee thread-group identity was absent or invalid.
    ThreadGroupInvalid,
    /// The known process tree could not be drained.
    DrainFailed,
    /// The known process tree did not drain before the deadline.
    DrainTimedOut,
}

/// Identifies one fail-closed diagnostic trace-start failure.
#[derive(Clone, Copy, Debug, PartialEq, Eq, Structural)]
pub enum TraceStartupError {
    /// The host operating system is not Linux.
    UnsupportedOperatingSystem,
    /// A process identifier is outside the Linux positive PID range.
    ProcessIdInvalid,
    /// The retained process limit is zero or exceeds the diagnostic maximum.
    ProcessLimitInvalid,
    /// A tracee-operand capture limit is zero or exceeds its maximum.
    CaptureLimitInvalid,
    /// The absolute trace deadline is zero or cannot be represented.
    DeadlineInvalid,
    /// An inherited descriptor is standard, invalid, or duplicated.
    DescriptorSetInvalid,
    /// The launcher is not one exact executable launcher artifact.
    LauncherIdentityInvalid,
    /// The private launcher channel pair could not be created.
    ChannelCreationFailed,
    /// The prepared traced launcher could not be spawned.
    SpawnFailed,
    /// The traced process status could not be read.
    WaitFailed,
    /// The traced process did not stop before the deadline.
    WaitTimedOut,
    /// The traced process exited before the required setup stop.
    TraceeExited,
    /// The traced process stopped with an unexpected signal or event.
    StopInvalid,
    /// The tracee could not be resumed without signal injection.
    ResumeFailed,
    /// The acknowledged launcher could not be stopped before release.
    StopFailed,
    /// The exact install request could not be sent on the retained channel.
    InstallSendFailed,
    /// The boundary acknowledgement did not arrive before the deadline.
    AcknowledgementTimedOut,
    /// The retained channel could not return a boundary acknowledgement.
    AcknowledgementReceiveFailed,
    /// The retained channel returned a different launcher message.
    AcknowledgementInvalid,
    /// The boundary acknowledgement identities did not match.
    BoundaryIdentityMismatch,
    /// The launcher reported a typed failure instead of an acknowledgement.
    LauncherReportedFailure,
    /// The exact diagnostic trace options could not be installed.
    OptionsInstallFailed,
    /// The identity-bound exec release could not be sent.
    ReleaseSendFailed,
    /// The root process identity handle could not be created.
    ProcessHandleFailed,
}

/// The stable machine-readable code of each trace observation error.
pub open spec fn trace_observation_code(e: TraceObservationError) -> Seq<char> {
    match e {
        TraceObservationError::UnsupportedOperatingSystem => "diagnostic.trace.observation.os.unsupported"@,
        TraceObservationError::DrainRequired => "diagnostic.trace.drain-required"@,
        TraceObservationError::ProcessTreeDrained => "diagnostic.trace.process-tree-drained"@,
        TraceObservationError::ProcessIdentityInvalid => "diagnostic.trace.process-identity.invalid"@,
        TraceObservationError::ProcessIdentityChanged => "diagnostic.trace.process-identity.changed"@,
        TraceObservationError::ProcessIdentityDuplicate => "diagnostic.trace.process-identity.duplicate"@,
        TraceObservationError::TreeReconciliationFailed => "diagnostic.trace.tree-reconciliation.failed"@,
        TraceObservationError::ProcessCapacityExceeded => "diagnostic.trace.process-capacity.exceeded"@,
        TraceObservationError::ProcessUnknown => "diagnostic.trace.process.unknown"@,
        TraceObservationError::InitialStopMissing => "diagnostic.trace.initial-stop.missing"@,
        TraceObservationError::WaitFailed => "diagnostic.trace.event-wait.failed"@,
        TraceObservationError::WaitTimedOut => "diagnostic.trace.event-wait.timed-out"@,
        TraceObservationError::ResumeFailed => "diagnostic.trace.event-resume.failed"@,
        TraceObservationError::EventMessageInvalid => "diagnostic.trace.event-message.invalid"@,
        TraceObservationError::SyscallInformationInvalid => "diagnostic.trace.syscall-information.invalid"@,
        TraceObservationError::ArchitectureUnsupported => "diagnostic.trace.architecture.unsupported"@,
        TraceObservationError::SyscallFormUnsupported => "diagnostic.trace.syscall-form.unsupported"@,
        TraceObservationError::TraceeMemoryReadFailed => "diagnostic.trace.tracee-memory.read-failed"@,
        TraceObservationError::TraceeStringLimitExceeded => "diagnostic.trace.tracee-string.limit-exceeded"@,
        TraceObservationError::PathLimitExceeded => "diagnostic.trace.path.limit-exceeded"@,
        TraceObservationError::SocketAddressLimitExceeded => "diagnostic.trace.socket-address.limit-exceeded"@,
        TraceObservationError::SyscallOrderInvalid => "diagnostic.trace.syscall-order.invalid"@,
        TraceObservationError::ProcessHandleFailed => "diagnostic.trace.process-handle.failed"@,
        TraceObservationError::ThreadGroupInvalid => "diagnostic.trace.thread-group.invalid"@,
        TraceObservationError::DrainFailed => "diagnostic.trace.drain.failed"@,
        TraceObservationError::DrainTimedOut => "diagnostic.trace.drain.timed-out"@,
    }
}

impl TraceObservationError {
    /// Returns the stable machine-readable error code.
    pub fn code(self) -> (r: &'static str)
        ensures
            r@ == trace_observation_code(self),
    {
        match self {
            TraceObservationError::UnsupportedOperatingSystem => "diagnostic.trace.observation.os.unsupported",
            TraceObservationError::DrainRequired => "diagnostic.trace.drain-required",
            TraceObservationError::ProcessTreeDrained => "diagnostic.trace.process-tree-drained",
            TraceObservationError::ProcessIdentityInvalid => "diagnostic.trace.process-identity.invalid",
            TraceObservationError::ProcessIdentityChanged => "diagnostic.trace.process-identity.changed",
            TraceObservationError::ProcessIdentityDuplicate => "diagnostic.trace.process-identity.duplicate",
            TraceObservationError::TreeReconciliationFailed => "diagnostic.trace.tree-reconciliation.failed",
            TraceObservationError::ProcessCapacityExceeded => "diagnostic.trace.process-capacity.exceeded",
            TraceObservationError::ProcessUnknown => "diagnostic.trace.process.unknown",
            TraceObservationError::InitialStopMissing => "diagnostic.trace.initial-stop.missing",
            TraceObservationError::WaitFailed => "diagnostic.trace.event-wait.failed",
            TraceObservationError::WaitTimedOut => "diagnostic.trace.event-wait.timed-out",
            TraceObservationError::ResumeFailed => "diagnostic.trace.event-resume.failed",
            TraceObservationError::EventMessageInvalid => "diagnostic.trace.event-message.invalid",
            TraceObservationError::SyscallInformationInvalid => "diagnostic.trace.syscall-information.invalid",
            TraceObservationError::ArchitectureUnsupported => "diagnostic.trace.architecture.unsupported",
            TraceObservationError::SyscallFormUnsupported => "diagnostic.trace.syscall-form.unsupported",
            TraceObservationError::TraceeMemoryReadFailed => "diagnostic.trace.tracee-memory.read-failed",
            TraceObservationError::TraceeStringLimitExceeded => "diagnostic.trace.tracee-string.limit-exceeded",
            TraceObservationError::PathLimitExceeded => "diagnostic.trace.path.limit-exceeded",
            TraceObservationError::SocketAddressLimitExceeded => "diagnostic.trace.socket-address.limit-exceeded",
            TraceObservationError::SyscallOrderInvalid => "diagnostic.trace.syscall-order.invalid",
            TraceObservationError::ProcessHandleFailed => "diagnostic.trace.process-handle.failed",
            TraceObservationError::ThreadGroupInvalid => "diagnostic.trace.thread-group.invalid",
            TraceObservationError::DrainFailed => "diagnostic.trace.drain.failed",
            TraceObservationError::DrainTimedOut => "diagnostic.trace.drain.timed-out",
        }
    }
}

/// Distinct trace observation errors have distinct codes.
pub proof fn lemma_trace_observation_codes_distinct(a: TraceObservationError, b: TraceObservationError)
    requires
        a != b,
    ensures
        trace_observation_code(a) != trace_observation_code(b),
{
    reveal_strlit("diagnostic.trace.observation.os.unsupported");
    reveal_strlit("diagnostic.trace.drain-required");
    reveal_strlit("diagnostic.trace.process-tree-drained");
    reveal_strlit("diagnostic.trace.process-identity.invalid");
    reveal_strlit("diagnostic.trace.process-identity.changed");
    reveal_strlit("diagnostic.trace.process-identity.duplicate");
    reveal_strlit("diagnostic.trace.tree-reconciliation.failed");
    reveal_strlit("diagnostic.trace.process-capacity.exceeded");
    reveal_strlit("diagnostic.trace.process.unknown");
    reveal_strlit("diagnostic.trace.initial-stop.missing");
    reveal_strlit("diagnostic.trace.event-wait.failed");
    reveal_strlit("diagnostic.trace.event-wait.timed-out");
    reveal_strlit("diagnostic.trace.event-resume.failed");
    reveal_strlit("diagnostic.trace.event-message.invalid");
    reveal_strlit("diagnostic.trace.syscall-information.invalid");
    reveal_strlit("diagnostic.trace.architecture.unsupported");
    reveal_strlit("diagnostic.trace.syscall-form.unsupported");
    reveal_strlit("diagnostic.trace.tracee-memory.read-failed");
    reveal_strlit("diagnostic.trace.tracee-string.limit-exceeded");
    reveal_strlit("diagnostic.trace.path.limit-exceeded");
    reveal_strlit("diagnostic.trace.socket-address.limit-exceeded");
    reveal_strlit("diagnostic.trace.syscall-order.invalid");
    reveal_strlit("diagnostic.trace.process-handle.failed");
    reveal_strlit("diagnostic.trace.thread-group.invalid");
    reveal_strlit("diagnostic.trace.drain.failed");
    reveal_strlit("diagnostic.trace.drain.timed-out");
    let ca = trace_observation_code(a);
    let cb = trace_observation_code(b);
    if ca.len() == cb.len() {
        assert(ca[17] != cb[17] || ca[34] != cb[34]);
    }
}


/// The stable machine-readable code of each trace startup error.
pub open spec fn trace_startup_code(e: TraceStartupError) -> Seq<char> {
    match e {
        TraceStartupError::UnsupportedOperatingSystem => "diagnostic.trace.os.unsupported"@,
        TraceStartupError::ProcessIdInvalid => "diagnostic.trace.process-id.invalid"@,
        TraceStartupError::ProcessLimitInvalid => "diagnostic.trace.process-limit.invalid"@,
        TraceStartupError::CaptureLimitInvalid => "diagnostic.trace.capture-limit.invalid"@,
        TraceStartupError::DeadlineInvalid => "diagnostic.trace.deadline.invalid"@,
        TraceStartupError::DescriptorSetInvalid => "diagnostic.trace.descriptor-set.invalid"@,
        TraceStartupError::LauncherIdentityInvalid => "diagnostic.trace.launcher-identity.invalid"@,
        TraceStartupError::ChannelCreationFailed => "diagnostic.trace.channel.creation-failed"@,
        TraceStartupError::SpawnFailed => "diagnostic.trace.spawn.failed"@,
        TraceStartupError::WaitFailed => "diagnostic.trace.wait.failed"@,
        TraceStartupError::WaitTimedOut => "diagnostic.trace.wait.timed-out"@,
        TraceStartupError::TraceeExited => "diagnostic.trace.tracee.exited"@,
        TraceStartupError::StopInvalid => "diagnostic.trace.stop.invalid"@,
        TraceStartupError::ResumeFailed => "diagnostic.trace.resume.failed"@,
        TraceStartupError::StopFailed => "diagnostic.trace.stop.failed"@,
        TraceStartupError::InstallSendFailed => "diagnostic.trace.install.send-failed"@,
        TraceStartupError::AcknowledgementTimedOut => "diagnostic.trace.acknowledgement.timed-out"@,
        TraceStartupError::AcknowledgementReceiveFailed => "diagnostic.trace.acknowledgement.receive-failed"@,
        TraceStartupError::AcknowledgementInvalid => "diagnostic.trace.acknowledgement.invalid"@,
        TraceStartupError::BoundaryIdentityMismatch => "diagnostic.trace.boundary-identity.mismatch"@,
        TraceStartupError::LauncherReportedFailure => "diagnostic.trace.launcher.reported-failure"@,
        TraceStartupError::OptionsInstallFailed => "diagnostic.trace.options.install-failed"@,
        TraceStartupError::ReleaseSendFailed => "diagnostic.trace.release.send-failed"@,
        TraceStartupError::ProcessHandleFailed => "diagnostic.trace.process-handle.failed"@,
    }
}

impl TraceStartupError {
    /// Returns the stable machine-readable error code.
    pub fn code(self) -> (r: &'static str)
        ensures
            r@ == trace_startup_code(self),
    {
        match self {
            TraceStartupError::UnsupportedOperatingSystem => "diagnostic.trace.os.unsupported",
            TraceStartupError::ProcessIdInvalid => "diagnostic.trace.process-id.invalid",
            TraceStartupError::ProcessLimitInvalid => "diagnostic.trace.process-limit.invalid",
            TraceStartupError::CaptureLimitInvalid => "diagnostic.trace.capture-limit.invalid",
            TraceStartupError::DeadlineInvalid => "diagnostic.trace.deadline.invalid",
            TraceStartupError::DescriptorSetInvalid => "diagnostic.trace.descriptor-set.invalid",
            TraceStartupError::LauncherIdentityInvalid => "diagnostic.trace.launcher-identity.invalid",
            TraceStartupError::ChannelCreationFailed => "diagnostic.trace.channel.creation-failed",
            TraceStartupError::SpawnFailed => "diagnostic.trace.spawn.failed",
            TraceStartupError::WaitFailed => "diagnostic.trace.wait.failed",
            TraceStartupError::WaitTimedOut => "diagnostic.trace.wait.timed-out",
            TraceStartupError::TraceeExited => "diagnostic.trace.tracee.exited",
            TraceStartupError::StopInvalid => "diagnostic.trace.stop.invalid",
            TraceStartupError::ResumeFailed => "diagnostic.trace.resume.failed",
            TraceStartupError::StopFailed => "diagnostic.trace.stop.failed",
            TraceStartupError::InstallSendFailed => "diagnostic.trace.install.send-failed",
            TraceStartupError::AcknowledgementTimedOut => "diagnostic.trace.acknowledgement.timed-out",
            TraceStartupError::AcknowledgementReceiveFailed => "diagnostic.trace.acknowledgement.receive-failed",
            TraceStartupError::AcknowledgementInvalid => "diagnostic.trace.acknowledgement.invalid",
            TraceStartupError::BoundaryIdentityMismatch => "diagnostic.trace.boundary-identity.mismatch",
            TraceStartupError::LauncherReportedFailure => "diagnostic.trace.launcher.reported-failure",
            TraceStartupError::OptionsInstallFailed => "diagnostic.trace.options.install-failed",
            TraceStartupError::ReleaseSendFailed => "diagnostic.trace.release.send-failed",
            TraceStartupError::ProcessHandleFailed => "diagnostic.trace.process-handle.failed",
        }
    }
}

/// Distinct trace startup errors have distinct codes.
pub proof fn lemma_trace_startup_codes_distinct(a: TraceStartupError, b: TraceStartupError)
    requires
        a != b,
    ensures
        trace_startup_code(a) != trace_startup_code(b),
{
    reveal_strlit("diagnostic.trace.os.unsupported");
    reveal_strlit("diagnostic.trace.process-id.invalid");
    reveal_strlit("diagnostic.trace.process-limit.invalid");
    reveal_strlit("diagnostic.trace.capture-limit.invalid");
    reveal_strlit("diagnostic.trace.deadline.invalid");
    reveal_strlit("diagnostic.trace.descriptor-set.invalid");
    reveal_strlit("diagnostic.trace.launcher-identity.invalid");
    reveal_strlit("diagnostic.trace.channel.creation-failed");
    reveal_strlit("diagnostic.trace.spawn.failed");
    reveal_strlit("diagnostic.trace.wait.failed");
    reveal_strlit("diagnostic.trace.wait.timed-out");
    reveal_strlit("diagnostic.trace.tracee.exited");
    reveal_strlit("diagnostic.trace.stop.invalid");
    reveal_strlit("diagnostic.trace.resume.failed");
    reveal_strlit("diagnostic.trace.stop.failed");
    reveal_strlit("diagnostic.trace.install.send-failed");
    reveal_strlit("diagnostic.trace.acknowledgement.timed-out");
    reveal_strlit("diagnostic.trace.acknowledgement.receive-failed");
    reveal_strlit("diagnostic.trace.acknowledgement.invalid");
    reveal_strlit("diagnostic.trace.boundary-identity.mismatch");
    reveal_strlit("diagnostic.trace.launcher.reported-failure");
    reveal_strlit("diagnostic.trace.options.install-failed");
    reveal_strlit("diagnostic.trace.release.send-failed");
    reveal_strlit("diagnostic.trace.process-handle.failed");
    let ca = trace_startup_code(a);
    let cb = trace_startup_code(b);
    if ca.len() == cb.len() {
        assert(ca[18] != cb[18] || ca[25] != cb[25]);
    }
}


/// Identifies one Linux process that can enter the trace protocol.
#[derive(Clone, Copy, Debug, PartialEq, Eq, PartialOrd, Ord)]
pub struct TraceProcessId(u32);

impl TraceProcessId {
    #[verifier::type_invariant]
    spec fn positive(self) -> bool {
        1 <= self.0 <= i32::MAX
    }

    /// The process identifier.
    pub closed spec fn value(self) -> u32 {
        self.0
    }

    /// Creates one process identifier in the Linux positive PID range; anything else
    /// is `ProcessIdInvalid`.
    pub fn new(value: u32) -> (r: Result<Self, TraceStartupError>)
        ensures
            r is Ok <==> 1 <= value <= i32::MAX,
            r matches Ok(p) ==> p.value() == value,
            r matches Err(e) ==> e == TraceStartupError::ProcessIdInvalid,
    {
        if value == 0 || value > 0x7fff_ffff {
            Err(TraceStartupError::ProcessIdInvalid)
        } else {
            Ok(TraceProcessId(value))
        }
    }

    /// Returns the operating-system process identifier.
    pub fn get(self) -> (r: u32)
        ensures
            r == self.value(),
            1 <= r <= i32::MAX,
    {
        proof {
            use_type_invariant(&self);
        }
        self.0
    }
}

/// Contains the maximum retained process count for one active trace.
#[derive(Clone, Copy, Debug, PartialEq, Eq)]
pub struct TraceProcessLimit(u32);

impl TraceProcessLimit {
    #[verifier::type_invariant]
    spec fn bounded(self) -> bool {
        1 <= self.0 <= MAX_TRACE_PROCESS_LIMIT
    }

    /// The limit.
    pub closed spec fn value(self) -> u32 {
        self.0
    }

    /// Creates one nonzero diagnostic process limit no larger than the maximum;
    /// anything else is `ProcessLimitInvalid`.
    pub fn new(value: u64) -> (r: Result<Self, TraceStartupError>)
        ensures
            r is Ok <==> 1 <= value <= MAX_TRACE_PROCESS_LIMIT,
            r matches Ok(l) ==> l.value() == value,
            r matches Err(e) ==> e == TraceStartupError::ProcessLimitInvalid,
    {
        if value == 0 || value > MAX_TRACE_PROCESS_LIMIT as u64 {
            return Err(TraceStartupError::ProcessLimitInvalid);
        }
        Ok(TraceProcessLimit(value as u32))
    }

    /// Returns the maximum retained process count.
    pub fn get(self) -> (r: u32)
        ensures
            r == self.value(),
            1 <= r <= MAX_TRACE_PROCESS_LIMIT,
    {
        proof {
            use_type_invariant(&self);
        }
        self.0
    }

    /// The number of processes a drain may have to account for: twice the limit.
    pub fn drain_capacity(self) -> (r: usize)
        ensures
            r == 2 * self.value(),
    {
        proof {
            use_type_invariant(&self);
        }
        self.0 as usize * 2
    }
}

/// Contains the exact per-operand memory-read limits for one active trace.
#[derive(Clone, Copy, Debug, PartialEq, Eq)]
pub struct TraceCaptureLimits {
    path_bytes: u32,
    socket_address_bytes: u32,
    tracee_string_bytes: u32,
}

impl TraceCaptureLimits {
    #[verifier::type_invariant]
    spec fn bounded(self) -> bool {
        &&& 1 <= self.path_bytes <= MAX_TRACE_PATH_BYTES
        &&& 1 <= self.socket_address_bytes <= MAX_TRACE_SOCKET_ADDRESS_BYTES
        &&& 1 <= self.tracee_string_bytes <= MAX_TRACE_PATH_BYTES
    }

    /// The path, socket-address and tracee-string limits.
    pub closed spec fn limits(self) -> (u32, u32, u32) {
        (self.path_bytes, self.socket_address_bytes, self.tracee_string_bytes)
    }

    /// Creates nonzero path, socket-address, and tracee-string limits in bytes, each
    /// within its maximum; anything else is `CaptureLimitInvalid`.
    pub fn new(path_bytes: u64, socket_address_bytes: u64, tracee_string_bytes: u64) -> (r: Result<
        Self,
        TraceStartupError,
    >)
        ensures
            r is Ok <==> {
                &&& 1 <= path_bytes <= MAX_TRACE_PATH_BYTES
                &&& 1 <= socket_address_bytes <= MAX_TRACE_SOCKET_ADDRESS_BYTES
                &&& 1 <= tracee_string_bytes <= MAX_TRACE_PATH_BYTES
            },
            r matches Ok(l) ==> l.limits() == (path_bytes as u32, socket_address_bytes as u32, tracee_string_bytes as u32),
            r matches Err(e) ==> e == TraceStartupError::CaptureLimitInvalid,
    {
        if path_bytes == 0 || path_bytes > MAX_TRACE_PATH_BYTES as u64 || socket_address_bytes == 0
            || socket_address_bytes > MAX_TRACE_SOCKET_ADDRESS_BYTES as u64 || tracee_string_bytes == 0
            || tracee_string_bytes > MAX_TRACE_PATH_BYTES as u64 {
            return Err(TraceStartupError::CaptureLimitInvalid);
        }
        Ok(
            TraceCaptureLimits {
                path_bytes: path_bytes as u32,
                socket_address_bytes: socket_address_bytes as u32,
                tracee_string_bytes: tracee_string_bytes as u32,
            },
        )
    }

    /// Returns the path read bound.
    pub fn path_bytes(self) -> (r: usize)
        ensures
            r == self.limits().0,
    {
        self.path_bytes as usize
    }

    /// Returns the socket-address read bound.
    pub fn socket_address_bytes(self) -> (r: usize)
        ensures
            r == self.limits().1,
    {
        self.socket_address_bytes as usize
    }

    /// Returns the tracee-string read bound.
    pub fn tracee_string_bytes(self) -> (r: usize)
        ensures
            r == self.limits().2,
    {
        self.tracee_string_bytes as usize
    }
}

#[verifier::external_type_specification]
#[verifier::external_body]
pub struct ExInstant(std::time::Instant);

/// Calls `Instant::now` and `Instant::checked_add`; `None` when the deadline cannot be
/// represented. The result depends on the clock, so nothing is claimed of it.
#[verifier::external_body]
fn instant_after(seconds: u64, nanoseconds: u32) -> (r: Option<std::time::Instant>)
    requires
        nanoseconds < 1_000_000_000,
{
    std::time::Instant::now().checked_add(std::time::Duration::new(seconds, nanoseconds))
}

/// Calls `Instant::now` and compares it with `deadline`; the answer depends on the clock.
#[verifier::external_body]
fn instant_reached(deadline: &std::time::Instant) -> (r: bool) {
    std::time::Instant::now() >= *deadline
}

/// Contains one absolute monotonic deadline for trace setup.
#[derive(Clone, Copy, Debug)]
pub struct TraceDeadline(std::time::Instant);

impl TraceDeadline {
    /// Creates a deadline after one nonzero duration, given in nanoseconds; a zero
    /// duration is `DeadlineInvalid`, and so is a deadline the clock cannot represent.
    pub fn after(duration_nanos: u128) -> (r: Result<Self, TraceStartupError>)
        requires
            duration_nanos <= crate::supervisor::DURATION_MAX_NANOS,
        ensures
            duration_nanos == 0 ==> r == Err::<Self, TraceStartupError>(TraceStartupError::DeadlineInvalid),
            r matches Err(e) ==> e == TraceStartupError::DeadlineInvalid,
    {
        if duration_nanos == 0 {
            return Err(TraceStartupError::DeadlineInvalid);
        }
        let seconds = (duration_nanos / 1_000_000_000) as u64;
        let nanoseconds = (duration_nanos % 1_000_000_000) as u32;
        match instant_after(seconds, nanoseconds) {
            Some(at) => Ok(TraceDeadline(at)),
            None => Err(TraceStartupError::DeadlineInvalid),
        }
    }

    /// Reports whether the deadline has passed.
    pub fn expired(self) -> bool {
        instant_reached(&self.0)
    }
}

/// Identifies how one traced process created another tracee.
#[derive(Clone, Copy, Debug, PartialEq, Eq, Structural)]
pub enum TraceProcessCreationKind {
    /// The parent reported a `clone` event.
    Clone,
    /// The parent reported a `fork` event.
    Fork,
    /// The parent reported a `vfork` event.
    Vfork,
}

/// Identifies one architecture-qualified diagnostic system-call family.
#[derive(Clone, Copy, Debug, PartialEq, Eq, Structural)]
pub enum TraceSyscallClass {
    /// A `bind` operation.
    Bind,
    /// A `clone` or `clone3` operation.
    Clone,
    /// A `connect` operation.
    Connect,
    /// A `creat` operation.
    Creat,
    /// An `execve` operation.
    Execve,
    /// An `execveat` operation.
    Execveat,
    /// A `fork` operation.
    Fork,
    /// A `newfstatat` operation.
    Newfstatat,
    /// An `open` operation.
    Open,
    /// An `openat` operation.
    Openat,
    /// An `openat2` operation.
    Openat2,
    /// A `readlink` operation.
    Readlink,
    /// A `readlinkat` operation.
    Readlinkat,
    /// A `sendto` operation.
    Sendto,
    /// A `socket` operation.
    Socket,
    /// A `statx` operation.
    Statx,
    /// A `vfork` operation.
    Vfork,
}

/// Contains the bounded operands captured while a tracee was stopped at entry.
#[derive(Clone, Debug, PartialEq, Eq)]
pub enum TraceCapturedOperands {
    /// Contains one path and its syscall-specific scalar operands.
    Path {
        /// The requested output buffer size when applicable.
        buffer_bytes: Option<u64>,
        /// The directory descriptor when applicable.
        directory_fd: Option<i32>,
        /// Open, lookup, or execution flags when applicable.
        flags: Option<u64>,
        /// The stat mask when applicable.
        mask: Option<u64>,
        /// Creation mode bits when applicable.
        mode: Option<u64>,
        /// Exact supplied path bytes before the terminating NUL.
        path: Vec<u8>,
        /// `openat2` resolution flags when applicable.
        resolve: Option<u64>,
    },
    /// Contains process-creation flags when the syscall supplies them directly.
    ProcessCreate {
        /// The supplied clone flags when available.
        flags: Option<u64>,
    },
    /// Contains one existing socket and an optional bounded address.
    SocketAddress {
        /// The supplied socket-address bytes, or no address for connected `sendto`.
        address: Option<Vec<u8>>,
        /// The socket descriptor argument.
        descriptor: u32,
        /// The attempted payload size without payload bytes.
        payload_bytes: Option<u64>,
    },
    /// Contains one socket-creation request.
    SocketCreate {
        /// The address-family number.
        domain: u32,
        /// The protocol number.
        protocol: u32,
        /// The socket-type number.
        socket_type: u32,
    },
}

/// Contains the architecture-qualified input registers and bounded operands for one system call.
#[derive(Clone, Debug, PartialEq, Eq)]
pub struct TraceSyscallInvocation {
    architecture: u32,
    instruction_pointer: u64,
    stack_pointer: u64,
    number: u64,
    arguments: [u64; 6],
    class: TraceSyscallClass,
    operands: TraceCapturedOperands,
}

/// The registers of one system-call entry stop.
#[derive(Clone, Copy, Debug, PartialEq, Eq)]
pub struct TraceSyscallRegisters {
    pub architecture: u32,
    pub instruction_pointer: u64,
    pub stack_pointer: u64,
    pub number: u64,
    pub arguments: [u64; 6],
}

impl TraceSyscallInvocation {
    pub closed spec fn registers_of(self) -> (u32, u64, u64, u64, Seq<u64>) {
        (self.architecture, self.instruction_pointer, self.stack_pointer, self.number, self.arguments@)
    }

    pub closed spec fn class_of(self) -> TraceSyscallClass {
        self.class
    }

    pub closed spec fn operands_of(self) -> TraceCapturedOperands {
        self.operands
    }

    /// Records one system-call entry: its registers, its class and its captured operands.
    pub fn new(registers: TraceSyscallRegisters, class: TraceSyscallClass, operands: TraceCapturedOperands) -> (r: Self)
        ensures
            r.registers_of() == (
                registers.architecture,
                registers.instruction_pointer,
                registers.stack_pointer,
                registers.number,
                registers.arguments@,
            ),
            r.class_of() == class,
            r.operands_of() == operands,
    {
        TraceSyscallInvocation {
            architecture: registers.architecture,
            instruction_pointer: registers.instruction_pointer,
            stack_pointer: registers.stack_pointer,
            number: registers.number,
            arguments: registers.arguments,
            class,
            operands,
        }
    }

    /// Returns the Linux audit architecture value.
    pub fn architecture(&self) -> (r: u32)
        ensures
            r == self.registers_of().0,
    {
        self.architecture
    }

    /// Returns the instruction pointer at system-call entry.
    pub fn instruction_pointer(&self) -> (r: u64)
        ensures
            r == self.registers_of().1,
    {
        self.instruction_pointer
    }

    /// Returns the stack pointer at system-call entry.
    pub fn stack_pointer(&self) -> (r: u64)
        ensures
            r == self.registers_of().2,
    {
        self.stack_pointer
    }

    /// Returns the architecture-qualified system-call number.
    pub fn number(&self) -> (r: u64)
        ensures
            r == self.registers_of().3,
    {
        self.number
    }

    /// Returns the six supplied system-call argument words.
    pub fn arguments(&self) -> (r: [u64; 6])
        ensures
            r@ == self.registers_of().4,
    {
        self.arguments
    }

    /// Returns the closed diagnostic system-call class.
    pub fn class(&self) -> (r: TraceSyscallClass)
        ensures
            r == self.class_of(),
    {
        self.class
    }

    /// Returns the bounded operands captured at the syscall-entry stop.
    pub fn operands(&self) -> (r: &TraceCapturedOperands)
        ensures
            *r == self.operands_of(),
    {
        &self.operands
    }
}

/// Identifies one terminal status from an exact wait result.
#[derive(Clone, Copy, Debug, PartialEq, Eq, Structural)]
pub enum TraceTermination {
    /// The tracee exited with one status code.
    Exit(i32),
    /// The tracee terminated because of one signal.
    Signal(i32),
}

/// Contains one complete process-tree event from an active trace.
#[derive(Clone, Debug, PartialEq, Eq)]
pub enum ActiveTraceEvent {
    /// One system call reached entry and exit stops.
    SyscallCompleted {
        /// The tracee that made the system call.
        process: TraceProcessId,
        /// The architecture-qualified entry registers.
        invocation: TraceSyscallInvocation,
        /// The raw result word reported at exit.
        result: i64,
        /// Reports whether the result is a Linux error value.
        is_error: bool,
    },
    /// One ptrace process-creation event identified a new tracee.
    ProcessCreated {
        /// The stopped parent tracee.
        parent: TraceProcessId,
        /// The kernel-reported child tracee.
        child: TraceProcessId,
        /// The process-creation event kind.
        kind: TraceProcessCreationKind,
    },
    /// One tracee replaced its executable image.
    ImageReplaced {
        /// The pre-exec tracee identity.
        former_process: TraceProcessId,
        /// The post-exec tracee identity.
        process: TraceProcessId,
        /// Thread identities removed by the successful exec.
        superseded_processes: Vec<TraceProcessId>,
        /// The pending system-call entry when it was available.
        invocation: Option<TraceSyscallInvocation>,
    },
    /// One exact terminal wait result removed a tracee from the known tree.
    ProcessExited {
        /// The terminated tracee.
        process: TraceProcessId,
        /// The exact terminal status class.
        termination: TraceTermination,
    },
    /// One known tracee stopped outside the closed observer protocol.
    UnexpectedStop {
        /// The stopped tracee.
        process: TraceProcessId,
        /// The reported stop signal.
        signal: i32,
        /// The reported ptrace event value.
        event: u32,
    },
}

/// Contains one process-tree observation collected during exact drain.
#[derive(Clone, Debug, PartialEq, Eq)]
pub enum TraceDrainObservation {
    /// A pending creation event added a stopped child during drain.
    ProcessCreated {
        /// The stopped parent tracee.
        parent: TraceProcessId,
        /// The stopped child tracee.
        child: TraceProcessId,
        /// The process-creation event kind.
        kind: TraceProcessCreationKind,
    },
    /// A pending exec event changed the retained process identities.
    ImageReplaced {
        /// The pre-exec tracee identity.
        former_process: TraceProcessId,
        /// The post-exec tracee identity.
        process: TraceProcessId,
        /// Thread identities removed by the successful exec.
        superseded_processes: Vec<TraceProcessId>,
    },
    /// One exact terminal wait removed a retained tracee.
    ProcessExited {
        /// The terminated tracee identity.
        process: TraceProcessId,
        /// The exact terminal status class.
        termination: TraceTermination,
    },
}

/// Contains every terminal observation from one successful exact drain.
#[derive(Debug, PartialEq, Eq)]
pub struct TraceDrainReport {
    observations: Vec<TraceDrainObservation>,
}

impl TraceDrainReport {
    pub closed spec fn observations_of(self) -> Seq<TraceDrainObservation> {
        self.observations@
    }

    /// Collects the observations of one drain, in collection order.
    pub fn new(observations: Vec<TraceDrainObservation>) -> (r: Self)
        ensures
            r.observations_of() == observations@,
    {
        TraceDrainReport { observations }
    }

    /// Returns the drain observations in collection order.
    pub fn observations(&self) -> (r: &[TraceDrainObservation])
        ensures
            r@ == self.observations_of(),
    {
        self.observations.as_slice()
    }
}

/// The values of the `Tgid:` lines of a status text, in order.
pub open spec fn tgid_values(ls: Seq<Seq<u8>>) -> Seq<Seq<u8>>
    decreases ls.len(),
{
    if ls.len() == 0 {
        Seq::empty()
    } else {
        (if tgid_line(ls[0]) {
            seq![ls[0].subrange(6, ls[0].len() as int)]
        } else {
            Seq::empty()
        }) + tgid_values(ls.subrange(1, ls.len() as int))
    }
}

/// The thread-group identity a `/proc/<pid>/status` text states: the value of its one
/// `Tgid:` line, read as `u32::from_str` does, when it is a positive process identity.
pub open spec fn thread_group_of(ls: Seq<Seq<u8>>) -> Option<u32> {
    let values = tgid_values(ls);
    if values.len() != 1 {
        None
    } else {
        let v = values[0];
        if unsigned_text(v) && decimal_value(unsigned_digits(v)) <= u32::MAX && 1 <= decimal_value(
            unsigned_digits(v),
        ) <= i32::MAX {
            Some(decimal_value(unsigned_digits(v)) as u32)
        } else {
            None
        }
    }
}

/// A line that starts with `Tgid:` and a tab.
pub open spec fn tgid_line(l: Seq<u8>) -> bool {
    l.len() >= 6 && l.subrange(0, 6) == seq![0x54u8, 0x67, 0x69, 0x64, 0x3a, 0x09]
}

fn is_tgid_line(line: &[u8]) -> (r: bool)
    ensures
        r == tgid_line(line@),
{
    let prefix: [u8; 6] = [0x54, 0x67, 0x69, 0x64, 0x3a, 0x09];
    if line.len() < 6 {
        return false;
    }
    let head = copy_range(line, 0, 6);
    assert(prefix@ =~= seq![0x54u8, 0x67, 0x69, 0x64, 0x3a, 0x09]);
    bytes_equal(head.as_slice(), &prefix)
}

/// Reads the thread-group identity from `/proc/<pid>/status` text; no `Tgid:` line,
/// more than one, or a value that is not a positive process identity is `ThreadGroupInvalid`.
pub fn parse_thread_group_id(status: &str) -> (r: Result<TraceProcessId, TraceObservationError>)
    ensures
        r is Ok <==> thread_group_of(lines(status.spec_bytes())) is Some,
        r matches Ok(p) ==> Some(p.value()) == thread_group_of(lines(status.spec_bytes())),
        r matches Err(e) ==> e == TraceObservationError::ThreadGroupInvalid,
{
    let text = status.as_bytes();
    let ghost all = lines(text@);
    let mut found: Option<Vec<u8>> = None;
    let mut start: usize = 0;
    while start < text.len()
        invariant
            start <= text@.len(),
            text@ == status.spec_bytes(),
            all == lines(text@),
            tgid_values(all) == (match found {
                None => Seq::<Seq<u8>>::empty(),
                Some(v) => seq![v@],
            }) + tgid_values(crate::text::lines_from(text@, start as int)),
        decreases text@.len() - start,
    {
        match next_line(text, start) {
            None => {
                start = text.len();
            },
            Some((a, b, next)) => {
                let line = copy_range(text, a, b);
                let ghost rest = crate::text::lines_from(text@, start as int);
                proof {
                    assert(rest[0] == line@);
                    assert(rest.subrange(1, rest.len() as int) =~= crate::text::lines_from(text@, next as int));
                }
                if is_tgid_line(line.as_slice()) {
                    if found.is_some() {
                        proof {
                            assert(tgid_values(all).len() >= 2);
                        }
                        return Err(TraceObservationError::ThreadGroupInvalid);
                    }
                    let value = copy_range(line.as_slice(), 6, line.len());
                    proof {
                        assert(tgid_values(all) =~= seq![value@] + tgid_values(crate::text::lines_from(text@, next as int)));
                    }
                    found = Some(value);
                } else {
                    proof {
                        assert(tgid_values(rest) =~= tgid_values(crate::text::lines_from(text@, next as int)));
                    }
                }
                start = next;
            },
        }
    }
    proof {
        assert(crate::text::lines_from(text@, start as int).len() == 0);
    }
    let value = match found {
        Some(v) => v,
        None => {
            return Err(TraceObservationError::ThreadGroupInvalid);
        },
    };
    proof {
        assert(tgid_values(all) =~= seq![value@]);
    }
    match crate::text::parse_unsigned_u32(value.as_slice()) {
        Some(v) => match TraceProcessId::new(v) {
            Ok(p) => Ok(p),
            Err(_) => Err(TraceObservationError::ThreadGroupInvalid),
        },
        None => Err(TraceObservationError::ThreadGroupInvalid),
    }
}


/// The capture a system-call entry needs before the tracee resumes: which memory to
/// read and which scalar operands to keep.
#[derive(Clone, Copy, Debug, PartialEq, Eq)]
pub enum TraceCaptureRequest {
    /// One path operand and the syscall's scalar operands.
    Path {
        class: TraceSyscallClass,
        path_address: u64,
        buffer_bytes: Option<u64>,
        directory_fd: Option<i32>,
        flags: Option<u64>,
        mask: Option<u64>,
        mode: Option<u64>,
    },
    /// An `openat2` call: a path and its `open_how` structure.
    Openat2 { directory_fd: i32, path_address: u64, how_address: u64, how_bytes: u64 },
    /// A process creation whose flags, if any, are in a register.
    ProcessCreate { class: TraceSyscallClass, flags: Option<u64> },
    /// A `clone3` call: its argument structure.
    Clone3 { arguments_address: u64, arguments_bytes: u64 },
    /// A socket operation with an address operand.
    SocketAddress {
        class: TraceSyscallClass,
        descriptor: u32,
        address: u64,
        address_bytes: u64,
        address_optional: bool,
        payload_bytes: Option<u64>,
    },
    /// A socket creation.
    SocketCreate { domain: u32, protocol: u32, socket_type: u32 },
}

/// The system-call numbers of one architecture; calls an architecture lacks are `None`.
#[derive(Clone, Copy, Debug, PartialEq, Eq)]
pub struct SyscallTable {
    pub open: Option<u64>,
    pub socket: u64,
    pub connect: u64,
    pub sendto: u64,
    pub bind: u64,
    pub clone: u64,
    pub fork: Option<u64>,
    pub vfork: Option<u64>,
    pub execve: u64,
    pub creat: Option<u64>,
    pub readlink: Option<u64>,
    pub openat: u64,
    pub newfstatat: u64,
    pub readlinkat: u64,
    pub execveat: u64,
    pub statx: u64,
    pub clone3: u64,
    pub openat2: u64,
}

/// The x86-64 system-call numbers.
pub open spec fn x86_64_table() -> SyscallTable {
    SyscallTable {
        open: Some(2),
        socket: 41,
        connect: 42,
        sendto: 44,
        bind: 49,
        clone: 56,
        fork: Some(57),
        vfork: Some(58),
        execve: 59,
        creat: Some(85),
        readlink: Some(89),
        openat: 257,
        newfstatat: 262,
        readlinkat: 267,
        execveat: 322,
        statx: 332,
        clone3: 435,
        openat2: 437,
    }
}

/// The 64-bit Arm system-call numbers, which have no legacy `open`, `fork`, `vfork`,
/// `creat` or `readlink`.
pub open spec fn aarch64_table() -> SyscallTable {
    SyscallTable {
        open: None,
        socket: 198,
        connect: 203,
        sendto: 206,
        bind: 200,
        clone: 220,
        fork: None,
        vfork: None,
        execve: 221,
        creat: None,
        readlink: None,
        openat: 56,
        newfstatat: 79,
        readlinkat: 78,
        execveat: 281,
        statx: 291,
        clone3: 435,
        openat2: 437,
    }
}

/// A register word read as a 32-bit value: the upper half must be all zero or all
/// one bits (a sign- or zero-extended word), and the lower half is the value.
pub open spec fn low_word(value: u64) -> Option<u32> {
    let upper = value / 0x1_0000_0000;
    if upper != 0 && upper != 0xffff_ffff {
        None
    } else {
        Some((value % 0x1_0000_0000) as u32)
    }
}

/// The signed 32-bit value of a lower half word.
pub open spec fn signed_word(low: u32) -> i32 {
    if low < 0x8000_0000 {
        low as i32
    } else {
        (low - 0x1_0000_0000) as i32
    }
}

/// A register word read as a descriptor argument.
pub open spec fn i32_argument(value: u64) -> Option<i32> {
    match low_word(value) {
        Some(low) => Some(signed_word(low)),
        None => None,
    }
}

/// Reads a register word as a signed 32-bit argument; any other form is `SyscallFormUnsupported`.
pub fn trace_i32_argument(value: u64) -> (r: Result<i32, TraceObservationError>)
    ensures
        r is Ok <==> i32_argument(value) is Some,
        r matches Ok(v) ==> Some(v) == i32_argument(value),
        r matches Err(e) ==> e == TraceObservationError::SyscallFormUnsupported,
{
    let low = trace_u32_argument(value)?;
    if low < 0x8000_0000 {
        Ok(low as i32)
    } else {
        Ok((low as i64 - 0x1_0000_0000) as i32)
    }
}

/// Reads a register word as an unsigned 32-bit argument; any other form is `SyscallFormUnsupported`.
pub fn trace_u32_argument(value: u64) -> (r: Result<u32, TraceObservationError>)
    ensures
        r is Ok <==> low_word(value) is Some,
        r matches Ok(v) ==> Some(v) == low_word(value),
        r matches Err(e) ==> e == TraceObservationError::SyscallFormUnsupported,
{
    let upper = value / 0x1_0000_0000;
    if upper != 0 && upper != 0xffff_ffff {
        return Err(TraceObservationError::SyscallFormUnsupported);
    }
    Ok((value % 0x1_0000_0000) as u32)
}

/// A path capture request.
pub open spec fn path_request(
    class: TraceSyscallClass,
    path_address: u64,
    buffer_bytes: Option<u64>,
    directory_fd: Option<i32>,
    flags: Option<u64>,
    mask: Option<u64>,
    mode: Option<u64>,
) -> TraceCaptureRequest {
    TraceCaptureRequest::Path { class, path_address, buffer_bytes, directory_fd, flags, mask, mode }
}

/// A request whose descriptor argument must read as a signed 32-bit value.
pub open spec fn with_fd(fd: Option<i32>, request: spec_fn(i32) -> TraceCaptureRequest) -> Result<
    Option<TraceCaptureRequest>,
    TraceObservationError,
> {
    match fd {
        Some(d) => Ok(Some(request(d))),
        None => Err(TraceObservationError::SyscallFormUnsupported),
    }
}

/// What one system-call entry asks to capture, by the numbers of `t`: each
/// registered call with the registers that hold its operands, `None` for any other
/// call, and `SyscallFormUnsupported` when a descriptor or scalar register is not a
/// 32-bit value.
pub open spec fn syscall_request(n: u64, a: Seq<u64>, t: SyscallTable) -> Result<
    Option<TraceCaptureRequest>,
    TraceObservationError,
> {
    if t.open == Some(n) {
        Ok(Some(path_request(TraceSyscallClass::Open, a[0], None, None, Some(a[1]), None, Some(a[2]))))
    } else if n == t.openat {
        with_fd(
            i32_argument(a[0]),
            |d: i32| path_request(TraceSyscallClass::Openat, a[1], None, Some(d), Some(a[2]), None, Some(a[3])),
        )
    } else if n == t.openat2 {
        with_fd(
            i32_argument(a[0]),
            |d: i32| TraceCaptureRequest::Openat2 { directory_fd: d, path_address: a[1], how_address: a[2], how_bytes: a[3] },
        )
    } else if t.creat == Some(n) {
        Ok(Some(path_request(TraceSyscallClass::Creat, a[0], None, None, None, None, Some(a[1]))))
    } else if n == t.execve {
        Ok(Some(path_request(TraceSyscallClass::Execve, a[0], None, None, None, None, None)))
    } else if n == t.execveat {
        with_fd(
            i32_argument(a[0]),
            |d: i32| path_request(TraceSyscallClass::Execveat, a[1], None, Some(d), Some(a[4]), None, None),
        )
    } else if n == t.newfstatat {
        with_fd(
            i32_argument(a[0]),
            |d: i32| path_request(TraceSyscallClass::Newfstatat, a[1], None, Some(d), Some(a[3]), None, None),
        )
    } else if t.readlink == Some(n) {
        Ok(Some(path_request(TraceSyscallClass::Readlink, a[0], Some(a[2]), None, None, None, None)))
    } else if n == t.readlinkat {
        with_fd(
            i32_argument(a[0]),
            |d: i32| path_request(TraceSyscallClass::Readlinkat, a[1], Some(a[3]), Some(d), None, None, None),
        )
    } else if n == t.statx {
        with_fd(
            i32_argument(a[0]),
            |d: i32| path_request(TraceSyscallClass::Statx, a[1], None, Some(d), Some(a[2]), Some(a[3]), None),
        )
    } else if n == t.socket {
        if low_word(a[0]) is Some && low_word(a[2]) is Some && low_word(a[1]) is Some {
            Ok(
                Some(
                    TraceCaptureRequest::SocketCreate {
                        domain: low_word(a[0])->0,
                        protocol: low_word(a[2])->0,
                        socket_type: low_word(a[1])->0,
                    },
                ),
            )
        } else {
            Err(TraceObservationError::SyscallFormUnsupported)
        }
    } else if n == t.connect || n == t.bind {
        if low_word(a[0]) is Some {
            Ok(
                Some(
                    TraceCaptureRequest::SocketAddress {
                        class: if n == t.connect {
                            TraceSyscallClass::Connect
                        } else {
                            TraceSyscallClass::Bind
                        },
                        descriptor: low_word(a[0])->0,
                        address: a[1],
                        address_bytes: a[2],
                        address_optional: false,
                        payload_bytes: None,
                    },
                ),
            )
        } else {
            Err(TraceObservationError::SyscallFormUnsupported)
        }
    } else if n == t.sendto {
        if low_word(a[0]) is Some {
            Ok(
                Some(
                    TraceCaptureRequest::SocketAddress {
                        class: TraceSyscallClass::Sendto,
                        descriptor: low_word(a[0])->0,
                        address: a[4],
                        address_bytes: a[5],
                        address_optional: true,
                        payload_bytes: Some(a[2]),
                    },
                ),
            )
        } else {
            Err(TraceObservationError::SyscallFormUnsupported)
        }
    } else if n == t.clone {
        Ok(Some(TraceCaptureRequest::ProcessCreate { class: TraceSyscallClass::Clone, flags: Some(a[0]) }))
    } else if t.fork == Some(n) {
        Ok(Some(TraceCaptureRequest::ProcessCreate { class: TraceSyscallClass::Fork, flags: None }))
    } else if t.vfork == Some(n) {
        Ok(Some(TraceCaptureRequest::ProcessCreate { class: TraceSyscallClass::Vfork, flags: None }))
    } else if n == t.clone3 {
        Ok(Some(TraceCaptureRequest::Clone3 { arguments_address: a[0], arguments_bytes: a[1] }))
    } else {
        Ok(None)
    }
}

/// What one system-call entry stop asks to capture: the call is read by the numbers
/// of its audit architecture; an unknown architecture is `ArchitectureUnsupported`
/// and an x32 call on x86-64 is `SyscallFormUnsupported`.
pub open spec fn registers_request(r: TraceSyscallRegisters) -> Result<Option<TraceCaptureRequest>, TraceObservationError> {
    if r.architecture == AUDIT_ARCH_X86_64 {
        if (r.number / X32_SYSCALL_BIT) % 2 == 1 {
            Err(TraceObservationError::SyscallFormUnsupported)
        } else {
            syscall_request(r.number, r.arguments@, x86_64_table())
        }
    } else if r.architecture == AUDIT_ARCH_AARCH64 {
        syscall_request(r.number, r.arguments@, aarch64_table())
    } else {
        Err(TraceObservationError::ArchitectureUnsupported)
    }
}

fn x86_64_syscalls() -> (r: SyscallTable)
    ensures
        r == x86_64_table(),
{
    SyscallTable {
        open: Some(2),
        socket: 41,
        connect: 42,
        sendto: 44,
        bind: 49,
        clone: 56,
        fork: Some(57),
        vfork: Some(58),
        execve: 59,
        creat: Some(85),
        readlink: Some(89),
        openat: 257,
        newfstatat: 262,
        readlinkat: 267,
        execveat: 322,
        statx: 332,
        clone3: 435,
        openat2: 437,
    }
}

fn aarch64_syscalls() -> (r: SyscallTable)
    ensures
        r == aarch64_table(),
{
    SyscallTable {
        open: None,
        socket: 198,
        connect: 203,
        sendto: 206,
        bind: 200,
        clone: 220,
        fork: None,
        vfork: None,
        execve: 221,
        creat: None,
        readlink: None,
        openat: 56,
        newfstatat: 79,
        readlinkat: 78,
        execveat: 281,
        statx: 291,
        clone3: 435,
        openat2: 437,
    }
}

fn is_number(slot: Option<u64>, number: u64) -> (r: bool)
    ensures
        r == (slot == Some(number)),
{
    match slot {
        Some(n) => n == number,
        None => false,
    }
}

/// Decides what one system-call entry asks to capture by the numbers of `t`.
pub fn decode_supported_syscall(number: u64, arguments: [u64; 6], t: SyscallTable) -> (r: Result<
    Option<TraceCaptureRequest>,
    TraceObservationError,
>)
    ensures
        r == syscall_request(number, arguments@, t),
{
    let a = arguments;
    let request = if is_number(t.open, number) {
        TraceCaptureRequest::Path {
            class: TraceSyscallClass::Open,
            path_address: a[0],
            buffer_bytes: None,
            directory_fd: None,
            flags: Some(a[1]),
            mask: None,
            mode: Some(a[2]),
        }
    } else if number == t.openat {
        TraceCaptureRequest::Path {
            class: TraceSyscallClass::Openat,
            path_address: a[1],
            buffer_bytes: None,
            directory_fd: Some(trace_i32_argument(a[0])?),
            flags: Some(a[2]),
            mask: None,
            mode: Some(a[3]),
        }
    } else if number == t.openat2 {
        TraceCaptureRequest::Openat2 {
            directory_fd: trace_i32_argument(a[0])?,
            path_address: a[1],
            how_address: a[2],
            how_bytes: a[3],
        }
    } else if is_number(t.creat, number) {
        TraceCaptureRequest::Path {
            class: TraceSyscallClass::Creat,
            path_address: a[0],
            buffer_bytes: None,
            directory_fd: None,
            flags: None,
            mask: None,
            mode: Some(a[1]),
        }
    } else if number == t.execve {
        TraceCaptureRequest::Path {
            class: TraceSyscallClass::Execve,
            path_address: a[0],
            buffer_bytes: None,
            directory_fd: None,
            flags: None,
            mask: None,
            mode: None,
        }
    } else if number == t.execveat {
        TraceCaptureRequest::Path {
            class: TraceSyscallClass::Execveat,
            path_address: a[1],
            buffer_bytes: None,
            directory_fd: Some(trace_i32_argument(a[0])?),
            flags: Some(a[4]),
            mask: None,
            mode: None,
        }
    } else if number == t.newfstatat {
        TraceCaptureRequest::Path {
            class: TraceSyscallClass::Newfstatat,
            path_address: a[1],
            buffer_bytes: None,
            directory_fd: Some(trace_i32_argument(a[0])?),
            flags: Some(a[3]),
            mask: None,
            mode: None,
        }
    } else if is_number(t.readlink, number) {
        TraceCaptureRequest::Path {
            class: TraceSyscallClass::Readlink,
            path_address: a[0],
            buffer_bytes: Some(a[2]),
            directory_fd: None,
            flags: None,
            mask: None,
            mode: None,
        }
    } else if number == t.readlinkat {
        TraceCaptureRequest::Path {
            class: TraceSyscallClass::Readlinkat,
            path_address: a[1],
            buffer_bytes: Some(a[3]),
            directory_fd: Some(trace_i32_argument(a[0])?),
            flags: None,
            mask: None,
            mode: None,
        }
    } else if number == t.statx {
        TraceCaptureRequest::Path {
            class: TraceSyscallClass::Statx,
            path_address: a[1],
            buffer_bytes: None,
            directory_fd: Some(trace_i32_argument(a[0])?),
            flags: Some(a[2]),
            mask: Some(a[3]),
            mode: None,
        }
    } else if number == t.socket {
        let domain = trace_u32_argument(a[0])?;
        let protocol = trace_u32_argument(a[2])?;
        let socket_type = trace_u32_argument(a[1])?;
        TraceCaptureRequest::SocketCreate { domain, protocol, socket_type }
    } else if number == t.connect || number == t.bind {
        TraceCaptureRequest::SocketAddress {
            class: if number == t.connect {
                TraceSyscallClass::Connect
            } else {
                TraceSyscallClass::Bind
            },
            descriptor: trace_u32_argument(a[0])?,
            address: a[1],
            address_bytes: a[2],
            address_optional: false,
            payload_bytes: None,
        }
    } else if number == t.sendto {
        TraceCaptureRequest::SocketAddress {
            class: TraceSyscallClass::Sendto,
            descriptor: trace_u32_argument(a[0])?,
            address: a[4],
            address_bytes: a[5],
            address_optional: true,
            payload_bytes: Some(a[2]),
        }
    } else if number == t.clone {
        TraceCaptureRequest::ProcessCreate { class: TraceSyscallClass::Clone, flags: Some(a[0]) }
    } else if is_number(t.fork, number) {
        TraceCaptureRequest::ProcessCreate { class: TraceSyscallClass::Fork, flags: None }
    } else if is_number(t.vfork, number) {
        TraceCaptureRequest::ProcessCreate { class: TraceSyscallClass::Vfork, flags: None }
    } else if number == t.clone3 {
        TraceCaptureRequest::Clone3 { arguments_address: a[0], arguments_bytes: a[1] }
    } else {
        return Ok(None);
    };
    Ok(Some(request))
}

/// Whether the `connect` and `bind` numbers of `t` are their own: they differ from
/// each other and from every call that the table decodes before them.
pub open spec fn socket_numbers_own(t: SyscallTable) -> bool {
    let own = |n: u64|
        t.open != Some(n) && t.creat != Some(n) && t.readlink != Some(n) && n != t.openat
            && n != t.openat2 && n != t.execve && n != t.execveat && n != t.newfstatat
            && n != t.readlinkat && n != t.statx && n != t.socket;
    &&& t.connect != t.bind
    &&& own(t.connect)
    &&& own(t.bind)
}

/// Both architectures' tables give `connect` and `bind` numbers of their own.
pub proof fn lemma_socket_numbers_own()
    ensures
        socket_numbers_own(x86_64_table()),
        socket_numbers_own(aarch64_table()),
{
}

/// A socket-address call is reported under the name of the call that was made: a
/// `connect` entry whose descriptor register holds a 32-bit value asks for its
/// address as a `Connect`, a `bind` entry as a `Bind`, with the descriptor from the
/// first register and the address and its length from the second and third.
pub proof fn lemma_socket_address_class(t: SyscallTable, a: Seq<u64>)
    requires
        socket_numbers_own(t),
        a.len() == 6,
        a[0] <= 0xffff_ffff,
    ensures
        syscall_request(t.connect, a, t) == Ok::<Option<TraceCaptureRequest>, TraceObservationError>(
            Some(
                TraceCaptureRequest::SocketAddress {
                    class: TraceSyscallClass::Connect,
                    descriptor: a[0] as u32,
                    address: a[1],
                    address_bytes: a[2],
                    address_optional: false,
                    payload_bytes: None,
                },
            ),
        ),
        syscall_request(t.bind, a, t) == Ok::<Option<TraceCaptureRequest>, TraceObservationError>(
            Some(
                TraceCaptureRequest::SocketAddress {
                    class: TraceSyscallClass::Bind,
                    descriptor: a[0] as u32,
                    address: a[1],
                    address_bytes: a[2],
                    address_optional: false,
                    payload_bytes: None,
                },
            ),
        ),
{
    assert(a[0] / 0x1_0000_0000 == 0);
    assert(a[0] % 0x1_0000_0000 == a[0]);
}

/// The call a capture request is about.
pub open spec fn request_class(r: TraceCaptureRequest) -> TraceSyscallClass {
    match r {
        TraceCaptureRequest::Path { class, .. } => class,
        TraceCaptureRequest::Openat2 { .. } => TraceSyscallClass::Openat2,
        TraceCaptureRequest::ProcessCreate { class, .. } => class,
        TraceCaptureRequest::Clone3 { .. } => TraceSyscallClass::Clone,
        TraceCaptureRequest::SocketAddress { class, .. } => class,
        TraceCaptureRequest::SocketCreate { .. } => TraceSyscallClass::Socket,
    }
}

/// Whether a decoding asks to capture a request about the call `class`.
pub open spec fn decodes_as(
    d: Result<Option<TraceCaptureRequest>, TraceObservationError>,
    class: TraceSyscallClass,
) -> bool {
    match d {
        Ok(Some(r)) => request_class(r) == class,
        _ => false,
    }
}

/// On both architectures, an entry whose registers all hold 32-bit values asks to
/// capture a request about the very call its number names, and an unregistered
/// call (`read`) asks for nothing.
pub proof fn lemma_requests_named_by_call(a: Seq<u64>)
    requires
        a.len() == 6,
        forall|i: int| 0 <= i < 6 ==> #[trigger] a[i] <= 0xffff_ffff,
    ensures
        decodes_as(syscall_request(2, a, x86_64_table()), TraceSyscallClass::Open),
        decodes_as(syscall_request(257, a, x86_64_table()), TraceSyscallClass::Openat),
        decodes_as(syscall_request(437, a, x86_64_table()), TraceSyscallClass::Openat2),
        decodes_as(syscall_request(85, a, x86_64_table()), TraceSyscallClass::Creat),
        decodes_as(syscall_request(59, a, x86_64_table()), TraceSyscallClass::Execve),
        decodes_as(syscall_request(322, a, x86_64_table()), TraceSyscallClass::Execveat),
        decodes_as(syscall_request(262, a, x86_64_table()), TraceSyscallClass::Newfstatat),
        decodes_as(syscall_request(89, a, x86_64_table()), TraceSyscallClass::Readlink),
        decodes_as(syscall_request(267, a, x86_64_table()), TraceSyscallClass::Readlinkat),
        decodes_as(syscall_request(332, a, x86_64_table()), TraceSyscallClass::Statx),
        decodes_as(syscall_request(41, a, x86_64_table()), TraceSyscallClass::Socket),
        decodes_as(syscall_request(42, a, x86_64_table()), TraceSyscallClass::Connect),
        decodes_as(syscall_request(49, a, x86_64_table()), TraceSyscallClass::Bind),
        decodes_as(syscall_request(44, a, x86_64_table()), TraceSyscallClass::Sendto),
        decodes_as(syscall_request(56, a, x86_64_table()), TraceSyscallClass::Clone),
        decodes_as(syscall_request(57, a, x86_64_table()), TraceSyscallClass::Fork),
        decodes_as(syscall_request(58, a, x86_64_table()), TraceSyscallClass::Vfork),
        decodes_as(syscall_request(435, a, x86_64_table()), TraceSyscallClass::Clone),
        syscall_request(0, a, x86_64_table()) == Ok::<Option<TraceCaptureRequest>, TraceObservationError>(None),
        decodes_as(syscall_request(56, a, aarch64_table()), TraceSyscallClass::Openat),
        decodes_as(syscall_request(437, a, aarch64_table()), TraceSyscallClass::Openat2),
        decodes_as(syscall_request(221, a, aarch64_table()), TraceSyscallClass::Execve),
        decodes_as(syscall_request(281, a, aarch64_table()), TraceSyscallClass::Execveat),
        decodes_as(syscall_request(79, a, aarch64_table()), TraceSyscallClass::Newfstatat),
        decodes_as(syscall_request(78, a, aarch64_table()), TraceSyscallClass::Readlinkat),
        decodes_as(syscall_request(291, a, aarch64_table()), TraceSyscallClass::Statx),
        decodes_as(syscall_request(198, a, aarch64_table()), TraceSyscallClass::Socket),
        decodes_as(syscall_request(203, a, aarch64_table()), TraceSyscallClass::Connect),
        decodes_as(syscall_request(200, a, aarch64_table()), TraceSyscallClass::Bind),
        decodes_as(syscall_request(206, a, aarch64_table()), TraceSyscallClass::Sendto),
        decodes_as(syscall_request(220, a, aarch64_table()), TraceSyscallClass::Clone),
        decodes_as(syscall_request(435, a, aarch64_table()), TraceSyscallClass::Clone),
        syscall_request(63, a, aarch64_table()) == Ok::<Option<TraceCaptureRequest>, TraceObservationError>(None),
{
    assert(a[0] <= 0xffff_ffff && a[1] <= 0xffff_ffff && a[2] <= 0xffff_ffff);
    assert(a[0] / 0x1_0000_0000 == 0 && a[1] / 0x1_0000_0000 == 0 && a[2] / 0x1_0000_0000 == 0);
}

/// Decides what one system-call entry stop asks to capture.
pub fn decode_trace_syscall(registers: TraceSyscallRegisters) -> (r: Result<
    Option<TraceCaptureRequest>,
    TraceObservationError,
>)
    ensures
        r == registers_request(registers),
{
    if registers.architecture == AUDIT_ARCH_X86_64 {
        if (registers.number / X32_SYSCALL_BIT) % 2 == 1 {
            return Err(TraceObservationError::SyscallFormUnsupported);
        }
        decode_supported_syscall(registers.number, registers.arguments, x86_64_syscalls())
    } else if registers.architecture == AUDIT_ARCH_AARCH64 {
        decode_supported_syscall(registers.number, registers.arguments, aarch64_syscalls())
    } else {
        Err(TraceObservationError::ArchitectureUnsupported)
    }
}

/// The little-endian value of eight bytes.
pub open spec fn le_u64(b: Seq<u8>) -> int
    decreases b.len(),
{
    if b.len() == 0 {
        0
    } else {
        b[0] + 256 * le_u64(b.subrange(1, b.len() as int))
    }
}

/// Reads the little-endian word at `start`; a word that does not fit is `SyscallFormUnsupported`.
pub fn read_little_endian_u64(bytes: &[u8], start: usize) -> (r: Result<u64, TraceObservationError>)
    ensures
        r is Ok <==> start + 8 <= bytes@.len(),
        r matches Ok(v) ==> v == le_u64(bytes@.subrange(start as int, start + 8)),
        r matches Err(e) ==> e == TraceObservationError::SyscallFormUnsupported,
{
    if start > bytes.len() || bytes.len() - start < 8 {
        return Err(TraceObservationError::SyscallFormUnsupported);
    }
    let mut value: u64 = 0;
    let mut k: usize = 8;
    while k > 0
        invariant
            k <= 8,
            start + 8 <= bytes@.len(),
            bytes@.len() == bytes.len(),
            value == le_u64(bytes@.subrange(start + k, start + 8)),
            value < pow256((8 - k) as nat),
        decreases k,
    {
        let ghost tail = bytes@.subrange(start + k, start + 8);
        let b = bytes[start + k - 1];
        proof {
            assert(bytes@.subrange(start + k - 1, start + 8).subrange(1, 9 - k) =~= tail);
            lemma_pow256_step((8 - k) as nat);
            assert(value * 256 + b < pow256((8 - k + 1) as nat)) by (nonlinear_arith)
                requires
                    value < pow256((8 - k) as nat),
                    b < 256,
                    pow256((8 - k + 1) as nat) == 256 * pow256((8 - k) as nat),
            ;
            assert(pow256(8) == 0x1_0000_0000_0000_0000) by {
                reveal_with_fuel(pow256, 9);
            }
            lemma_pow256_mono((8 - k + 1) as nat, 8);
        }
        value = value * 256 + b as u64;
        k = k - 1;
    }
    Ok(value)
}

/// 256 to the power `n`.
pub open spec fn pow256(n: nat) -> nat
    decreases n,
{
    if n == 0 {
        1
    } else {
        256 * pow256((n - 1) as nat)
    }
}

proof fn lemma_pow256_step(n: nat)
    ensures
        pow256(n + 1) == 256 * pow256(n),
{
}

proof fn lemma_pow256_mono(a: nat, b: nat)
    requires
        a <= b,
    ensures
        pow256(a) <= pow256(b),
    decreases b,
{
    if a < b {
        lemma_pow256_mono(a, (b - 1) as nat);
    }
}


/// The system call a tracee is inside: captured at entry, or ignored.
#[derive(Clone, Debug, PartialEq, Eq)]
pub enum PendingTraceSyscall {
    /// The entry was captured and waits for its exit stop.
    Captured(TraceSyscallInvocation),
    /// The entry was not one the trace records.
    Ignored,
}

/// The trace state of one tracee: its thread group, whether its initial stop is
/// still awaited, and the system call it is inside.
#[derive(Debug, PartialEq, Eq)]
pub struct TraceeState {
    pub thread_group: TraceProcessId,
    pub awaiting_initial_stop: bool,
    pub pending: Option<PendingTraceSyscall>,
}

impl TraceeState {
    /// A tracee that is already observed.
    pub fn observing(thread_group: TraceProcessId) -> (r: Self)
        ensures
            r == (TraceeState { thread_group, awaiting_initial_stop: false, pending: None }),
    {
        TraceeState { thread_group, awaiting_initial_stop: false, pending: None }
    }

    /// A new tracee whose initial stop has not been seen yet.
    pub fn awaiting_stop(thread_group: TraceProcessId) -> (r: Self)
        ensures
            r == (TraceeState { thread_group, awaiting_initial_stop: true, pending: None }),
    {
        TraceeState { thread_group, awaiting_initial_stop: true, pending: None }
    }
}

/// What a successful exec did to the retained identities: the thread that called
/// exec, the thread-group leader that survives it, and the threads it superseded.
#[derive(Debug, PartialEq, Eq)]
pub struct ExecIdentityChange {
    pub former: TraceProcessId,
    pub survivor: TraceProcessId,
    pub superseded: Vec<TraceProcessId>,
}

/// The identifier of a table entry.
pub open spec fn pid_of(e: (TraceProcessId, TraceeState)) -> u32 {
    e.0.value()
}

/// The entries are in strictly increasing order of identifier.
pub open spec fn pids_increasing(s: Seq<(TraceProcessId, TraceeState)>) -> bool {
    forall|i: int, j: int| 0 <= i < j < s.len() ==> #[trigger] pid_of(s[i]) < #[trigger] pid_of(s[j])
}

/// The state a table holds for identifier `p`.
pub open spec fn state_in(s: Seq<(TraceProcessId, TraceeState)>, p: u32) -> Option<TraceeState>
    decreases s.len(),
{
    if s.len() == 0 {
        None
    } else if pid_of(s[0]) == p {
        Some(s[0].1)
    } else {
        state_in(s.subrange(1, s.len() as int), p)
    }
}

/// Puts an entry into a table: it replaces the entry with its identifier, or goes
/// before the first entry with a larger one.
pub open spec fn put_by_pid(s: Seq<(TraceProcessId, TraceeState)>, e: (TraceProcessId, TraceeState)) -> Seq<
    (TraceProcessId, TraceeState),
>
    decreases s.len(),
{
    if s.len() == 0 {
        seq![e]
    } else if pid_of(e) < pid_of(s[0]) {
        seq![e] + s
    } else if pid_of(e) == pid_of(s[0]) {
        seq![e] + s.subrange(1, s.len() as int)
    } else {
        seq![s[0]] + put_by_pid(s.subrange(1, s.len() as int), e)
    }
}

/// Whether an exec keeps a tracee: it is neither the calling thread nor another
/// thread of the group that called exec.
pub open spec fn kept_by_exec(reported: TraceProcessId, former: TraceProcessId) -> spec_fn(
    (TraceProcessId, TraceeState),
) -> bool {
    |e: (TraceProcessId, TraceeState)| e.0 != former && e.1.thread_group != reported
}

/// Whether an exec supersedes a tracee: it is another thread of the group that
/// called exec.
pub open spec fn superseded_by_exec(reported: TraceProcessId, former: TraceProcessId) -> spec_fn(
    (TraceProcessId, TraceeState),
) -> bool {
    |e: (TraceProcessId, TraceeState)| e.0 != former && e.1.thread_group == reported
}

/// The identifiers of table entries, in order.
pub open spec fn entry_ids(s: Seq<(TraceProcessId, TraceeState)>) -> Seq<TraceProcessId> {
    s.map_values(|e: (TraceProcessId, TraceeState)| e.0)
}

/// The tracees an exec keeps, in order.
pub open spec fn exec_kept(s: Seq<(TraceProcessId, TraceeState)>, reported: TraceProcessId, former: TraceProcessId) -> Seq<
    (TraceProcessId, TraceeState),
> {
    s.filter(kept_by_exec(reported, former))
}

/// The threads an exec supersedes, in increasing order.
pub open spec fn exec_superseded(s: Seq<(TraceProcessId, TraceeState)>, reported: TraceProcessId, former: TraceProcessId) -> Seq<
    TraceProcessId,
> {
    entry_ids(s.filter(superseded_by_exec(reported, former)))
}

/// Reconciles a successful exec with the retained tracees. The exec stop must be
/// reported for the process the wait asked for; both it and the former thread must
/// be retained and belong to its thread group. The former thread's state then moves
/// to the group leader, which is observed, and the group's other threads are dropped.
pub open spec fn exec_reconciliation(
    s: Seq<(TraceProcessId, TraceeState)>,
    requested: TraceProcessId,
    reported: TraceProcessId,
    former: TraceProcessId,
) -> Result<(Seq<(TraceProcessId, TraceeState)>, Seq<TraceProcessId>), TraceObservationError> {
    if reported != requested {
        Err(TraceObservationError::ProcessIdentityChanged)
    } else if state_in(s, reported.value()) is None || state_in(s, former.value()) is None {
        Err(TraceObservationError::ProcessUnknown)
    } else if state_in(s, reported.value())->0.thread_group != reported || state_in(s, former.value())->0.thread_group
        != reported {
        Err(TraceObservationError::ProcessIdentityChanged)
    } else {
        let moved = TraceeState {
            thread_group: reported,
            awaiting_initial_stop: false,
            pending: state_in(s, former.value())->0.pending,
        };
        Ok((put_by_pid(exec_kept(s, reported, former), (reported, moved)), exec_superseded(s, reported, former)))
    }
}

proof fn lemma_state_in(s: Seq<(TraceProcessId, TraceeState)>, p: u32, pos: int)
    requires
        pids_increasing(s),
        0 <= pos <= s.len(),
        forall|q: int| 0 <= q < pos ==> #[trigger] pid_of(s[q]) < p,
        pos < s.len() ==> pid_of(s[pos]) >= p,
    ensures
        state_in(s, p) == (if pos < s.len() && pid_of(s[pos]) == p {
            Some(s[pos].1)
        } else {
            None::<TraceeState>
        }),
    decreases s.len(),
{
    if s.len() > 0 {
        let rest = s.subrange(1, s.len() as int);
        if pos == 0 {
            if pid_of(s[0]) != p {
                assert forall|q: int| 0 <= q < rest.len() implies #[trigger] pid_of(rest[q]) > p by {
                    assert(pid_of(s[0]) < pid_of(s[q + 1]));
                }
                lemma_state_absent(rest, p);
            }
        } else {
            assert forall|i: int, j: int| 0 <= i < j < rest.len() implies #[trigger] pid_of(rest[i]) < #[trigger] pid_of(
                rest[j],
            ) by {
                assert(pid_of(s[i + 1]) < pid_of(s[j + 1]));
            }
            assert forall|q: int| 0 <= q < pos - 1 implies #[trigger] pid_of(rest[q]) < p by {
                assert(pid_of(s[q + 1]) < p);
            }
            assert(pid_of(s[0]) < p);
            lemma_state_in(rest, p, pos - 1);
        }
    }
}

proof fn lemma_state_absent(s: Seq<(TraceProcessId, TraceeState)>, p: u32)
    requires
        forall|q: int| 0 <= q < s.len() ==> #[trigger] pid_of(s[q]) != p,
    ensures
        state_in(s, p) is None,
    decreases s.len(),
{
    if s.len() > 0 {
        let rest = s.subrange(1, s.len() as int);
        assert forall|q: int| 0 <= q < rest.len() implies #[trigger] pid_of(rest[q]) != p by {
            assert(rest[q] == s[q + 1]);
        }
        lemma_state_absent(rest, p);
    }
}

proof fn lemma_put_at(s: Seq<(TraceProcessId, TraceeState)>, e: (TraceProcessId, TraceeState), pos: int)
    requires
        pids_increasing(s),
        0 <= pos <= s.len(),
        forall|q: int| 0 <= q < pos ==> #[trigger] pid_of(s[q]) < pid_of(e),
        pos < s.len() ==> pid_of(s[pos]) >= pid_of(e),
    ensures
        put_by_pid(s, e) == (if pos < s.len() && pid_of(s[pos]) == pid_of(e) {
            s.update(pos, e)
        } else {
            s.insert(pos, e)
        }),
        pids_increasing(put_by_pid(s, e)),
    decreases s.len(),
{
    if s.len() == 0 {
        assert(s.insert(pos, e) =~= seq![e]);
    } else {
        let rest = s.subrange(1, s.len() as int);
        if pos == 0 {
            if pid_of(e) < pid_of(s[0]) {
                assert(s.insert(0, e) =~= seq![e] + s);
            } else {
                assert(s.update(0, e) =~= seq![e] + rest);
            }
        } else {
            assert forall|i: int, j: int| 0 <= i < j < rest.len() implies #[trigger] pid_of(rest[i]) < #[trigger] pid_of(
                rest[j],
            ) by {
                assert(pid_of(s[i + 1]) < pid_of(s[j + 1]));
            }
            assert forall|q: int| 0 <= q < pos - 1 implies #[trigger] pid_of(rest[q]) < pid_of(e) by {
                assert(pid_of(s[q + 1]) < pid_of(e));
            }
            assert(pid_of(s[0]) < pid_of(e));
            lemma_put_at(rest, e, pos - 1);
            if pos < s.len() && pid_of(s[pos]) == pid_of(e) {
                assert(seq![s[0]] + rest.update(pos - 1, e) =~= s.update(pos, e));
            } else {
                assert(seq![s[0]] + rest.insert(pos - 1, e) =~= s.insert(pos, e));
            }
        }
    }
    let r = put_by_pid(s, e);
    if pos < s.len() && pid_of(s[pos]) == pid_of(e) {
        assert(r == s.update(pos, e));
        assert forall|i: int, j: int| 0 <= i < j < r.len() implies #[trigger] pid_of(r[i]) < #[trigger] pid_of(r[j]) by {
            if i == pos {
                assert(pid_of(s[pos]) < pid_of(s[j]));
            } else if j == pos {
                assert(pid_of(s[i]) < pid_of(s[pos]));
            } else {
                assert(pid_of(s[i]) < pid_of(s[j]));
            }
        }
    } else {
        assert(r == s.insert(pos, e));
        assert forall|i: int, j: int| 0 <= i < j < r.len() implies #[trigger] pid_of(r[i]) < #[trigger] pid_of(r[j]) by {
            if i == pos {
                assert(pid_of(e) < pid_of(s[j - 1]));
            } else if j == pos {
                assert(pid_of(s[i]) < pid_of(e));
            } else if j < pos {
                assert(pid_of(s[i]) < pid_of(s[j]));
            } else if i < pos {
                assert(pid_of(s[i]) < pid_of(s[j - 1]));
            } else {
                assert(pid_of(s[i - 1]) < pid_of(s[j - 1]));
            }
        }
    }
}

proof fn lemma_filter_increasing(s: Seq<(TraceProcessId, TraceeState)>, pred: spec_fn((TraceProcessId, TraceeState)) -> bool)
    requires
        pids_increasing(s),
    ensures
        pids_increasing(s.filter(pred)),
    decreases s.len(),
{
    broadcast use vstd::seq_lib::group_filter_ensures;

    if s.len() > 0 {
        let init = s.drop_last();
        assert forall|i: int, j: int| 0 <= i < j < init.len() implies #[trigger] pid_of(init[i]) < #[trigger] pid_of(
            init[j],
        ) by {
            assert(pid_of(s[i]) < pid_of(s[j]));
        }
        lemma_filter_increasing(init, pred);
        assert(s =~= init.push(s.last()));
        init.lemma_filter_push(s.last(), pred);
        if pred(s.last()) {
            let f = init.filter(pred);
            let r = f.push(s.last());
            assert forall|i: int, j: int| 0 <= i < j < r.len() implies #[trigger] pid_of(r[i]) < #[trigger] pid_of(r[j]) by {
                if j == f.len() {
                    assert(f.contains(f[i]));
                    init.lemma_filter_contains_rev(pred, f[i]);
                    let k = choose|k: int| 0 <= k < init.len() && init[k] == f[i];
                    assert(pid_of(s[k]) < pid_of(s[s.len() - 1]));
                } else {
                    assert(pid_of(f[i]) < pid_of(f[j]));
                }
            }
        }
    }
}

/// Finds where identifier `p` stands in an ordered table: the first entry whose
/// identifier is not smaller, and whether it is `p`.
fn find_position(entries: &Vec<(TraceProcessId, TraceeState)>, p: u32) -> (r: (usize, bool))
    requires
        pids_increasing(entries@),
    ensures
        r.0 <= entries@.len(),
        forall|q: int| 0 <= q < r.0 ==> #[trigger] pid_of(entries@[q]) < p,
        r.0 < entries@.len() ==> pid_of(entries@[r.0 as int]) >= p,
        r.1 == (r.0 < entries@.len() && pid_of(entries@[r.0 as int]) == p),
        state_in(entries@, p) == (if r.1 {
            Some(entries@[r.0 as int].1)
        } else {
            None::<TraceeState>
        }),
{
    let mut i: usize = 0;
    while i < entries.len() && entries[i].0.get() < p
        invariant
            i <= entries@.len(),
            forall|q: int| 0 <= q < i ==> #[trigger] pid_of(entries@[q]) < p,
        decreases entries@.len() - i,
    {
        i = i + 1;
    }
    let found = i < entries.len() && entries[i].0.get() == p;
    proof {
        lemma_state_in(entries@, p, i as int);
    }
    (i, found)
}

/// Puts an entry into an ordered table; see `put_by_pid`.
fn put_entry(entries: &mut Vec<(TraceProcessId, TraceeState)>, e: (TraceProcessId, TraceeState)) -> (r: Option<TraceeState>)
    requires
        pids_increasing(old(entries)@),
    ensures
        final(entries)@ == put_by_pid(old(entries)@, e),
        pids_increasing(final(entries)@),
        r == state_in(old(entries)@, pid_of(e)),
{
    let (pos, found) = find_position(entries, e.0.get());
    let ghost before = entries@;
    proof {
        lemma_put_at(before, e, pos as int);
    }
    if found {
        let (_, previous) = entries.remove(pos);
        entries.insert(pos, e);
        assert(entries@ =~= before.update(pos as int, e));
        Some(previous)
    } else {
        entries.insert(pos, e);
        None
    }
}

/// The retained tracees of one active trace, held in increasing order of identifier.
#[derive(Debug)]
pub struct TraceProcessTable {
    entries: Vec<(TraceProcessId, TraceeState)>,
}

impl TraceProcessTable {
    #[verifier::type_invariant]
    spec fn ordered(self) -> bool {
        pids_increasing(self.entries@)
    }

    /// The entries in increasing order of identifier.
    pub closed spec fn entries_of(self) -> Seq<(TraceProcessId, TraceeState)> {
        self.entries@
    }

    /// An empty table.
    pub fn new() -> (r: Self)
        ensures
            r.entries_of() == Seq::<(TraceProcessId, TraceeState)>::empty(),
    {
        TraceProcessTable { entries: Vec::new() }
    }

    /// The number of retained tracees.
    pub fn len(&self) -> (r: usize)
        ensures
            r == self.entries_of().len(),
    {
        self.entries.len()
    }

    /// Reports whether `process` is retained.
    pub fn contains(&self, process: TraceProcessId) -> (r: bool)
        ensures
            r == state_in(self.entries_of(), process.value()) is Some,
    {
        proof {
            use_type_invariant(self);
        }
        let (_, found) = find_position(&self.entries, process.get());
        found
    }

    /// The state retained for `process`.
    pub fn get(&self, process: TraceProcessId) -> (r: Option<&TraceeState>)
        ensures
            match state_in(self.entries_of(), process.value()) {
                None => r is None,
                Some(st) => r matches Some(x) && *x == st,
            },
    {
        proof {
            use_type_invariant(self);
        }
        let (pos, found) = find_position(&self.entries, process.get());
        if found {
            Some(&self.entries[pos].1)
        } else {
            None
        }
    }

    /// Retains `state` for `process`, returning the state it replaces.
    pub fn insert(&mut self, process: TraceProcessId, state: TraceeState) -> (r: Option<TraceeState>)
        ensures
            final(self).entries_of() == put_by_pid(old(self).entries_of(), (process, state)),
            r == state_in(old(self).entries_of(), process.value()),
    {
        proof {
            use_type_invariant(&*self);
        }
        let mut entries: Vec<(TraceProcessId, TraceeState)> = Vec::new();
        std::mem::swap(&mut entries, &mut self.entries);
        let r = put_entry(&mut entries, (process, state));
        self.entries = entries;
        r
    }

    /// Takes the system call `process` is inside, leaving it inside none.
    pub fn take_pending(&mut self, process: TraceProcessId) -> (r: Option<PendingTraceSyscall>)
        ensures
            match state_in(old(self).entries_of(), process.value()) {
                None => r is None && final(self).entries_of() == old(self).entries_of(),
                Some(st) => r == st.pending && final(self).entries_of() == put_by_pid(
                    old(self).entries_of(),
                    (process, TraceeState { pending: None, ..st }),
                ),
            },
    {
        proof {
            use_type_invariant(&*self);
        }
        let (pos, found) = find_position(&self.entries, process.get());
        if !found {
            return None;
        }
        let mut entries: Vec<(TraceProcessId, TraceeState)> = Vec::new();
        std::mem::swap(&mut entries, &mut self.entries);
        let ghost before = entries@;
        let (id, state) = entries.remove(pos);
        let TraceeState { thread_group, awaiting_initial_stop, pending } = state;
        let e = (process, TraceeState { thread_group, awaiting_initial_stop, pending: None });
        proof {
            assert(id == before[pos as int].0);
            assert(pid_of(e) == pid_of(before[pos as int]));
            lemma_put_at(before, e, pos as int);
        }
        entries.insert(pos, e);
        assert(entries@ =~= before.update(pos as int, e));
        self.entries = entries;
        pending
    }
}

/// Reconciles a successful exec stop with the retained tracees; see
/// `exec_reconciliation`. On an error the table is unchanged.
pub fn reconcile_exec_processes(
    processes: &mut TraceProcessTable,
    requested: TraceProcessId,
    reported: TraceProcessId,
    former: TraceProcessId,
) -> (r: Result<ExecIdentityChange, TraceObservationError>)
    ensures
        match exec_reconciliation(old(processes).entries_of(), requested, reported, former) {
            Err(e) => r == Err::<ExecIdentityChange, TraceObservationError>(e) && final(processes).entries_of() == old(
                processes,
            ).entries_of(),
            Ok((table, superseded)) => r matches Ok(c) && c.former == former && c.survivor == reported
                && c.superseded@ == superseded && final(processes).entries_of() == table,
        },
{
    proof {
        use_type_invariant(&*processes);
    }
    let ghost s = processes.entries@;
    if reported.get() != requested.get() {
        return Err(TraceObservationError::ProcessIdentityChanged);
    }
    let (r_pos, r_found) = find_position(&processes.entries, reported.get());
    let (f_pos, f_found) = find_position(&processes.entries, former.get());
    if !r_found || !f_found {
        return Err(TraceObservationError::ProcessUnknown);
    }
    if processes.entries[r_pos].1.thread_group.get() != reported.get() || processes.entries[f_pos].1.thread_group.get()
        != reported.get() {
        return Err(TraceObservationError::ProcessIdentityChanged);
    }
    let ghost keep = kept_by_exec(reported, former);
    let ghost drop = superseded_by_exec(reported, former);
    let mut old_entries: Vec<(TraceProcessId, TraceeState)> = Vec::new();
    std::mem::swap(&mut old_entries, &mut processes.entries);
    let mut kept: Vec<(TraceProcessId, TraceeState)> = Vec::new();
    let mut superseded: Vec<TraceProcessId> = Vec::new();
    let mut moved: Option<PendingTraceSyscall> = None;
    let mut k: usize = 0;
    let n = old_entries.len();
    while k < n
        invariant
            n == s.len(),
            k <= n,
            old_entries@ == s.subrange(k as int, n as int),
            f_pos < n,
            pid_of(s[f_pos as int]) == former.value(),
            pids_increasing(s),
            keep == kept_by_exec(reported, former),
            drop == superseded_by_exec(reported, former),
            kept@ == s.take(k as int).filter(keep),
            superseded@ == entry_ids(s.take(k as int).filter(drop)),
            k > f_pos ==> moved == s[f_pos as int].1.pending,
        decreases n - k,
    {
        let ghost before = old_entries@;
        let (id, state) = old_entries.remove(0);
        proof {
            assert(before[0] == s[k as int]);
            assert(id == s[k as int].0 && state == s[k as int].1);
            assert(old_entries@ =~= s.subrange(k + 1, n as int));
            assert(s.take(k + 1) =~= s.take(k as int).push(s[k as int]));
            s.take(k as int).lemma_filter_push(s[k as int], keep);
            s.take(k as int).lemma_filter_push(s[k as int], drop);
            if id == former {
                if k as int != f_pos as int {
                    if (k as int) < (f_pos as int) {
                        assert(pid_of(s[k as int]) < pid_of(s[f_pos as int]));
                    } else {
                        assert(pid_of(s[f_pos as int]) < pid_of(s[k as int]));
                    }
                }
            }
        }
        if id.get() == former.get() {
            moved = state.pending;
        } else if state.thread_group.get() == reported.get() {
            superseded.push(id);
            proof {
                let f = s.take(k as int).filter(drop);
                assert(entry_ids(f.push(s[k as int])) =~= entry_ids(f).push(id));
            }
        } else {
            kept.push((id, state));
        }
        proof {
            if k as int == f_pos as int {
                assert(id == former);
            }
        }
        k = k + 1;
    }
    proof {
        assert(s.take(n as int) =~= s);
        lemma_filter_increasing(s, keep);
    }
    let exec_state = TraceeState { thread_group: reported, awaiting_initial_stop: false, pending: moved };
    put_entry(&mut kept, (reported, exec_state));
    processes.entries = kept;
    Ok(ExecIdentityChange { former, survivor: reported, superseded })
}

} // verus!
