//! Supervision of one paused launcher: the decisions over descriptors, process
//! status and bounded stream capture, the hidden-launcher bootstrap, and the
//! operational timings of a supervisor run.
use vstd::prelude::*;
use vstd::string::StringSliceAdditionalSpecFns;

use crate::launcher::{string_models, IdentityModel, InstallRequest, LauncherError, LauncherIdentity};
use crate::model::{is_version4, CgroupIdentity, ExecutionId, Sha256Digest};
use crate::probe::{architecture_name, Architecture, LandlockAbi};
use crate::receipt::{BoundaryInstallation, ExecutionOutcome, SignalNumber, StreamCapture};
use crate::text::{
    ascii_string, bytes_equal, decimal_string, decimal_text, decimal_value, hex_decode, hex_string, lemma_decimal_round_trip,
    lemma_lower_hex_round_trip, lower_hex, string_bytes, unsigned_digits, unsigned_text,
};

verus! {

/// The signal the kernel sends when a seccomp filter kills a process (`SIGSYS`).
pub const LINUX_SIGNAL_SYS: u32 = 31;

/// The largest duration, in nanoseconds: `Duration::MAX`.
pub const DURATION_MAX_NANOS: u128 = 18446744073709551615999999999;

/// Identifies one supervisor lifecycle failure.
#[derive(Clone, Copy, Debug, PartialEq, Eq, Structural)]
pub enum SupervisorError {
    /// The host operating system is not Linux.
    UnsupportedOperatingSystem,
    /// A declared inherited descriptor was absent or duplicated.
    DescriptorSetInvalid,
    /// The launcher process could not be created.
    SpawnFailed,
    /// The launcher did not enter its initial stopped state.
    PauseNotObserved,
    /// The stopped launcher could not be placed in the fresh cgroup.
    CgroupPlacementFailed,
    /// The launcher could not be resumed after cgroup placement.
    ResumeFailed,
    /// The private install request could not be sent.
    ProtocolSendFailed,
    /// The launcher acknowledgement was absent or invalid.
    ProtocolFailed,
    /// The child process status could not be observed.
    WaitFailed,
    /// A standard-stream reader failed or panicked.
    StreamReadFailed,
    /// The process tree or fresh cgroup could not be cleaned up.
    CleanupFailed,
}

/// The stable machine-readable code of each supervisor error.
pub open spec fn supervisor_error_code(e: SupervisorError) -> Seq<char> {
    match e {
        SupervisorError::UnsupportedOperatingSystem => "supervisor.os.unsupported"@,
        SupervisorError::DescriptorSetInvalid => "supervisor.descriptor-set.invalid"@,
        SupervisorError::SpawnFailed => "supervisor.spawn.failed"@,
        SupervisorError::PauseNotObserved => "supervisor.pause.not-observed"@,
        SupervisorError::CgroupPlacementFailed => "supervisor.cgroup.placement-failed"@,
        SupervisorError::ResumeFailed => "supervisor.resume.failed"@,
        SupervisorError::ProtocolSendFailed => "supervisor.protocol.send-failed"@,
        SupervisorError::ProtocolFailed => "supervisor.protocol.failed"@,
        SupervisorError::WaitFailed => "supervisor.wait.failed"@,
        SupervisorError::StreamReadFailed => "supervisor.stream.read-failed"@,
        SupervisorError::CleanupFailed => "supervisor.cleanup.failed"@,
    }
}

impl SupervisorError {
    /// Returns the stable machine-readable error code.
    pub fn code(self) -> (r: &'static str)
        ensures
            r@ == supervisor_error_code(self),
    {
        match self {
            SupervisorError::UnsupportedOperatingSystem => "supervisor.os.unsupported",
            SupervisorError::DescriptorSetInvalid => "supervisor.descriptor-set.invalid",
            SupervisorError::SpawnFailed => "supervisor.spawn.failed",
            SupervisorError::PauseNotObserved => "supervisor.pause.not-observed",
            SupervisorError::CgroupPlacementFailed => "supervisor.cgroup.placement-failed",
            SupervisorError::ResumeFailed => "supervisor.resume.failed",
            SupervisorError::ProtocolSendFailed => "supervisor.protocol.send-failed",
            SupervisorError::ProtocolFailed => "supervisor.protocol.failed",
            SupervisorError::WaitFailed => "supervisor.wait.failed",
            SupervisorError::StreamReadFailed => "supervisor.stream.read-failed",
            SupervisorError::CleanupFailed => "supervisor.cleanup.failed",
        }
    }
}

/// Distinct supervisor errors have distinct codes.
pub proof fn lemma_supervisor_codes_distinct(a: SupervisorError, b: SupervisorError)
    requires
        a != b,
    ensures
        supervisor_error_code(a) != supervisor_error_code(b),
{
    reveal_strlit("supervisor.os.unsupported");
    reveal_strlit("supervisor.descriptor-set.invalid");
    reveal_strlit("supervisor.spawn.failed");
    reveal_strlit("supervisor.pause.not-observed");
    reveal_strlit("supervisor.cgroup.placement-failed");
    reveal_strlit("supervisor.resume.failed");
    reveal_strlit("supervisor.protocol.send-failed");
    reveal_strlit("supervisor.protocol.failed");
    reveal_strlit("supervisor.wait.failed");
    reveal_strlit("supervisor.stream.read-failed");
    reveal_strlit("supervisor.cleanup.failed");
    let ca = supervisor_error_code(a);
    let cb = supervisor_error_code(b);
    if ca.len() == cb.len() {
        assert(ca[11] != cb[11]);
    }
}


/// Non-overlapping operational timings for one successful supervisor return, each in
/// nanoseconds. These values are benchmark telemetry only: they are neither receipt
/// facts nor launcher-protocol fields.
#[derive(Clone, Copy, Debug, PartialEq, Eq)]
pub struct SupervisorTimings {
    launcher_creation: u128,
    boundary_installation: u128,
    process_execution: u128,
    cleanup: u128,
    stream_collection: u128,
}

impl SupervisorTimings {
    #[verifier::type_invariant]
    spec fn durations(self) -> bool {
        &&& self.launcher_creation <= DURATION_MAX_NANOS
        &&& self.boundary_installation <= DURATION_MAX_NANOS
        &&& self.process_execution <= DURATION_MAX_NANOS
        &&& self.cleanup <= DURATION_MAX_NANOS
        &&& self.stream_collection <= DURATION_MAX_NANOS
    }

    /// The five phase durations, in order.
    pub closed spec fn phases(self) -> Seq<u128> {
        seq![
            self.launcher_creation,
            self.boundary_installation,
            self.process_execution,
            self.cleanup,
            self.stream_collection,
        ]
    }

    /// Records the five phase durations, each a duration in nanoseconds.
    pub fn new(
        launcher_creation: u128,
        boundary_installation: u128,
        process_execution: u128,
        cleanup: u128,
        stream_collection: u128,
    ) -> (r: Self)
        requires
            launcher_creation <= DURATION_MAX_NANOS,
            boundary_installation <= DURATION_MAX_NANOS,
            process_execution <= DURATION_MAX_NANOS,
            cleanup <= DURATION_MAX_NANOS,
            stream_collection <= DURATION_MAX_NANOS,
        ensures
            r.phases() == seq![launcher_creation, boundary_installation, process_execution, cleanup, stream_collection],
    {
        SupervisorTimings { launcher_creation, boundary_installation, process_execution, cleanup, stream_collection }
    }

    /// Returns time through creation and observation of the stopped launcher.
    pub fn launcher_creation(self) -> (r: u128)
        ensures
            r == self.phases()[0],
    {
        self.launcher_creation
    }

    /// Returns time from the stopped launcher through its boundary response.
    pub fn boundary_installation(self) -> (r: u128)
        ensures
            r == self.phases()[1],
    {
        self.boundary_installation
    }

    /// Returns time from the boundary response through terminal child status.
    pub fn process_execution(self) -> (r: u128)
        ensures
            r == self.phases()[2],
    {
        self.process_execution
    }

    /// Returns time spent draining the exact cgroup and waiting for the child.
    pub fn cleanup(self) -> (r: u128)
        ensures
            r == self.phases()[3],
    {
        self.cleanup
    }

    /// Returns time spent joining the already-running bounded stream drains.
    pub fn stream_collection(self) -> (r: u128)
        ensures
            r == self.phases()[4],
    {
        self.stream_collection
    }

    /// Returns the sum of all five intervals, saturating at the largest duration.
    pub fn total(self) -> (r: u128)
        ensures
            r == if self.phases()[0] + self.phases()[1] + self.phases()[2] + self.phases()[3] + self.phases()[4]
                <= DURATION_MAX_NANOS {
                self.phases()[0] + self.phases()[1] + self.phases()[2] + self.phases()[3] + self.phases()[4]
            } else {
                DURATION_MAX_NANOS as int
            },
    {
        proof {
            use_type_invariant(&self);
        }
        let phases = [
            self.launcher_creation,
            self.boundary_installation,
            self.process_execution,
            self.cleanup,
            self.stream_collection,
        ];
        let mut sum: u128 = 0;
        let mut k: usize = 0;
        while k < 5
            invariant
                k <= 5,
                phases@ == self.phases(),
                forall|j: int| 0 <= j < 5 ==> phases@[j] <= DURATION_MAX_NANOS,
                sum == if phases@.take(k as int).fold_left(0int, |a: int, x: u128| a + x) <= DURATION_MAX_NANOS {
                    phases@.take(k as int).fold_left(0int, |a: int, x: u128| a + x)
                } else {
                    DURATION_MAX_NANOS as int
                },
            decreases 5 - k,
        {
            proof {
                assert(phases@.take(k + 1).drop_last() =~= phases@.take(k as int));
            }
            let next = phases[k];
            if sum > DURATION_MAX_NANOS - next {
                sum = DURATION_MAX_NANOS;
            } else {
                sum = sum + next;
            }
            k = k + 1;
        }
        proof {
            let p = phases@;
            assert(p.take(5) =~= p);
            reveal_with_fuel(vstd::seq::Seq::fold_left, 6);
            assert(p.take(0) =~= Seq::<u128>::empty());
        }
        sum
    }
}

/// `r` is the outcome a supervisor assigns to one terminated process, in order of
/// precedence: a launcher failure, a timeout, the seccomp kill signal (a denial),
/// any other nonzero signal, an exit code, and otherwise an incomplete observation.
pub open spec fn process_outcome(
    r: ExecutionOutcome,
    exit_code: Option<i32>,
    signal: Option<u32>,
    timed_out: bool,
    launcher_failed: bool,
) -> bool {
    if launcher_failed {
        r == ExecutionOutcome::LauncherFailed
    } else if timed_out {
        r == ExecutionOutcome::TimedOut
    } else if signal == Some(LINUX_SIGNAL_SYS) {
        r == ExecutionOutcome::Denied
    } else if signal matches Some(s) && s != 0 {
        r matches ExecutionOutcome::Signaled { signal: n } && n.value() == signal->0
    } else if exit_code is Some {
        r == ExecutionOutcome::Exited { code: exit_code->0 }
    } else {
        r == ExecutionOutcome::Incomplete
    }
}

/// Classifies one terminated process.
pub fn classify_process_result(
    exit_code: Option<i32>,
    signal: Option<u32>,
    timed_out: bool,
    launcher_failed: bool,
) -> (r: ExecutionOutcome)
    ensures
        process_outcome(r, exit_code, signal, timed_out, launcher_failed),
{
    if launcher_failed {
        ExecutionOutcome::LauncherFailed
    } else if timed_out {
        ExecutionOutcome::TimedOut
    } else if signal == Some(LINUX_SIGNAL_SYS) {
        ExecutionOutcome::Denied
    } else {
        match signal {
            Some(s) if s != 0 => ExecutionOutcome::Signaled { signal: SignalNumber::from_nonzero(s) },
            _ => match exit_code {
                Some(code) => ExecutionOutcome::Exited { code },
                None => ExecutionOutcome::Incomplete,
            },
        }
    }
}


/// Contains one bounded standard-stream capture.
#[derive(Clone, Debug, PartialEq, Eq)]
pub struct CapturedStream {
    bytes: Vec<u8>,
    capture: StreamCapture,
}

impl CapturedStream {
    pub closed spec fn bytes_of(self) -> Seq<u8> {
        self.bytes@
    }

    pub closed spec fn capture_of(self) -> StreamCapture {
        self.capture
    }

    /// Returns the retained prefix of the observed stream.
    pub fn bytes(&self) -> (r: &[u8])
        ensures
            r@ == self.bytes_of(),
    {
        self.bytes.as_slice()
    }

    /// Reports whether bytes after the retained prefix were discarded.
    pub fn capture(&self) -> (r: StreamCapture)
        ensures
            r == self.capture_of(),
    {
        self.capture
    }
}

/// The capture of an observed stream under a byte limit: its first `limit` bytes, and
/// `Truncated` exactly when more were observed.
pub open spec fn captured(observed: Seq<u8>, limit: u64) -> (Seq<u8>, StreamCapture) {
    if observed.len() <= limit {
        (observed, StreamCapture::Complete)
    } else {
        (observed.take(limit as int), StreamCapture::Truncated)
    }
}

/// A bounded capture in progress: the stream is read in chunks, each handed to
/// `absorb`, and `finish` yields the capture.
pub struct CaptureBuffer {
    limit: u64,
    bytes: Vec<u8>,
    truncated: bool,
    observed: Ghost<Seq<u8>>,
}

impl CaptureBuffer {
    /// The retained bytes and the truncation flag agree with what was observed.
    pub closed spec fn wf(self) -> bool {
        &&& self.bytes@ == captured(self.observed@, self.limit).0
        &&& self.truncated == (self.observed@.len() > self.limit)
    }

    /// Every byte observed so far, in order.
    pub closed spec fn observed(self) -> Seq<u8> {
        self.observed@
    }

    /// The byte limit of the capture.
    pub closed spec fn limit(self) -> u64 {
        self.limit
    }

    /// Starts a capture that retains at most `limit` bytes.
    pub fn new(limit: u64) -> (r: Self)
        ensures
            r.wf(),
            r.observed() == Seq::<u8>::empty(),
            r.limit() == limit,
    {
        CaptureBuffer { limit, bytes: Vec::new(), truncated: false, observed: Ghost(Seq::empty()) }
    }

    /// Takes in the next chunk of the stream: the part that still fits under the limit
    /// is retained, the rest is counted as discarded.
    pub fn absorb(&mut self, chunk: &[u8])
        requires
            old(self).wf(),
        ensures
            final(self).wf(),
            final(self).observed() == old(self).observed() + chunk@,
            final(self).limit() == old(self).limit(),
    {
        let ghost before = self.observed@;
        let held = self.bytes.len();
        let room: usize = if (held as u64) < self.limit {
            let r = self.limit - held as u64;
            if r > chunk.len() as u64 {
                chunk.len()
            } else {
                r as usize
            }
        } else {
            0
        };
        assert(held == if before.len() <= self.limit { before.len() } else { self.limit as nat });
        let mut k: usize = 0;
        while k < room
            invariant
                k <= room <= chunk@.len(),
                held == if before.len() <= self.limit { before.len() } else { self.limit as nat },
                room == if held < self.limit { if self.limit - held > chunk@.len() { chunk@.len() as int } else { self.limit - held } } else { 0 },
                self.truncated == old(self).truncated,
                old(self).truncated == (before.len() > self.limit),
                self.limit == old(self).limit,
                before == old(self).observed@,
                self.bytes@ == captured(before, self.limit).0 + chunk@.take(k as int),
            decreases room - k,
        {
            self.bytes.push(chunk[k]);
            proof {
                assert(chunk@.take(k + 1) =~= chunk@.take(k as int).push(chunk@[k as int]));
                assert(self.bytes@ =~= captured(before, self.limit).0 + chunk@.take(k + 1));
            }
            k = k + 1;
        }
        self.truncated = self.truncated || room < chunk.len();
        let ghost after = before + chunk@;
        proof {
            assert(self.truncated == (after.len() > self.limit));
            if after.len() <= self.limit {
                assert(chunk@.take(room as int) =~= chunk@);
                assert(self.bytes@ =~= after);
            } else if before.len() <= self.limit {
                assert(self.bytes@ =~= after.take(self.limit as int));
            } else {
                assert(before.take(self.limit as int) =~= after.take(self.limit as int));
            }
        }
        self.observed = Ghost(after);
    }

    /// Ends the capture: the retained prefix, and whether anything was discarded.
    pub fn finish(self) -> (r: CapturedStream)
        requires
            self.wf(),
        ensures
            (r.bytes_of(), r.capture_of()) == captured(self.observed(), self.limit()),
    {
        let capture = if self.truncated {
            StreamCapture::Truncated
        } else {
            StreamCapture::Complete
        };
        CapturedStream { bytes: self.bytes, capture }
    }
}

/// How the launcher answered the install request.
#[derive(Clone, Copy, Debug, PartialEq, Eq)]
pub enum LauncherResponse {
    /// No answer arrived before the wall-time deadline.
    TimedOut,
    /// The launcher acknowledged the installed boundary; `late_failure` records a
    /// failure report that arrived after the child finished.
    Installed { late_failure: bool },
    /// The launcher reported a failure before the boundary was complete.
    Failed,
}

/// Decides the boundary state and the outcome of a supervised run from the
/// launcher's answer and the outcome observed for the process: only an acknowledged
/// installation counts as installed, and a failure report always means the launcher failed.
pub fn lifecycle_outcome(response: LauncherResponse, observed: ExecutionOutcome) -> (r: (
    BoundaryInstallation,
    ExecutionOutcome,
))
    ensures
        r == match response {
            LauncherResponse::TimedOut => (BoundaryInstallation::Incomplete, ExecutionOutcome::TimedOut),
            LauncherResponse::Installed { late_failure } => (
                BoundaryInstallation::Installed,
                if late_failure {
                    ExecutionOutcome::LauncherFailed
                } else {
                    observed
                },
            ),
            LauncherResponse::Failed => (BoundaryInstallation::Incomplete, ExecutionOutcome::LauncherFailed),
        },
{
    match response {
        LauncherResponse::TimedOut => (BoundaryInstallation::Incomplete, ExecutionOutcome::TimedOut),
        LauncherResponse::Installed { late_failure } => (
            BoundaryInstallation::Installed,
            if late_failure {
                ExecutionOutcome::LauncherFailed
            } else {
                observed
            },
        ),
        LauncherResponse::Failed => (BoundaryInstallation::Incomplete, ExecutionOutcome::LauncherFailed),
    }
}


/// The model of a hidden-launcher bootstrap.
pub struct LauncherBootstrapModel {
    pub channel_fd: u32,
    pub identity: IdentityModel,
    pub architecture: Architecture,
    pub landlock_abi: u32,
}

/// The architecture a bootstrap value names.
pub open spec fn architecture_of_name(s: Seq<u8>) -> Option<Architecture> {
    if s == "x86_64".spec_bytes() {
        Some(Architecture::X86_64)
    } else if s == "aarch64".spec_bytes() {
        Some(Architecture::Aarch64)
    } else {
        None
    }
}

/// The value `u32::from_str` reads from text, if it reads one.
pub open spec fn u32_value(s: Seq<u8>) -> Option<u32> {
    if unsigned_text(s) && decimal_value(unsigned_digits(s)) <= u32::MAX {
        Some(decimal_value(unsigned_digits(s)) as u32)
    } else {
        None
    }
}

/// The value `u64::from_str` reads from text, if it reads one.
pub open spec fn u64_value(s: Seq<u8>) -> Option<u64> {
    if unsigned_text(s) && decimal_value(unsigned_digits(s)) <= u64::MAX {
        Some(decimal_value(unsigned_digits(s)) as u64)
    } else {
        None
    }
}

/// Text holds exactly `n` bytes in lower-case hexadecimal.
pub open spec fn lower_hex_of_len(s: Seq<u8>, n: nat) -> bool {
    s.len() == 2 * n && crate::text::all_lower_hex(s)
}

/// The bootstrap that eight launcher arguments denote, if they denote one: the fixed
/// mode word, the channel descriptor, the version 4 execution identifier and policy
/// digest in lower-case hexadecimal, the cgroup mount and inode, the architecture
/// name and a nonzero Landlock ABI.
pub open spec fn launcher_bootstrap_of(args: Seq<Seq<u8>>) -> Option<LauncherBootstrapModel> {
    if args.len() == 8 && args[0] == "__proofbound_launcher_v1".spec_bytes() && u32_value(args[1]) is Some
        && lower_hex_of_len(args[2], 16) && is_version4(hex_decode(args[2])) && lower_hex_of_len(args[3], 32)
        && u64_value(args[4]) is Some && u64_value(args[5]) is Some && architecture_of_name(args[6]) is Some
        && (u32_value(args[7]) matches Some(abi) && abi != 0) {
        Some(
            LauncherBootstrapModel {
                channel_fd: u32_value(args[1])->0,
                identity: IdentityModel {
                    execution: hex_decode(args[2]),
                    policy: hex_decode(args[3]),
                    mount: u64_value(args[4])->0,
                    inode: u64_value(args[5])->0,
                },
                architecture: architecture_of_name(args[6])->0,
                landlock_abi: u32_value(args[7])->0,
            },
        )
    } else {
        None
    }
}

/// The decimal text of a signed number, as `i32::to_string` writes it.
pub open spec fn signed_decimal_text(v: int) -> Seq<u8> {
    if v >= 0 {
        decimal_text(v as nat)
    } else {
        seq![0x2du8] + decimal_text((-v) as nat)
    }
}

/// The eight launcher arguments of a bootstrap.
pub open spec fn launcher_argument_bytes(
    channel_fd: int,
    identity: IdentityModel,
    architecture: Architecture,
    landlock_abi: u32,
) -> Seq<Seq<u8>> {
    seq![
        "__proofbound_launcher_v1".spec_bytes(),
        signed_decimal_text(channel_fd),
        lower_hex(identity.execution),
        lower_hex(identity.policy),
        decimal_text(identity.mount as nat),
        decimal_text(identity.inode as nat),
        vstd::utf8::encode_utf8(architecture_name(architecture)),
        decimal_text(landlock_abi as nat),
    ]
}

/// Contains the closed hidden-launcher bootstrap arguments.
#[derive(Clone, Copy, Debug, PartialEq, Eq)]
pub struct LauncherBootstrap {
    channel_descriptor: u32,
    identity: LauncherIdentity,
    architecture: Architecture,
    landlock_abi: LandlockAbi,
}

impl LauncherBootstrap {
    /// The model of this bootstrap.
    pub closed spec fn model(self) -> LauncherBootstrapModel {
        LauncherBootstrapModel {
            channel_fd: self.channel_descriptor,
            identity: self.identity.model(),
            architecture: self.architecture,
            landlock_abi: self.landlock_abi.value(),
        }
    }

    /// Returns the inherited private-channel descriptor.
    pub fn channel_descriptor(self) -> (r: u32)
        ensures
            r == self.model().channel_fd,
    {
        self.channel_descriptor
    }

    /// Returns the independently supplied execution identity tuple.
    pub fn identity(self) -> (r: LauncherIdentity)
        ensures
            r.model() == self.model().identity,
    {
        self.identity
    }

    /// Returns the supported audit architecture.
    pub fn architecture(self) -> (r: Architecture)
        ensures
            r == self.model().architecture,
    {
        self.architecture
    }

    /// Returns the Landlock ABI this supervisor requires.
    pub fn landlock_abi(self) -> (r: LandlockAbi)
        ensures
            r.value() == self.model().landlock_abi,
    {
        self.landlock_abi
    }
}

fn launcher_hex(value: &String, n: usize) -> (r: Option<Vec<u8>>)
    ensures
        r is Some <==> lower_hex_of_len(string_bytes(*value), n as nat),
        r matches Some(b) ==> b@ == hex_decode(string_bytes(*value)) && b@.len() == n,
{
    crate::text::decode_lower_hex(value.as_str().as_bytes(), n)
}

fn array16(v: &Vec<u8>) -> (r: [u8; 16])
    requires
        v@.len() == 16,
    ensures
        r@ == v@,
{
    let mut r = [0u8; 16];
    let mut k: usize = 0;
    while k < 16
        invariant
            k <= 16,
            v@.len() == 16,
            forall|j: int| 0 <= j < k ==> r@[j] == v@[j],
        decreases 16 - k,
    {
        r[k] = v[k];
        k = k + 1;
    }
    assert(r@ =~= v@);
    r
}

fn array32(v: &Vec<u8>) -> (r: [u8; 32])
    requires
        v@.len() == 32,
    ensures
        r@ == v@,
{
    let mut r = [0u8; 32];
    let mut k: usize = 0;
    while k < 32
        invariant
            k <= 32,
            v@.len() == 32,
            forall|j: int| 0 <= j < k ==> r@[j] == v@[j],
        decreases 32 - k,
    {
        r[k] = v[k];
        k = k + 1;
    }
    assert(r@ =~= v@);
    r
}

fn parse_architecture(value: &String) -> (r: Option<Architecture>)
    ensures
        r == architecture_of_name(string_bytes(*value)),
{
    proof {
        reveal_strlit("x86_64");
        reveal_strlit("aarch64");
    }
    if bytes_equal(value.as_str().as_bytes(), "x86_64".as_bytes()) {
        Some(Architecture::X86_64)
    } else if bytes_equal(value.as_str().as_bytes(), "aarch64".as_bytes()) {
        Some(Architecture::Aarch64)
    } else {
        None
    }
}

/// Parses the closed hidden-launcher command-line bootstrap; anything else is `Malformed`.
pub fn parse_launcher_bootstrap(args: &[String]) -> (r: Result<LauncherBootstrap, LauncherError>)
    ensures
        r is Ok <==> launcher_bootstrap_of(string_models(args@)) is Some,
        r matches Ok(b) ==> Some(b.model()) == launcher_bootstrap_of(string_models(args@)),
        r matches Err(e) ==> e == LauncherError::Malformed,
{
    let ghost a = string_models(args@);
    if args.len() != 8 || !bytes_equal(args[0].as_str().as_bytes(), "__proofbound_launcher_v1".as_bytes()) {
        return Err(LauncherError::Malformed);
    }
    assert(a[1] == string_bytes(args@[1]) && a[2] == string_bytes(args@[2]) && a[3] == string_bytes(args@[3]));
    assert(a[4] == string_bytes(args@[4]) && a[5] == string_bytes(args@[5]) && a[6] == string_bytes(args@[6]));
    assert(a[7] == string_bytes(args@[7]));
    let channel_descriptor = match crate::text::parse_unsigned_u32(args[1].as_str().as_bytes()) {
        Some(fd) => fd,
        None => {
            return Err(LauncherError::Malformed);
        },
    };
    let execution = match launcher_hex(&args[2], 16) {
        Some(b) => b,
        None => {
            return Err(LauncherError::Malformed);
        },
    };
    let execution_id = match ExecutionId::from_bytes(array16(&execution)) {
        Some(id) => id,
        None => {
            return Err(LauncherError::Malformed);
        },
    };
    let policy = match launcher_hex(&args[3], 32) {
        Some(b) => b,
        None => {
            return Err(LauncherError::Malformed);
        },
    };
    let policy_id = Sha256Digest::from_bytes(array32(&policy));
    let mount_id = match crate::text::parse_unsigned_u64(args[4].as_str().as_bytes()) {
        Some(v) => v,
        None => {
            return Err(LauncherError::Malformed);
        },
    };
    let inode = match crate::text::parse_unsigned_u64(args[5].as_str().as_bytes()) {
        Some(v) => v,
        None => {
            return Err(LauncherError::Malformed);
        },
    };
    let architecture = match parse_architecture(&args[6]) {
        Some(arch) => arch,
        None => {
            return Err(LauncherError::Malformed);
        },
    };
    let landlock_abi = match crate::text::parse_unsigned_u32(args[7].as_str().as_bytes()) {
        Some(v) => match LandlockAbi::new(v) {
            Some(abi) => abi,
            None => {
                return Err(LauncherError::Malformed);
            },
        },
        None => {
            return Err(LauncherError::Malformed);
        },
    };
    let identity = LauncherIdentity::new(execution_id, policy_id, CgroupIdentity::new(mount_id, inode));
    Ok(LauncherBootstrap { channel_descriptor, identity, architecture, landlock_abi })
}

fn signed_decimal_string(v: i32) -> (r: String)
    ensures
        string_bytes(r) == signed_decimal_text(v as int),
{
    if v >= 0 {
        decimal_string(v as u64)
    } else {
        let magnitude: u64 = (0i64 - v as i64) as u64;
        let digits = crate::text::format_decimal(magnitude);
        let mut bytes: Vec<u8> = Vec::new();
        bytes.push(0x2d);
        let mut k: usize = 0;
        while k < digits.len()
            invariant
                k <= digits@.len(),
                bytes@ == seq![0x2du8] + digits@.take(k as int),
            decreases digits@.len() - k,
        {
            bytes.push(digits[k]);
            proof {
                assert(digits@.take(k + 1) =~= digits@.take(k as int).push(digits@[k as int]));
            }
            k = k + 1;
        }
        proof {
            assert(digits@.take(digits@.len() as int) =~= digits@);
            crate::text::lemma_decimal_text_ascii(magnitude as nat);
            assert forall|j: int| 0 <= j < bytes@.len() implies bytes@[j] < 0x80 by {
                if j > 0 {
                    assert(bytes@[j] == digits@[j - 1]);
                }
            }
        }
        ascii_string(bytes)
    }
}

/// The hidden-launcher arguments of a bootstrap.
pub fn launcher_bootstrap_arguments(
    channel_descriptor: i32,
    identity: LauncherIdentity,
    architecture: Architecture,
    landlock_abi: LandlockAbi,
) -> (r: Vec<String>)
    ensures
        string_models(r@) == launcher_argument_bytes(
            channel_descriptor as int,
            identity.model(),
            architecture,
            landlock_abi.value(),
        ),
{
    let execution = identity.execution_id();
    let policy = identity.policy_id();
    let cgroup = identity.cgroup_id();
    let mut out: Vec<String> = Vec::new();
    out.push("__proofbound_launcher_v1".to_owned());
    out.push(signed_decimal_string(channel_descriptor));
    out.push(hex_string(execution.as_bytes()));
    out.push(hex_string(policy.as_bytes()));
    out.push(decimal_string(cgroup.mount_id()));
    out.push(decimal_string(cgroup.inode()));
    out.push(architecture.as_str().to_owned());
    out.push(decimal_string(landlock_abi.get() as u64));
    proof {
        assert(string_models(out@) =~= launcher_argument_bytes(
            channel_descriptor as int,
            identity.model(),
            architecture,
            landlock_abi.value(),
        ));
    }
    out
}

/// A bootstrap for a non-negative channel descriptor reads back exactly from its own
/// arguments.
pub proof fn lemma_launcher_bootstrap_round_trip(
    channel_fd: u32,
    identity: IdentityModel,
    architecture: Architecture,
    landlock_abi: u32,
)
    requires
        channel_fd <= i32::MAX,
        identity.execution.len() == 16 && is_version4(identity.execution),
        identity.policy.len() == 32,
        landlock_abi != 0,
    ensures
        launcher_bootstrap_of(launcher_argument_bytes(channel_fd as int, identity, architecture, landlock_abi)) == Some(
            LauncherBootstrapModel { channel_fd, identity, architecture, landlock_abi },
        ),
{
    reveal_strlit("x86_64");
    reveal_strlit("aarch64");
    let a = launcher_argument_bytes(channel_fd as int, identity, architecture, landlock_abi);
    lemma_decimal_round_trip(channel_fd as nat);
    lemma_decimal_round_trip(identity.mount as nat);
    lemma_decimal_round_trip(identity.inode as nat);
    lemma_decimal_round_trip(landlock_abi as nat);
    lemma_lower_hex_round_trip(identity.execution);
    lemma_lower_hex_round_trip(identity.policy);
    reveal_with_fuel(crate::text::ascii_upto, 8);
    crate::text::lemma_ascii_str_bytes("x86_64");
    crate::text::lemma_ascii_str_bytes("aarch64");
    assert("x86_64".spec_bytes().len() != "aarch64".spec_bytes().len());
    assert(unsigned_digits(a[1]) == a[1]);
    assert(unsigned_digits(a[4]) == a[4]);
    assert(unsigned_digits(a[5]) == a[5]);
    assert(unsigned_digits(a[7]) == a[7]);
    assert(architecture_of_name(a[6]) == Some(architecture));
}


/// The descriptors an install request names: the executable, the working directory
/// and each filesystem rule's descriptor.
pub open spec fn required_descriptors(m: crate::launcher::InstallModel) -> Seq<u32> {
    seq![m.executable_fd, m.working_directory_fd] + m.filesystem.map_values(|r: (u32, Seq<crate::landlock::LandlockAccess>)| r.0)
}

/// The inherited descriptors are exactly those the request names: none negative,
/// none repeated, every named one representable as a descriptor, and the two sets equal.
pub open spec fn descriptor_set_ok(required: Seq<u32>, actual: Seq<i32>) -> bool {
    &&& forall|i: int| 0 <= i < actual.len() ==> #[trigger] actual[i] >= 0
    &&& forall|i: int, j: int| 0 <= i < j < actual.len() ==> actual[i] != actual[j]
    &&& forall|k: int| 0 <= k < required.len() ==> #[trigger] required[k] <= i32::MAX
    &&& forall|i: int| 0 <= i < actual.len() ==> #[trigger] names_descriptor(required, actual[i] as int)
    &&& forall|k: int| 0 <= k < required.len() ==> #[trigger] inherits_descriptor(actual, required[k] as int)
}

/// The request names descriptor `fd`.
pub open spec fn names_descriptor(required: Seq<u32>, fd: int) -> bool {
    exists|k: int| 0 <= k < required.len() && required[k] == fd
}

/// Descriptor `fd` is inherited.
pub open spec fn inherits_descriptor(actual: Seq<i32>, fd: int) -> bool {
    exists|i: int| 0 <= i < actual.len() && actual[i] == fd
}

fn contains_fd(required: &[u32], fd: i32) -> (r: bool)
    ensures
        r == names_descriptor(required@, fd as int),
{
    let mut k: usize = 0;
    while k < required.len()
        invariant
            k <= required@.len(),
            forall|j: int| 0 <= j < k ==> required@[j] != fd,
        decreases required@.len() - k,
    {
        if fd >= 0 && required[k] as i64 == fd as i64 {
            return true;
        }
        k = k + 1;
    }
    false
}

fn contains_required(actual: &[i32], fd: u32) -> (r: bool)
    ensures
        r == inherits_descriptor(actual@, fd as int),
{
    let mut i: usize = 0;
    while i < actual.len()
        invariant
            i <= actual@.len(),
            forall|j: int| 0 <= j < i ==> actual@[j] != fd,
        decreases actual@.len() - i,
    {
        if actual[i] >= 0 && actual[i] as i64 == fd as i64 {
            return true;
        }
        i = i + 1;
    }
    false
}

/// Checks that the inherited descriptors are exactly the ones the request names;
/// anything else is `DescriptorSetInvalid`.
pub fn validate_descriptor_set(required: &[u32], actual: &[i32]) -> (r: Result<(), SupervisorError>)
    ensures
        r is Ok <==> descriptor_set_ok(required@, actual@),
        r matches Err(e) ==> e == SupervisorError::DescriptorSetInvalid,
{
    let mut i: usize = 0;
    while i < actual.len()
        invariant
            i <= actual@.len(),
            forall|a: int| 0 <= a < i ==> #[trigger] actual@[a] >= 0,
            forall|a: int, b: int| 0 <= a < b < actual@.len() && a < i ==> actual@[a] != actual@[b],
            forall|a: int| 0 <= a < i ==> #[trigger] names_descriptor(required@, actual@[a] as int),
        decreases actual@.len() - i,
    {
        if actual[i] < 0 {
            return Err(SupervisorError::DescriptorSetInvalid);
        }
        let mut j: usize = i + 1;
        while j < actual.len()
            invariant
                i < j <= actual@.len(),
                i < actual@.len(),
                actual@[i as int] >= 0,
                forall|a: int| 0 <= a < i ==> #[trigger] actual@[a] >= 0,
                forall|a: int, b: int| 0 <= a < b < actual@.len() && a < i ==> actual@[a] != actual@[b],
                forall|a: int| 0 <= a < i ==> #[trigger] names_descriptor(required@, actual@[a] as int),
                forall|b: int| i < b < j ==> actual@[i as int] != actual@[b],
            decreases actual@.len() - j,
        {
            if actual[j] == actual[i] {
                return Err(SupervisorError::DescriptorSetInvalid);
            }
            j = j + 1;
        }
        if !contains_fd(required, actual[i]) {
            return Err(SupervisorError::DescriptorSetInvalid);
        }
        i = i + 1;
    }
    assert(i == actual@.len());
    assert forall|a: int, b: int| 0 <= a < b < actual@.len() implies actual@[a] != actual@[b] by {
        assert(a < i);
    }
    assert forall|a: int| 0 <= a < actual@.len() implies #[trigger] names_descriptor(required@, actual@[a] as int) by {
        assert(a < i);
    }
    let mut k: usize = 0;
    while k < required.len()
        invariant
            k <= required@.len(),
            forall|a: int| 0 <= a < actual@.len() ==> #[trigger] actual@[a] >= 0,
            forall|a: int, b: int| 0 <= a < b < actual@.len() ==> actual@[a] != actual@[b],
            forall|a: int| 0 <= a < actual@.len() ==> #[trigger] names_descriptor(required@, actual@[a] as int),
            forall|c: int| 0 <= c < k ==> #[trigger] required@[c] <= i32::MAX,
            forall|c: int| 0 <= c < k ==> #[trigger] inherits_descriptor(actual@, required@[c] as int),
        decreases required@.len() - k,
    {
        if required[k] > 0x7fff_ffff {
            return Err(SupervisorError::DescriptorSetInvalid);
        }
        if !contains_required(actual, required[k]) {
            return Err(SupervisorError::DescriptorSetInvalid);
        }
        k = k + 1;
    }
    Ok(())
}

/// The descriptors an install request names, in order.
pub fn request_descriptors(request: &InstallRequest) -> (r: Vec<u32>)
    ensures
        r@ == required_descriptors(request.model()),
{
    let mut out: Vec<u32> = Vec::new();
    out.push(request.executable_fd());
    out.push(request.working_directory_fd());
    let rules = request.filesystem();
    let ghost head = out@;
    let mut k: usize = 0;
    while k < rules.len()
        invariant
            k <= rules@.len(),
            head == seq![request.model().executable_fd, request.model().working_directory_fd],
            crate::launcher::rule_models(rules@) == request.model().filesystem,
            out@ == head + crate::launcher::rule_models(rules@).take(k as int).map_values(
                |r: (u32, Seq<crate::landlock::LandlockAccess>)| r.0,
            ),
        decreases rules@.len() - k,
    {
        out.push(rules[k].descriptor());
        proof {
            let ms = crate::launcher::rule_models(rules@);
            assert(ms.take(k + 1).map_values(|r: (u32, Seq<crate::landlock::LandlockAccess>)| r.0) =~= ms.take(
                k as int,
            ).map_values(|r: (u32, Seq<crate::landlock::LandlockAccess>)| r.0).push(ms[k as int].0));
        }
        k = k + 1;
    }
    proof {
        let ms = crate::launcher::rule_models(rules@);
        assert(ms.take(rules@.len() as int) =~= ms);
        assert(out@ =~= required_descriptors(request.model()));
    }
    out
}

/// Checks a supervision request before any process exists: the request's cgroup is
/// the fresh cgroup, it closes descriptors only above the standard streams, and the
/// inherited descriptors are exactly the ones it names; anything else is
/// `DescriptorSetInvalid`.
pub fn check_supervision_request(request: &InstallRequest, cgroup: CgroupIdentity, inherited: &[i32]) -> (r: Result<
    (),
    SupervisorError,
>)
    ensures
        r is Ok <==> {
            &&& descriptor_set_ok(required_descriptors(request.model()), inherited@)
            &&& request.model().identity.mount == cgroup.mount_of()
            &&& request.model().identity.inode == cgroup.inode_of()
            &&& request.model().close_from > 2
        },
        r matches Err(e) ==> e == SupervisorError::DescriptorSetInvalid,
{
    let required = request_descriptors(request);
    validate_descriptor_set(required.as_slice(), inherited)?;
    let id = request.identity().cgroup_id();
    if id.mount_id() != cgroup.mount_id() || id.inode() != cgroup.inode() || request.close_file_descriptors_from() <= 2 {
        return Err(SupervisorError::DescriptorSetInvalid);
    }
    Ok(())
}

} // verus!
