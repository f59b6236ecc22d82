//! Cgroup v2 control values, kernel counter parsing and terminal resource observations.
use vstd::prelude::*;
use vstd::string::StringSliceAdditionalSpecFns;

use crate::model::{
    ExecutionId, MemoryByteLimit, ProcessLimit, ResourceLimits, SwapByteLimit, valid_memory_bytes,
    valid_swap_bytes,
};
use crate::receipt::{LimitEvent, LimitEvents};
use crate::text::{
    all_ascii, ascii_upto, lemma_ascii_str_bytes, bytes_equal, canonical_decimal, decimal_text, decimal_value, fields, fields_from,
    lines, lines_from, lower_hex, next_field, next_line, string_bytes, strs_bytes, unsigned_digits,
    unsigned_text,
};

verus! {

/// Identifies one fail-closed cgroup lifecycle result.
#[derive(Clone, Copy, Debug, PartialEq, Eq, Structural)]
pub enum CgroupError {
    /// The host operating system is not Linux.
    UnsupportedOperatingSystem,
    /// The probed capability did not contain the required mount/controller.
    CapabilityMismatch,
    /// The execution limits omit the version 2 memory or swap bound.
    ResourceProfileIncomplete,
    /// The delegated parent directory could not be opened.
    ParentUnavailable,
    /// The pids controller could not be enabled for child cgroups.
    ControllerUnavailable,
    /// A cgroup with the execution identity already existed.
    AlreadyExists,
    /// The fresh cgroup could not be created.
    CreationFailed,
    /// The fresh cgroup could not be reopened by descriptor.
    OpenFailed,
    /// A control file could not be read or written exactly.
    ControlUnavailable,
    /// The kernel did not retain the registered process limit.
    LimitMismatch,
    /// The new cgroup unexpectedly contained a process.
    NotFresh,
    /// A process identifier was zero.
    ProcessIdInvalid,
    /// The launcher was not observed in the cgroup after placement.
    MembershipMismatch,
    /// `cgroup.events` was malformed or omitted `populated`.
    EventsInvalid,
    /// A required resource observation was absent, malformed, or overflowing.
    ObservationInvalid,
    /// A fresh cgroup reported a nonzero initial resource observation.
    ObservationNonzero,
    /// A terminal resource counter or peak regressed.
    ObservationRegression,
    /// The cgroup did not drain after `cgroup.kill`.
    DrainFailed,
    /// The empty cgroup could not be removed.
    RemovalFailed,
    /// Mount or inode identity could not be observed.
    IdentityUnavailable,
    /// The kernel cannot provide the required `openat2` guarantee.
    Openat2Unavailable,
}

/// The stable machine-readable code of each cgroup error.
pub open spec fn cgroup_error_code(e: CgroupError) -> Seq<char> {
    match e {
        CgroupError::UnsupportedOperatingSystem => "cgroup.os.unsupported"@,
        CgroupError::CapabilityMismatch => "cgroup.capability.mismatch"@,
        CgroupError::ResourceProfileIncomplete => "cgroup.resource-profile.incomplete"@,
        CgroupError::ParentUnavailable => "cgroup.parent.unavailable"@,
        CgroupError::ControllerUnavailable => "cgroup.controller.unavailable"@,
        CgroupError::AlreadyExists => "cgroup.exists"@,
        CgroupError::CreationFailed => "cgroup.creation-failed"@,
        CgroupError::OpenFailed => "cgroup.open-failed"@,
        CgroupError::ControlUnavailable => "cgroup.control.unavailable"@,
        CgroupError::LimitMismatch => "cgroup.limit.mismatch"@,
        CgroupError::NotFresh => "cgroup.not-fresh"@,
        CgroupError::ProcessIdInvalid => "cgroup.process-id.invalid"@,
        CgroupError::MembershipMismatch => "cgroup.membership.mismatch"@,
        CgroupError::EventsInvalid => "cgroup.events.invalid"@,
        CgroupError::ObservationInvalid => "cgroup.observation.invalid"@,
        CgroupError::ObservationNonzero => "cgroup.observation.nonzero-initial"@,
        CgroupError::ObservationRegression => "cgroup.observation.regression"@,
        CgroupError::DrainFailed => "cgroup.drain.failed"@,
        CgroupError::RemovalFailed => "cgroup.removal.failed"@,
        CgroupError::IdentityUnavailable => "cgroup.identity.unavailable"@,
        CgroupError::Openat2Unavailable => "cgroup.openat2.unavailable"@,
    }
}

/// Distinct cgroup errors have distinct codes.
pub proof fn lemma_cgroup_codes_distinct(a: CgroupError, b: CgroupError)
    requires
        a != b,
    ensures
        cgroup_error_code(a) != cgroup_error_code(b),
{
    reveal_strlit("cgroup.os.unsupported");
    reveal_strlit("cgroup.capability.mismatch");
    reveal_strlit("cgroup.resource-profile.incomplete");
    reveal_strlit("cgroup.parent.unavailable");
    reveal_strlit("cgroup.controller.unavailable");
    reveal_strlit("cgroup.exists");
    reveal_strlit("cgroup.creation-failed");
    reveal_strlit("cgroup.open-failed");
    reveal_strlit("cgroup.control.unavailable");
    reveal_strlit("cgroup.limit.mismatch");
    reveal_strlit("cgroup.not-fresh");
    reveal_strlit("cgroup.process-id.invalid");
    reveal_strlit("cgroup.membership.mismatch");
    reveal_strlit("cgroup.events.invalid");
    reveal_strlit("cgroup.observation.invalid");
    reveal_strlit("cgroup.observation.nonzero-initial");
    reveal_strlit("cgroup.observation.regression");
    reveal_strlit("cgroup.drain.failed");
    reveal_strlit("cgroup.removal.failed");
    reveal_strlit("cgroup.identity.unavailable");
    reveal_strlit("cgroup.openat2.unavailable");
    let ca = cgroup_error_code(a);
    let cb = cgroup_error_code(b);
    if ca.len() == cb.len() {
        assert(ca[8] != cb[8]);
    }
}

impl CgroupError {
    /// Returns the stable machine-readable error code.
    pub fn code(self) -> (r: &'static str)
        ensures
            r@ == cgroup_error_code(self),
    {
        match self {
            CgroupError::UnsupportedOperatingSystem => "cgroup.os.unsupported",
            CgroupError::CapabilityMismatch => "cgroup.capability.mismatch",
            CgroupError::ResourceProfileIncomplete => "cgroup.resource-profile.incomplete",
            CgroupError::ParentUnavailable => "cgroup.parent.unavailable",
            CgroupError::ControllerUnavailable => "cgroup.controller.unavailable",
            CgroupError::AlreadyExists => "cgroup.exists",
            CgroupError::CreationFailed => "cgroup.creation-failed",
            CgroupError::OpenFailed => "cgroup.open-failed",
            CgroupError::ControlUnavailable => "cgroup.control.unavailable",
            CgroupError::LimitMismatch => "cgroup.limit.mismatch",
            CgroupError::NotFresh => "cgroup.not-fresh",
            CgroupError::ProcessIdInvalid => "cgroup.process-id.invalid",
            CgroupError::MembershipMismatch => "cgroup.membership.mismatch",
            CgroupError::EventsInvalid => "cgroup.events.invalid",
            CgroupError::ObservationInvalid => "cgroup.observation.invalid",
            CgroupError::ObservationNonzero => "cgroup.observation.nonzero-initial",
            CgroupError::ObservationRegression => "cgroup.observation.regression",
            CgroupError::DrainFailed => "cgroup.drain.failed",
            CgroupError::RemovalFailed => "cgroup.removal.failed",
            CgroupError::IdentityUnavailable => "cgroup.identity.unavailable",
            CgroupError::Openat2Unavailable => "cgroup.openat2.unavailable",
        }
    }
}

/// Contains the checked terminal deltas from `memory.events.local`.
#[derive(Clone, Copy, Debug, PartialEq, Eq, Structural)]
pub struct MemoryEvents {
    low: u64,
    high: u64,
    max: u64,
    oom: u64,
    oom_kill: u64,
    oom_group_kill: u64,
}

impl MemoryEvents {
    /// The six counters in file order: low, high, max, oom, oom_kill, oom_group_kill.
    pub closed spec fn counters(self) -> Seq<u64> {
        seq![self.low, self.high, self.max, self.oom, self.oom_kill, self.oom_group_kill]
    }

    /// Creates a counter set from the six values in file order.
    pub fn from_counters(low: u64, high: u64, max: u64, oom: u64, oom_kill: u64, oom_group_kill: u64) -> (r:
        Self)
        ensures
            r.counters() == seq![low, high, max, oom, oom_kill, oom_group_kill],
    {
        MemoryEvents { low, high, max, oom, oom_kill, oom_group_kill }
    }

    /// Returns the `low` counter delta.
    pub fn low(self) -> (r: u64)
        ensures
            r == self.counters()[0],
    {
        self.low
    }

    /// Returns the `high` counter delta.
    pub fn high(self) -> (r: u64)
        ensures
            r == self.counters()[1],
    {
        self.high
    }

    /// Returns the `max` counter delta.
    pub fn max(self) -> (r: u64)
        ensures
            r == self.counters()[2],
    {
        self.max
    }

    /// Returns the `oom` counter delta.
    pub fn oom(self) -> (r: u64)
        ensures
            r == self.counters()[3],
    {
        self.oom
    }

    /// Returns the `oom_kill` counter delta.
    pub fn oom_kill(self) -> (r: u64)
        ensures
            r == self.counters()[4],
    {
        self.oom_kill
    }

    /// Returns the `oom_group_kill` counter delta.
    pub fn oom_group_kill(self) -> (r: u64)
        ensures
            r == self.counters()[5],
    {
        self.oom_group_kill
    }

    /// Subtracts the initial counters; `None` when any counter regressed.
    pub fn checked_sub(self, initial: Self) -> (r: Option<Self>)
        ensures
            r is Some <==> forall|k: int| 0 <= k < 6 ==> initial.counters()[k] <= self.counters()[k],
            r matches Some(d) ==> forall|k: int|
                0 <= k < 6 ==> d.counters()[k] == self.counters()[k] - initial.counters()[k],
    {
        if self.low < initial.low || self.high < initial.high || self.max < initial.max || self.oom
            < initial.oom || self.oom_kill < initial.oom_kill || self.oom_group_kill
            < initial.oom_group_kill {
            proof {
                if self.low < initial.low {
                    assert(!(initial.counters()[0] <= self.counters()[0]));
                } else if self.high < initial.high {
                    assert(!(initial.counters()[1] <= self.counters()[1]));
                } else if self.max < initial.max {
                    assert(!(initial.counters()[2] <= self.counters()[2]));
                } else if self.oom < initial.oom {
                    assert(!(initial.counters()[3] <= self.counters()[3]));
                } else if self.oom_kill < initial.oom_kill {
                    assert(!(initial.counters()[4] <= self.counters()[4]));
                } else {
                    assert(!(initial.counters()[5] <= self.counters()[5]));
                }
            }
            return None;
        }
        Some(
            MemoryEvents {
                low: self.low - initial.low,
                high: self.high - initial.high,
                max: self.max - initial.max,
                oom: self.oom - initial.oom,
                oom_kill: self.oom_kill - initial.oom_kill,
                oom_group_kill: self.oom_group_kill - initial.oom_group_kill,
            },
        )
    }

    /// Reports whether every counter is zero.
    pub fn is_zero(self) -> (r: bool)
        ensures
            r <==> forall|k: int| 0 <= k < 6 ==> self.counters()[k] == 0,
    {
        let r = self.low == 0 && self.high == 0 && self.max == 0 && self.oom == 0 && self.oom_kill == 0
            && self.oom_group_kill == 0;
        proof {
            if !r {
                if self.low != 0 {
                    assert(self.counters()[0] != 0);
                } else if self.high != 0 {
                    assert(self.counters()[1] != 0);
                } else if self.max != 0 {
                    assert(self.counters()[2] != 0);
                } else if self.oom != 0 {
                    assert(self.counters()[3] != 0);
                } else if self.oom_kill != 0 {
                    assert(self.counters()[4] != 0);
                } else {
                    assert(self.counters()[5] != 0);
                }
            }
        }
        r
    }
}

/// Contains the checked terminal deltas from `memory.swap.events`.
#[derive(Clone, Copy, Debug, PartialEq, Eq, Structural)]
pub struct SwapEvents {
    max: u64,
    fail: u64,
}

impl SwapEvents {
    pub closed spec fn max_of(self) -> u64 {
        self.max
    }

    pub closed spec fn fail_of(self) -> u64 {
        self.fail
    }

    /// Creates a counter pair.
    pub fn from_counters(max: u64, fail: u64) -> (r: Self)
        ensures
            r.max_of() == max,
            r.fail_of() == fail,
    {
        SwapEvents { max, fail }
    }

    /// Returns the `max` counter delta.
    pub fn max(self) -> (r: u64)
        ensures
            r == self.max_of(),
    {
        self.max
    }

    /// Returns the `fail` counter delta.
    pub fn fail(self) -> (r: u64)
        ensures
            r == self.fail_of(),
    {
        self.fail
    }

    /// Subtracts the initial counters; `None` when any counter regressed.
    pub fn checked_sub(self, initial: Self) -> (r: Option<Self>)
        ensures
            r is Some <==> (initial.max_of() <= self.max_of() && initial.fail_of() <= self.fail_of()),
            r matches Some(d) ==> d.max_of() == self.max_of() - initial.max_of() && d.fail_of()
                == self.fail_of() - initial.fail_of(),
    {
        if self.max < initial.max || self.fail < initial.fail {
            return None;
        }
        Some(SwapEvents { max: self.max - initial.max, fail: self.fail - initial.fail })
    }

    /// Reports whether both counters are zero.
    pub fn is_zero(self) -> (r: bool)
        ensures
            r <==> (self.max_of() == 0 && self.fail_of() == 0),
    {
        self.max == 0 && self.fail == 0
    }
}

/// Contains the exact version 2 control values read back from one fresh cgroup.
#[derive(Clone, Copy, Debug, PartialEq, Eq, Structural)]
pub struct ConfiguredResources {
    processes: ProcessLimit,
    memory: MemoryByteLimit,
    swap: SwapByteLimit,
    memory_oom_group: u64,
}

impl ConfiguredResources {
    pub closed spec fn processes_of(self) -> ProcessLimit {
        self.processes
    }

    pub closed spec fn memory_of(self) -> MemoryByteLimit {
        self.memory
    }

    pub closed spec fn swap_of(self) -> SwapByteLimit {
        self.swap
    }

    pub closed spec fn memory_oom_group_of(self) -> u64 {
        self.memory_oom_group
    }

    /// Returns the read-back `pids.max` value.
    pub fn processes(self) -> (r: ProcessLimit)
        ensures
            r == self.processes_of(),
    {
        self.processes
    }

    /// Returns the read-back `memory.max` value.
    pub fn memory(self) -> (r: MemoryByteLimit)
        ensures
            r == self.memory_of(),
    {
        self.memory
    }

    /// Returns the read-back `memory.swap.max` value.
    pub fn swap(self) -> (r: SwapByteLimit)
        ensures
            r == self.swap_of(),
    {
        self.swap
    }

    /// Returns the read-back `memory.oom.group` value.
    pub fn memory_oom_group(self) -> (r: u64)
        ensures
            r == self.memory_oom_group_of(),
    {
        self.memory_oom_group
    }
}

/// Contains terminal version 2 observations from one exact fresh cgroup.
#[derive(Clone, Copy, Debug, PartialEq, Eq, Structural)]
pub struct TerminalResources {
    configured: ConfiguredResources,
    memory_peak_bytes: u64,
    swap_peak_bytes: u64,
    memory_events: MemoryEvents,
    swap_events: SwapEvents,
}

impl TerminalResources {
    pub closed spec fn configured_of(self) -> ConfiguredResources {
        self.configured
    }

    pub closed spec fn memory_peak_of(self) -> u64 {
        self.memory_peak_bytes
    }

    pub closed spec fn swap_peak_of(self) -> u64 {
        self.swap_peak_bytes
    }

    pub closed spec fn memory_events_of(self) -> MemoryEvents {
        self.memory_events
    }

    pub closed spec fn swap_events_of(self) -> SwapEvents {
        self.swap_events
    }

    /// Returns the exact values read back after installing the cgroup controls.
    pub fn configured(self) -> (r: ConfiguredResources)
        ensures
            r == self.configured_of(),
    {
        self.configured
    }

    /// Returns the terminal `memory.peak` value.
    pub fn memory_peak_bytes(self) -> (r: u64)
        ensures
            r == self.memory_peak_of(),
    {
        self.memory_peak_bytes
    }

    /// Returns the terminal `memory.swap.peak` value.
    pub fn swap_peak_bytes(self) -> (r: u64)
        ensures
            r == self.swap_peak_of(),
    {
        self.swap_peak_bytes
    }

    /// Returns checked memory-event deltas.
    pub fn memory_events(self) -> (r: MemoryEvents)
        ensures
            r == self.memory_events_of(),
    {
        self.memory_events
    }

    /// Returns checked swap-event deltas.
    pub fn swap_events(self) -> (r: SwapEvents)
        ensures
            r == self.swap_events_of(),
    {
        self.swap_events
    }

    /// Derives the canonical limit-event set from nonzero counters only.
    pub fn limit_events(self) -> (r: LimitEvents)
        ensures
            forall|e: LimitEvent| r.has(e) <==> counter_for_event(self, e) != 0,
            r.has(LimitEvent::MemoryHigh) <==> self.memory_events_of().counters()[1] != 0,
            r.has(LimitEvent::MemoryMax) <==> self.memory_events_of().counters()[2] != 0,
            r.has(LimitEvent::MemoryOom) <==> self.memory_events_of().counters()[3] != 0,
            r.has(LimitEvent::MemoryOomKill) <==> self.memory_events_of().counters()[4] != 0,
            r.has(LimitEvent::MemoryOomGroupKill) <==> self.memory_events_of().counters()[5] != 0,
            r.has(LimitEvent::SwapMax) <==> self.swap_events_of().max_of() != 0,
            r.has(LimitEvent::SwapFail) <==> self.swap_events_of().fail_of() != 0,
    {
        let mut events: Vec<LimitEvent> = Vec::new();
        let ghost s0 = events@;
        if self.memory_events.high != 0 {
            events.push(LimitEvent::MemoryHigh);
        }
        proof {
            lemma_push_when(s0, events@, self.memory_events.high != 0, LimitEvent::MemoryHigh);
        }
        let ghost s1 = events@;
        if self.memory_events.max != 0 {
            events.push(LimitEvent::MemoryMax);
        }
        proof {
            lemma_push_when(s1, events@, self.memory_events.max != 0, LimitEvent::MemoryMax);
        }
        let ghost s2 = events@;
        if self.memory_events.oom != 0 {
            events.push(LimitEvent::MemoryOom);
        }
        proof {
            lemma_push_when(s2, events@, self.memory_events.oom != 0, LimitEvent::MemoryOom);
        }
        let ghost s3 = events@;
        if self.memory_events.oom_kill != 0 {
            events.push(LimitEvent::MemoryOomKill);
        }
        proof {
            lemma_push_when(s3, events@, self.memory_events.oom_kill != 0, LimitEvent::MemoryOomKill);
        }
        let ghost s4 = events@;
        if self.memory_events.oom_group_kill != 0 {
            events.push(LimitEvent::MemoryOomGroupKill);
        }
        proof {
            lemma_push_when(
                s4,
                events@,
                self.memory_events.oom_group_kill != 0,
                LimitEvent::MemoryOomGroupKill,
            );
        }
        let ghost s5 = events@;
        if self.swap_events.max != 0 {
            events.push(LimitEvent::SwapMax);
        }
        proof {
            lemma_push_when(s5, events@, self.swap_events.max != 0, LimitEvent::SwapMax);
        }
        let ghost s6 = events@;
        if self.swap_events.fail != 0 {
            events.push(LimitEvent::SwapFail);
        }
        proof {
            lemma_push_when(s6, events@, self.swap_events.fail != 0, LimitEvent::SwapFail);
        }
        let r = LimitEvents::new(events.as_slice());
        proof {
            assert(!s0.contains(LimitEvent::MemoryHigh));
            assert forall|e: LimitEvent| r.has(e) <==> counter_for_event(self, e) != 0 by {
                assert(!s0.contains(e));
            }
        }
        r
    }
}

proof fn lemma_push_when(before: Seq<LimitEvent>, after: Seq<LimitEvent>, cond: bool, event: LimitEvent)
    requires
        after == (if cond {
            before.push(event)
        } else {
            before
        }),
    ensures
        forall|e: LimitEvent| #[trigger] after.contains(e) <==> (before.contains(e) || (cond && e == event)),
{
    if cond {
        assert forall|e: LimitEvent| #[trigger] after.contains(e) <==> (before.contains(e) || e == event) by {
            if before.contains(e) {
                let k = choose|k: int| 0 <= k < before.len() && before[k] == e;
                assert(after[k] == e);
            }
            if e == event {
                assert(after[before.len() as int] == e);
            }
            if after.contains(e) {
                let k = choose|k: int| 0 <= k < after.len() && after[k] == e;
                if k < before.len() {
                    assert(before[k] == e);
                }
            }
        }
    }
}

/// The terminal counter that witnesses each limit event.
pub open spec fn counter_for_event(t: TerminalResources, e: LimitEvent) -> u64 {
    match e {
        LimitEvent::MemoryHigh => t.memory_events_of().counters()[1],
        LimitEvent::MemoryMax => t.memory_events_of().counters()[2],
        LimitEvent::MemoryOom => t.memory_events_of().counters()[3],
        LimitEvent::MemoryOomKill => t.memory_events_of().counters()[4],
        LimitEvent::MemoryOomGroupKill => t.memory_events_of().counters()[5],
        LimitEvent::SwapMax => t.swap_events_of().max_of(),
        LimitEvent::SwapFail => t.swap_events_of().fail_of(),
    }
}

/// Reports whether terminal cgroup observations completed after exact cleanup.
#[derive(Clone, Copy, Debug, PartialEq, Eq, Structural)]
pub enum ResourceObservation {
    /// Legacy process-only execution has no version 2 resource observation.
    Legacy,
    /// Every version 2 terminal counter and peak was read and checked.
    Complete(TerminalResources),
    /// Configured readbacks are retained, but terminal observation failed.
    Incomplete(ConfiguredResources),
}

impl ResourceObservation {
    /// Returns complete terminal resources, if observation succeeded.
    pub fn complete(self) -> (r: Option<TerminalResources>)
        ensures
            r == (match self {
                ResourceObservation::Complete(t) => Some(t),
                _ => None,
            }),
    {
        match self {
            ResourceObservation::Complete(resources) => Some(resources),
            _ => None,
        }
    }
}

/// Keeps a complete observation, or only the configured readbacks when observation failed.
pub fn retain_resource_observation(
    configured: ConfiguredResources,
    observation: Result<TerminalResources, CgroupError>,
) -> (r: ResourceObservation)
    ensures
        r == (match observation {
            Ok(t) => ResourceObservation::Complete(t),
            Err(_) => ResourceObservation::Incomplete(configured),
        }),
{
    match observation {
        Ok(terminal) => ResourceObservation::Complete(terminal),
        Err(_) => ResourceObservation::Incomplete(configured),
    }
}

/// One snapshot of the four version 2 resource observation files.
#[derive(Clone, Copy, Debug, PartialEq, Eq, Structural)]
pub struct ResourceSnapshot {
    memory_peak_bytes: u64,
    swap_peak_bytes: u64,
    memory_events: MemoryEvents,
    swap_events: SwapEvents,
}

impl ResourceSnapshot {
    pub closed spec fn memory_peak_of(self) -> u64 {
        self.memory_peak_bytes
    }

    pub closed spec fn swap_peak_of(self) -> u64 {
        self.swap_peak_bytes
    }

    pub closed spec fn memory_events_of(self) -> MemoryEvents {
        self.memory_events
    }

    pub closed spec fn swap_events_of(self) -> SwapEvents {
        self.swap_events
    }

    /// Returns the memory-event counters.
    pub fn memory_events(self) -> (r: MemoryEvents)
        ensures
            r == self.memory_events_of(),
    {
        self.memory_events
    }

    /// Returns the swap-event counters.
    pub fn swap_events(self) -> (r: SwapEvents)
        ensures
            r == self.swap_events_of(),
    {
        self.swap_events
    }

    /// Reports whether every peak and counter is zero.
    pub fn is_zero(self) -> (r: bool)
        ensures
            r <==> (self.memory_peak_of() == 0 && self.swap_peak_of() == 0 && (forall|k: int|
                0 <= k < 6 ==> self.memory_events_of().counters()[k] == 0)
                && self.swap_events_of().max_of() == 0 && self.swap_events_of().fail_of() == 0),
    {
        let memory_zero = self.memory_events.is_zero();
        proof {
            if !memory_zero {
                let k = choose|k: int| 0 <= k < 6 && self.memory_events.counters()[k] != 0;
                assert(self.memory_events_of().counters()[k] != 0);
            }
        }
        self.memory_peak_bytes == 0 && self.swap_peak_bytes == 0 && memory_zero
            && self.swap_events.is_zero()
    }

    /// Computes the terminal observation relative to the initial snapshot;
    /// any regressed peak or counter is an `ObservationRegression`.
    pub fn checked_delta(self, initial: Self, configured: ConfiguredResources) -> (r: Result<
        TerminalResources,
        CgroupError,
    >)
        ensures
            r is Ok <==> (initial.memory_peak_of() <= self.memory_peak_of() && initial.swap_peak_of()
                <= self.swap_peak_of() && (forall|k: int|
                0 <= k < 6 ==> initial.memory_events_of().counters()[k]
                    <= self.memory_events_of().counters()[k])
                && initial.swap_events_of().max_of() <= self.swap_events_of().max_of()
                && initial.swap_events_of().fail_of() <= self.swap_events_of().fail_of()),
            r matches Ok(t) ==> {
                &&& t.configured_of() == configured
                &&& t.memory_peak_of() == self.memory_peak_of()
                &&& t.swap_peak_of() == self.swap_peak_of()
                &&& forall|k: int|
                    0 <= k < 6 ==> t.memory_events_of().counters()[k]
                        == self.memory_events_of().counters()[k]
                        - initial.memory_events_of().counters()[k]
                &&& t.swap_events_of().max_of() == self.swap_events_of().max_of()
                    - initial.swap_events_of().max_of()
                &&& t.swap_events_of().fail_of() == self.swap_events_of().fail_of()
                    - initial.swap_events_of().fail_of()
            },
            r matches Err(e) ==> e == CgroupError::ObservationRegression,
    {
        if self.memory_peak_bytes < initial.memory_peak_bytes || self.swap_peak_bytes
            < initial.swap_peak_bytes {
            return Err(CgroupError::ObservationRegression);
        }
        let memory_events = match self.memory_events.checked_sub(initial.memory_events) {
            Some(events) => events,
            None => {
                proof {
                    let k = choose|k: int|
                        0 <= k < 6 && !(initial.memory_events.counters()[k]
                            <= self.memory_events.counters()[k]);
                    assert(!(initial.memory_events_of().counters()[k]
                        <= self.memory_events_of().counters()[k]));
                }
                return Err(CgroupError::ObservationRegression);
            },
        };
        let swap_events = match self.swap_events.checked_sub(initial.swap_events) {
            Some(events) => events,
            None => {
                return Err(CgroupError::ObservationRegression);
            },
        };
        Ok(
            TerminalResources {
                configured,
                memory_peak_bytes: self.memory_peak_bytes,
                swap_peak_bytes: self.swap_peak_bytes,
                memory_events,
                swap_events,
            },
        )
    }
}

/// The value-bytes of the `(name, value)` control pairs installed in a version 2 cgroup.
pub open spec fn control_value_bytes(limits: ResourceLimits) -> Seq<Seq<u8>> {
    seq![
        decimal_text(limits.processes_of().value() as nat),
        decimal_text(limits.memory_of()->0.value() as nat),
        decimal_text(limits.swap_of()->0.value() as nat),
        seq![0x31u8],
    ]
}

/// Renders the four version 2 controls in installation order; version 1 limits
/// without memory or swap bounds are `ResourceProfileIncomplete`.
pub fn installed_control_values(limits: ResourceLimits) -> (r: Result<Vec<(&'static str, String)>, CgroupError>)
    ensures
        r is Ok <==> (limits.memory_of() is Some && limits.swap_of() is Some),
        r matches Err(e) ==> e == CgroupError::ResourceProfileIncomplete,
        r matches Ok(v) ==> v@.len() == 4 && v@[0].0@ == "pids.max"@ && v@[1].0@ == "memory.max"@
            && v@[2].0@ == "memory.swap.max"@ && v@[3].0@ == "memory.oom.group"@ && (forall|k: int|
            0 <= k < 4 ==> string_bytes(#[trigger] v@[k].1) == control_value_bytes(limits)[k]),
{
    let memory = match limits.memory() {
        Some(memory) => memory,
        None => {
            return Err(CgroupError::ResourceProfileIncomplete);
        },
    };
    let swap = match limits.swap() {
        Some(swap) => swap,
        None => {
            return Err(CgroupError::ResourceProfileIncomplete);
        },
    };
    let mut values: Vec<(&'static str, String)> = Vec::new();
    values.push(("pids.max", crate::text::decimal_string(limits.processes().get() as u64)));
    values.push(("memory.max", crate::text::decimal_string(memory.get())));
    values.push(("memory.swap.max", crate::text::decimal_string(swap.get())));
    values.push(("memory.oom.group", crate::text::decimal_string(1)));
    proof {
        assert(decimal_text(1) =~= seq![0x31u8]);
    }
    Ok(values)
}

/// The directory name of the fresh cgroup: `proofbound-runtime-` and the
/// lower-case hexadecimal execution identifier.
pub open spec fn cgroup_name_bytes(id: ExecutionId) -> Seq<u8> {
    "proofbound-runtime-".spec_bytes() + lower_hex(id.bytes())
}

/// Returns the single path component that names the fresh cgroup.
pub fn cgroup_name(execution_id: ExecutionId) -> (r: Vec<u8>)
    ensures
        r@ == cgroup_name_bytes(execution_id),
{
    let prefix = "proofbound-runtime-".as_bytes();
    let hex = crate::text::lower_hex_bytes(execution_id.as_bytes());
    let mut name: Vec<u8> = Vec::new();
    let mut i: usize = 0;
    while i < prefix.len()
        invariant
            i <= prefix@.len(),
            name@ == prefix@.take(i as int),
        decreases prefix@.len() - i,
    {
        name.push(prefix[i]);
        proof {
            assert(prefix@.take(i + 1) =~= prefix@.take(i as int).push(prefix@[i as int]));
        }
        i = i + 1;
    }
    let mut j: usize = 0;
    while j < hex.len()
        invariant
            j <= hex@.len(),
            name@ == prefix@ + hex@.take(j as int),
        decreases hex@.len() - j,
    {
        name.push(hex[j]);
        proof {
            assert(hex@.take(j + 1) =~= hex@.take(j as int).push(hex@[j as int]));
        }
        j = j + 1;
    }
    assert(prefix@.take(prefix@.len() as int) =~= prefix@);
    assert(hex@.take(hex@.len() as int) =~= hex@);
    name
}

/// The `value` of a canonical kernel counter, when it fits in `u64`.
pub open spec fn canonical_u64(s: Seq<u8>) -> Option<u64> {
    if canonical_decimal(s) && decimal_value(s) <= u64::MAX {
        Some(decimal_value(s) as u64)
    } else {
        None
    }
}

/// Parses a canonical decimal counter value.
pub fn parse_canonical_u64(value: &str) -> (r: Result<u64, CgroupError>)
    ensures
        r is Ok <==> canonical_u64(value.spec_bytes()) is Some,
        r matches Ok(v) ==> Some(v) == canonical_u64(value.spec_bytes()),
        r matches Err(e) ==> e == CgroupError::ObservationInvalid,
{
    parse_canonical_u64_bytes(value.as_bytes())
}

fn parse_canonical_u64_bytes(value: &[u8]) -> (r: Result<u64, CgroupError>)
    ensures
        r is Ok <==> canonical_u64(value@) is Some,
        r matches Ok(v) ==> Some(v) == canonical_u64(value@),
        r matches Err(e) ==> e == CgroupError::ObservationInvalid,
{
    match crate::text::parse_canonical_decimal(value) {
        Some(v) => Ok(v),
        None => Err(CgroupError::ObservationInvalid),
    }
}

/// The payload of a one-line file: the input without one final line feed.
pub open spec fn strip_final_newline(s: Seq<u8>) -> Seq<u8> {
    if s.len() > 0 && s.last() == 0x0a {
        s.drop_last()
    } else {
        s
    }
}

/// The value of a one-line counter file, when it is exactly one canonical counter.
pub open spec fn u64_line(s: Seq<u8>) -> Option<u64> {
    let v = strip_final_newline(s);
    if v.contains(0x0a) || v.contains(0x0d) {
        None
    } else {
        canonical_u64(v)
    }
}

/// Parses a file holding exactly one canonical counter and an optional final line feed.
pub fn parse_u64_line(input: &str) -> (r: Result<u64, CgroupError>)
    ensures
        r is Ok <==> u64_line(input.spec_bytes()) is Some,
        r matches Ok(v) ==> Some(v) == u64_line(input.spec_bytes()),
        r matches Err(e) ==> e == CgroupError::ObservationInvalid,
{
    let bytes = input.as_bytes();
    let end = if bytes.len() > 0 && bytes[bytes.len() - 1] == 0x0a { bytes.len() - 1 } else { bytes.len() };
    let value = &bytes[0..end];
    assert(value@ =~= strip_final_newline(bytes@));
    if crate::text::contains_byte(value, 0x0a) || crate::text::contains_byte(value, 0x0d) {
        return Err(CgroupError::ObservationInvalid);
    }
    parse_canonical_u64_bytes(value)
}

/// One `name value` line of a counter file is acceptable.
pub open spec fn counter_line_ok(line: Seq<u8>, names: Seq<Seq<u8>>, ignored: Seq<Seq<u8>>) -> bool {
    let f = fields(line);
    &&& f.len() == 2
    &&& (names.contains(f[0]) || ignored.contains(f[0]))
    &&& canonical_u64(f[1]) is Some
}

/// A counter file is acceptable: every line is a known `name value` pair with a
/// canonical value, no name occurs twice, and every required name occurs.
pub open spec fn counters_ok(ls: Seq<Seq<u8>>, names: Seq<Seq<u8>>, ignored: Seq<Seq<u8>>) -> bool {
    &&& forall|k: int| 0 <= k < ls.len() ==> counter_line_ok(#[trigger] ls[k], names, ignored)
    &&& forall|a: int, b: int|
        0 <= a < b < ls.len() ==> fields(#[trigger] ls[a])[0] != fields(#[trigger] ls[b])[0]
    &&& forall|j: int| 0 <= j < names.len() ==> has_counter(ls, #[trigger] names[j])
}

/// Some line of the file is named `name`.
pub open spec fn has_counter(ls: Seq<Seq<u8>>, name: Seq<u8>) -> bool {
    exists|k: int| 0 <= k < ls.len() && fields(ls[k])[0] == name
}

/// The value that the line named `name` carries.
pub open spec fn counter_value(ls: Seq<Seq<u8>>, name: Seq<u8>) -> u64 {
    let k = choose|k: int| 0 <= k < ls.len() && fields(ls[k])[0] == name;
    canonical_u64(fields(ls[k])[1])->0
}

/// The names are pairwise distinct.
pub open spec fn distinct_names(names: Seq<Seq<u8>>) -> bool {
    forall|a: int, b: int| 0 <= a < b < names.len() ==> names[a] != names[b]
}

fn find_name(names: &[&str], name: &[u8]) -> (r: Option<usize>)
    ensures
        r is None ==> !strs_bytes(names@).contains(name@),
        r matches Some(j) ==> j < names@.len() && strs_bytes(names@)[j as int] == name@,
{
    let mut j: usize = 0;
    while j < names.len()
        invariant
            j <= names@.len(),
            forall|k: int| 0 <= k < j ==> strs_bytes(names@)[k] != name@,
        decreases names@.len() - j,
    {
        if bytes_equal(names[j].as_bytes(), name) {
            return Some(j);
        }
        j = j + 1;
    }
    proof {
        if strs_bytes(names@).contains(name@) {
            let k = choose|k: int| 0 <= k < strs_bytes(names@).len() && strs_bytes(names@)[k] == name@;
            assert(strs_bytes(names@)[k] != name@);
        }
    }
    None
}

/// Splits one line into exactly two fields; `None` when it has another field count.
fn two_fields(line: &[u8]) -> (r: Option<(usize, usize, usize, usize)>)
    ensures
        r is Some <==> fields(line@).len() == 2,
        r matches Some((a, b, c, d)) ==> a <= b <= c <= d <= line@.len() && fields(line@)[0]
            == line@.subrange(a as int, b as int) && fields(line@)[1] == line@.subrange(
            c as int,
            d as int,
        ),
{
    let (a, b) = match next_field(line, 0) {
        Some(f) => f,
        None => {
            return None;
        },
    };
    let (c, d) = match next_field(line, b) {
        Some(f) => f,
        None => {
            return None;
        },
    };
    match next_field(line, d) {
        Some(_) => None,
        None => Some((a, b, c, d)),
    }
}

/// Parses a kernel `name value` counter file: every name in `names` exactly once,
/// each name in `ignored` at most once, nothing else, and canonical values.
pub fn parse_named_counters(input: &str, names: &[&str], ignored: &[&str]) -> (r: Result<Vec<u64>, CgroupError>)
    requires
        distinct_names(strs_bytes(names@)),
        distinct_names(strs_bytes(ignored@)),
        forall|a: int, b: int|
            0 <= a < names@.len() && 0 <= b < ignored@.len() ==> strs_bytes(names@)[a] != strs_bytes(
                ignored@,
            )[b],
    ensures
        r is Ok <==> counters_ok(lines(input.spec_bytes()), strs_bytes(names@), strs_bytes(ignored@)),
        r matches Ok(values) ==> values@.len() == names@.len() && forall|j: int|
            0 <= j < names@.len() ==> values@[j] == counter_value(
                lines(input.spec_bytes()),
                strs_bytes(names@)[j],
            ),
        r matches Err(e) ==> e == CgroupError::ObservationInvalid,
{
    let s = input.as_bytes();
    let ghost nb = strs_bytes(names@);
    let ghost ib = strs_bytes(ignored@);
    let ghost all_lines = lines(s@);
    let mut values: Vec<Option<u64>> = Vec::new();
    let mut j: usize = 0;
    while j < names.len()
        invariant
            j <= names@.len(),
            values@.len() == j,
            forall|k: int| 0 <= k < j ==> values@[k] is None,
        decreases names@.len() - j,
    {
        values.push(None);
        j = j + 1;
    }
    let mut seen_ignored: Vec<bool> = Vec::new();
    let mut j: usize = 0;
    while j < ignored.len()
        invariant
            j <= ignored@.len(),
            seen_ignored@.len() == j,
            forall|k: int| 0 <= k < j ==> !seen_ignored@[k],
        decreases ignored@.len() - j,
    {
        seen_ignored.push(false);
        j = j + 1;
    }
    let mut pos: usize = 0;
    let ghost mut done: Seq<Seq<u8>> = Seq::empty();
    loop
        invariant
            pos <= s@.len(),
            s@ == input.spec_bytes(),
            nb == strs_bytes(names@),
            ib == strs_bytes(ignored@),
            all_lines == lines(s@),
            all_lines == done + lines_from(s@, pos as int),
            values@.len() == names@.len(),
            seen_ignored@.len() == ignored@.len(),
            distinct_names(nb),
            distinct_names(ib),
            forall|a: int, b: int| 0 <= a < nb.len() && 0 <= b < ib.len() ==> nb[a] != ib[b],
            forall|k: int| 0 <= k < done.len() ==> counter_line_ok(#[trigger] done[k], nb, ib),
            forall|a: int, b: int|
                0 <= a < b < done.len() ==> fields(#[trigger] done[a])[0] != fields(#[trigger] done[b])[0],
            forall|jj: int|
                0 <= jj < nb.len() ==> ((#[trigger] values@[jj]) is Some <==> exists|k: int|
                    0 <= k < done.len() && fields(#[trigger] done[k])[0] == nb[jj]),
            forall|jj: int, k: int|
                0 <= jj < nb.len() && 0 <= k < done.len() && fields(#[trigger] done[k])[0] == nb[jj] ==> (
                #[trigger] values@[jj]) == canonical_u64(fields(done[k])[1]),
            forall|jj: int|
                0 <= jj < ib.len() ==> ((#[trigger] seen_ignored@[jj]) <==> exists|k: int|
                    0 <= k < done.len() && fields(#[trigger] done[k])[0] == ib[jj]),
        ensures
            lines_from(s@, pos as int).len() == 0,
        decreases s@.len() - pos,
    {
        let ghost values_before = values@;
        let ghost seen_before = seen_ignored@;
        let (a, b, next) = match next_line(s, pos) {
            Some(l) => l,
            None => {
                break ;
            },
        };
        let line = &s[a..b];
        let ghost rest = lines_from(s@, next as int);
        assert(all_lines == done + seq![line@] + rest);
        assert(all_lines[done.len() as int] == line@);
        let (fa, fb, fc, fd) = match two_fields(line) {
            Some(f) => f,
            None => {
                return Err(CgroupError::ObservationInvalid);
            },
        };
        let name = &line[fa..fb];
        let value = &line[fc..fd];
        assert(name@ == fields(line@)[0]);
        assert(value@ == fields(line@)[1]);
        let parsed = match parse_canonical_u64_bytes(value) {
            Ok(v) => v,
            Err(e) => {
                return Err(e);
            },
        };
        match find_name(names, name) {
            Some(index) => {
                if values[index].is_some() {
                    proof {
                        let k = choose|k: int| 0 <= k < done.len() && fields(#[trigger] done[k])[0] == nb[index as int];
                        assert(all_lines[k] == done[k]);
                        assert(fields(all_lines[k])[0] == fields(all_lines[done.len() as int])[0]);
                    }
                    return Err(CgroupError::ObservationInvalid);
                }
                values.set(index, Some(parsed));
                proof {
                    assert(nb.contains(name@));
                    assert forall|k: int| 0 <= k < done.len() implies fields(#[trigger] done[k])[0] != name@ by {
                        if fields(done[k])[0] == name@ {
                            assert(values_before[index as int] is Some);
                        }
                    }
                    assert forall|jj: int| 0 <= jj < nb.len() implies #[trigger] values@[jj] == (if nb[jj] == name@ {
                        canonical_u64(fields(line@)[1])
                    } else {
                        values_before[jj]
                    }) by {
                        if jj != index {
                            assert(nb[jj] != nb[index as int]);
                        }
                    }
                    assert forall|jj: int| 0 <= jj < ib.len() implies #[trigger] seen_ignored@[jj] == (ib[jj] == name@ || seen_before[jj]) by {
                        assert(nb[index as int] != ib[jj]);
                    }
                }
            },
            None => {
                match find_name(ignored, name) {
                    Some(index) => {
                        if seen_ignored[index] {
                            proof {
                                let k = choose|k: int| 0 <= k < done.len() && fields(#[trigger] done[k])[0] == ib[index as int];
                                assert(all_lines[k] == done[k]);
                                assert(fields(all_lines[k])[0] == fields(all_lines[done.len() as int])[0]);
                            }
                            return Err(CgroupError::ObservationInvalid);
                        }
                        seen_ignored.set(index, true);
                        proof {
                            assert(ib.contains(name@));
                            assert forall|k: int| 0 <= k < done.len() implies fields(#[trigger] done[k])[0] != name@ by {
                                if fields(done[k])[0] == name@ {
                                    assert(seen_before[index as int]);
                                }
                            }
                            assert forall|jj: int| 0 <= jj < nb.len() implies #[trigger] values@[jj] == (if nb[jj] == name@ {
                                canonical_u64(fields(line@)[1])
                            } else {
                                values_before[jj]
                            }) by {
                                assert(nb[jj] != ib[index as int]);
                            }
                            assert forall|jj: int| 0 <= jj < ib.len() implies #[trigger] seen_ignored@[jj] == (ib[jj] == name@ || seen_before[jj]) by {
                                if jj != index {
                                    assert(ib[jj] != ib[index as int]);
                                }
                            }
                        }
                    },
                    None => {
                        return Err(CgroupError::ObservationInvalid);
                    },
                }
            },
        }
        proof {
            lemma_counter_step(done, line@, nb, ib, values_before, values@, seen_before, seen_ignored@);
            done = done.push(line@);
            assert(all_lines == done + rest);
        }
        pos = next;
    }
    proof {
        assert(done =~= all_lines);
    }
    let mut out: Vec<u64> = Vec::new();
    let mut j: usize = 0;
    while j < names.len()
        invariant
            j <= names@.len(),
            values@.len() == names@.len(),
            nb == strs_bytes(names@),
            ib == strs_bytes(ignored@),
            all_lines == lines(input.spec_bytes()),
            out@.len() == j,
            forall|a: int, b: int|
                0 <= a < b < all_lines.len() ==> fields(#[trigger] all_lines[a])[0] != fields(
                    #[trigger] all_lines[b],
                )[0],
            forall|jj: int|
                0 <= jj < nb.len() ==> ((#[trigger] values@[jj]) is Some <==> exists|k: int|
                    0 <= k < all_lines.len() && fields(#[trigger] all_lines[k])[0] == nb[jj]),
            forall|jj: int, k: int|
                0 <= jj < nb.len() && 0 <= k < all_lines.len() && fields(#[trigger] all_lines[k])[0] == nb[jj] ==> (
                #[trigger] values@[jj]) == canonical_u64(fields(all_lines[k])[1]),
            forall|k: int| 0 <= k < all_lines.len() ==> counter_line_ok(#[trigger] all_lines[k], nb, ib),
            forall|jj: int|
                0 <= jj < j ==> exists|k: int| 0 <= k < all_lines.len() && fields(all_lines[k])[0] == #[trigger] nb[jj],
            forall|jj: int| 0 <= jj < j ==> out@[jj] == counter_value(all_lines, #[trigger] nb[jj]),
        decreases names@.len() - j,
    {
        match values[j] {
            Some(v) => {
                proof {
                    assert(values@[j as int] is Some);
                    let k = choose|k: int| 0 <= k < all_lines.len() && fields(#[trigger] all_lines[k])[0] == nb[j as int];
                    let k2 = choose|k2: int| 0 <= k2 < all_lines.len() && fields(#[trigger] all_lines[k2])[0] == nb[j as int];
                    assert(values@[j as int] == canonical_u64(fields(all_lines[k2])[1]));
                    assert(counter_value(all_lines, nb[j as int]) == canonical_u64(fields(all_lines[k2])[1])->0);
                }
                out.push(v);
            },
            None => {
                proof {
                    let jj = j as int;
                    assert(values@[jj] is None);
                    if counters_ok(all_lines, nb, ib) {
                        assert(has_counter(all_lines, nb[jj]));
                    }
                }
                return Err(CgroupError::ObservationInvalid);
            },
        }
        j = j + 1;
    }
    proof {
        assert(nb.len() == names@.len());
        assert forall|jj: int| 0 <= jj < nb.len() implies has_counter(all_lines, #[trigger] nb[jj]) by {
            assert(jj < j);
        }
        assert(counters_ok(all_lines, nb, ib));
    }
    Ok(out)
}

proof fn lemma_counter_step(
    done: Seq<Seq<u8>>,
    line: Seq<u8>,
    nb: Seq<Seq<u8>>,
    ib: Seq<Seq<u8>>,
    values_before: Seq<Option<u64>>,
    values_after: Seq<Option<u64>>,
    seen_before: Seq<bool>,
    seen_after: Seq<bool>,
)
    requires
        values_before.len() == nb.len(),
        values_after.len() == nb.len(),
        seen_before.len() == ib.len(),
        seen_after.len() == ib.len(),
        counter_line_ok(line, nb, ib),
        forall|k: int| 0 <= k < done.len() ==> fields(#[trigger] done[k])[0] != fields(line)[0],
        forall|jj: int| 0 <= jj < nb.len() ==> #[trigger] values_after[jj] == (if nb[jj] == fields(line)[0] {
            canonical_u64(fields(line)[1])
        } else {
            values_before[jj]
        }),
        forall|jj: int| 0 <= jj < ib.len() ==> #[trigger] seen_after[jj] == (ib[jj] == fields(line)[0] || seen_before[jj]),
        forall|k: int| 0 <= k < done.len() ==> counter_line_ok(#[trigger] done[k], nb, ib),
        forall|a: int, b: int|
            0 <= a < b < done.len() ==> fields(#[trigger] done[a])[0] != fields(#[trigger] done[b])[0],
        forall|jj: int|
            0 <= jj < nb.len() ==> ((#[trigger] values_before[jj]) is Some <==> exists|k: int|
                0 <= k < done.len() && fields(#[trigger] done[k])[0] == nb[jj]),
        forall|jj: int, k: int|
            0 <= jj < nb.len() && 0 <= k < done.len() && fields(#[trigger] done[k])[0] == nb[jj] ==> (
            #[trigger] values_before[jj]) == canonical_u64(fields(done[k])[1]),
        forall|jj: int|
            0 <= jj < ib.len() ==> ((#[trigger] seen_before[jj]) <==> exists|k: int|
                0 <= k < done.len() && fields(#[trigger] done[k])[0] == ib[jj]),
    ensures
        ({
            let d = done.push(line);
            &&& forall|k: int| 0 <= k < d.len() ==> counter_line_ok(#[trigger] d[k], nb, ib)
            &&& forall|a: int, b: int|
                0 <= a < b < d.len() ==> fields(#[trigger] d[a])[0] != fields(#[trigger] d[b])[0]
            &&& forall|jj: int|
                0 <= jj < nb.len() ==> ((#[trigger] values_after[jj]) is Some <==> exists|k: int|
                    0 <= k < d.len() && fields(#[trigger] d[k])[0] == nb[jj])
            &&& forall|jj: int, k: int|
                0 <= jj < nb.len() && 0 <= k < d.len() && fields(#[trigger] d[k])[0] == nb[jj] ==> (
                #[trigger] values_after[jj]) == canonical_u64(fields(d[k])[1])
            &&& forall|jj: int|
                0 <= jj < ib.len() ==> ((#[trigger] seen_after[jj]) <==> exists|k: int|
                    0 <= k < d.len() && fields(#[trigger] d[k])[0] == ib[jj])
        }),
{
    let d = done.push(line);
    let n = done.len() as int;
    assert(d[n] == line);
    assert forall|k: int| 0 <= k < d.len() implies counter_line_ok(#[trigger] d[k], nb, ib) by {
        if k < n {
            assert(d[k] == done[k]);
        }
    }
    assert forall|a: int, b: int| 0 <= a < b < d.len() implies fields(#[trigger] d[a])[0] != fields(#[trigger] d[b])[0] by {
        assert(d[a] == done[a]);
        if b < n {
            assert(d[b] == done[b]);
        }
    }
    assert forall|jj: int| 0 <= jj < nb.len() implies ((#[trigger] values_after[jj]) is Some <==> exists|k: int|
        0 <= k < d.len() && fields(#[trigger] d[k])[0] == nb[jj]) by {
        if nb[jj] == fields(line)[0] {
            assert(fields(d[n])[0] == nb[jj]);
        } else {
            if values_before[jj] is Some {
                let k = choose|k: int| 0 <= k < done.len() && fields(#[trigger] done[k])[0] == nb[jj];
                assert(d[k] == done[k]);
                assert(fields(d[k])[0] == nb[jj]);
            }
            if exists|k: int| 0 <= k < d.len() && fields(#[trigger] d[k])[0] == nb[jj] {
                let k = choose|k: int| 0 <= k < d.len() && fields(#[trigger] d[k])[0] == nb[jj];
                assert(k != n);
                assert(d[k] == done[k]);
                assert(fields(done[k])[0] == nb[jj]);
            }
        }
    }
    assert forall|jj: int, k: int|
        0 <= jj < nb.len() && 0 <= k < d.len() && fields(#[trigger] d[k])[0] == nb[jj] implies (
        #[trigger] values_after[jj]) == canonical_u64(fields(d[k])[1]) by {
        if k < n {
            assert(d[k] == done[k]);
            assert(fields(done[k])[0] == nb[jj]);
            assert(nb[jj] != fields(line)[0]);
        }
    }
    assert forall|jj: int| 0 <= jj < ib.len() implies ((#[trigger] seen_after[jj]) <==> exists|k: int|
        0 <= k < d.len() && fields(#[trigger] d[k])[0] == ib[jj]) by {
        if ib[jj] == fields(line)[0] {
            assert(fields(d[n])[0] == ib[jj]);
        } else {
            if seen_before[jj] {
                let k = choose|k: int| 0 <= k < done.len() && fields(#[trigger] done[k])[0] == ib[jj];
                assert(d[k] == done[k]);
                assert(fields(d[k])[0] == ib[jj]);
            }
            if exists|k: int| 0 <= k < d.len() && fields(#[trigger] d[k])[0] == ib[jj] {
                let k = choose|k: int| 0 <= k < d.len() && fields(#[trigger] d[k])[0] == ib[jj];
                assert(k != n);
                assert(d[k] == done[k]);
                assert(fields(done[k])[0] == ib[jj]);
            }
        }
    }
}


/// The process limit that a `pids.max` readback carries, when it is a registered limit.
pub open spec fn readback_processes(v: Seq<u8>) -> Option<u32> {
    match canonical_u64(v) {
        Some(n) => if n != 0 && n <= u32::MAX {
            Some(n as u32)
        } else {
            None
        },
        None => None,
    }
}

/// The memory limit that a `memory.max` readback carries, when it is a valid limit.
pub open spec fn readback_memory(v: Seq<u8>) -> Option<u64> {
    match canonical_u64(v) {
        Some(n) => if valid_memory_bytes(n) {
            Some(n)
        } else {
            None
        },
        None => None,
    }
}

/// The swap limit that a `memory.swap.max` readback carries, when it is a valid limit.
pub open spec fn readback_swap(v: Seq<u8>) -> Option<u64> {
    match canonical_u64(v) {
        Some(n) => if valid_swap_bytes(n) {
            Some(n)
        } else {
            None
        },
        None => None,
    }
}

/// The error of a rejected readback set: a missing or invalid limit is a `LimitMismatch`,
/// a malformed `memory.oom.group` an `ObservationInvalid`, any other group value a `LimitMismatch`.
pub open spec fn readback_error(v: Seq<Seq<u8>>) -> CgroupError {
    if readback_processes(v[0]) is None || readback_memory(v[1]) is None || readback_swap(v[2]) is None {
        CgroupError::LimitMismatch
    } else if canonical_u64(v[3]) is None {
        CgroupError::ObservationInvalid
    } else {
        CgroupError::LimitMismatch
    }
}

/// The readbacks are exactly an installed version 2 profile.
pub open spec fn readbacks_ok(v: Seq<Seq<u8>>) -> bool {
    &&& readback_processes(v[0]) is Some
    &&& readback_memory(v[1]) is Some
    &&& readback_swap(v[2]) is Some
    &&& canonical_u64(v[3]) == Some(1u64)
}

fn readback_u64(value: &str, mismatch: CgroupError) -> (r: Result<u64, CgroupError>)
    ensures
        r is Ok <==> canonical_u64(value.spec_bytes()) is Some,
        r matches Ok(n) ==> Some(n) == canonical_u64(value.spec_bytes()),
        r matches Err(e) ==> e == mismatch,
{
    match parse_canonical_u64(value) {
        Ok(n) => Ok(n),
        Err(_) => Err(mismatch),
    }
}

/// Rebuilds the configured resources from the four readbacks of `pids.max`,
/// `memory.max`, `memory.swap.max` and `memory.oom.group`, in that order.
pub fn configured_resources_from_readbacks(values: [&str; 4]) -> (r: Result<ConfiguredResources, CgroupError>)
    ensures
        r is Ok <==> readbacks_ok(strs_bytes(values@)),
        r matches Ok(c) ==> {
            &&& Some(c.processes_of().value()) == readback_processes(values@[0].spec_bytes())
            &&& Some(c.memory_of().value()) == readback_memory(values@[1].spec_bytes())
            &&& Some(c.swap_of().value()) == readback_swap(values@[2].spec_bytes())
            &&& c.memory_oom_group_of() == 1
        },
        r matches Err(e) ==> e == readback_error(strs_bytes(values@)),
{
    let ghost v = strs_bytes(values@);
    assert(v[0] == values@[0].spec_bytes());
    assert(v[1] == values@[1].spec_bytes());
    assert(v[2] == values@[2].spec_bytes());
    assert(v[3] == values@[3].spec_bytes());
    let raw = readback_u64(values[0], CgroupError::LimitMismatch)?;
    if raw > 0xffff_ffff {
        return Err(CgroupError::LimitMismatch);
    }
    let processes = match ProcessLimit::new(raw as u32) {
        Some(limit) => limit,
        None => {
            return Err(CgroupError::LimitMismatch);
        },
    };
    let raw = readback_u64(values[1], CgroupError::LimitMismatch)?;
    let memory = match MemoryByteLimit::new(raw) {
        Some(limit) => limit,
        None => {
            return Err(CgroupError::LimitMismatch);
        },
    };
    let raw = readback_u64(values[2], CgroupError::LimitMismatch)?;
    let swap = match SwapByteLimit::new(raw) {
        Some(limit) => limit,
        None => {
            return Err(CgroupError::LimitMismatch);
        },
    };
    let memory_oom_group = parse_canonical_u64(values[3])?;
    if memory_oom_group != 1 {
        return Err(CgroupError::LimitMismatch);
    }
    Ok(ConfiguredResources { processes, memory, swap, memory_oom_group })
}

/// The names of the six `memory.events.local` counters, in file order.
pub open spec fn memory_counter_names() -> Seq<Seq<u8>> {
    seq![
        "low".spec_bytes(),
        "high".spec_bytes(),
        "max".spec_bytes(),
        "oom".spec_bytes(),
        "oom_kill".spec_bytes(),
        "oom_group_kill".spec_bytes(),
    ]
}

/// Counters read from `memory.events.local` lines sit at the positions of their
/// names: `high`, `max`, `oom`, `oom_kill` and `oom_group_kill` are the second to
/// sixth counters, the ones that witness the limit events of the same names.
pub proof fn lemma_memory_counters_by_name(ls: Seq<Seq<u8>>, ev: MemoryEvents)
    requires
        forall|k: int|
            0 <= k < 6 ==> ev.counters()[k] == counter_value(ls, #[trigger] memory_counter_names()[k]),
    ensures
        ev.counters()[0] == counter_value(ls, "low".spec_bytes()),
        ev.counters()[1] == counter_value(ls, "high".spec_bytes()),
        ev.counters()[2] == counter_value(ls, "max".spec_bytes()),
        ev.counters()[3] == counter_value(ls, "oom".spec_bytes()),
        ev.counters()[4] == counter_value(ls, "oom_kill".spec_bytes()),
        ev.counters()[5] == counter_value(ls, "oom_group_kill".spec_bytes()),
{
    assert(memory_counter_names()[0] == "low".spec_bytes());
    assert(memory_counter_names()[1] == "high".spec_bytes());
    assert(memory_counter_names()[2] == "max".spec_bytes());
    assert(memory_counter_names()[3] == "oom".spec_bytes());
    assert(memory_counter_names()[4] == "oom_kill".spec_bytes());
    assert(memory_counter_names()[5] == "oom_group_kill".spec_bytes());
}

/// The names of the two `memory.swap.events` counters that the runtime uses.
pub open spec fn swap_counter_names() -> Seq<Seq<u8>> {
    seq!["max".spec_bytes(), "fail".spec_bytes()]
}

/// The `memory.swap.events` counter that is accepted once and not reported.
pub open spec fn swap_ignored_names() -> Seq<Seq<u8>> {
    seq!["high".spec_bytes()]
}

/// Parses the four observation files of one snapshot; any malformed file is `ObservationInvalid`.
pub fn parse_resource_snapshot(memory_events: &str, swap_events: &str, memory_peak: &str, swap_peak: &str) -> (r:
    Result<ResourceSnapshot, CgroupError>)
    ensures
        r is Ok <==> {
            &&& counters_ok(lines(memory_events.spec_bytes()), memory_counter_names(), Seq::empty())
            &&& counters_ok(lines(swap_events.spec_bytes()), swap_counter_names(), swap_ignored_names())
            &&& u64_line(memory_peak.spec_bytes()) is Some
            &&& u64_line(swap_peak.spec_bytes()) is Some
        },
        r matches Ok(snap) ==> {
            &&& Some(snap.memory_peak_of()) == u64_line(memory_peak.spec_bytes())
            &&& Some(snap.swap_peak_of()) == u64_line(swap_peak.spec_bytes())
            &&& forall|k: int|
                0 <= k < 6 ==> snap.memory_events_of().counters()[k] == counter_value(
                    lines(memory_events.spec_bytes()),
                    #[trigger] memory_counter_names()[k],
                )
            &&& snap.swap_events_of().max_of() == counter_value(
                lines(swap_events.spec_bytes()),
                swap_counter_names()[0],
            )
            &&& snap.swap_events_of().fail_of() == counter_value(
                lines(swap_events.spec_bytes()),
                swap_counter_names()[1],
            )
        },
        r matches Err(e) ==> e == CgroupError::ObservationInvalid,
{
    let memory_names: [&str; 6] = ["low", "high", "max", "oom", "oom_kill", "oom_group_kill"];
    let no_names: [&str; 0] = [];
    let swap_names: [&str; 2] = ["max", "fail"];
    let swap_ignored: [&str; 1] = ["high"];
    proof {
        reveal_strlit("low");
        reveal_strlit("high");
        reveal_strlit("max");
        reveal_strlit("oom");
        reveal_strlit("oom_kill");
        reveal_strlit("oom_group_kill");
        reveal_strlit("fail");
        assert(strs_bytes(memory_names@) =~= memory_counter_names());
        assert(strs_bytes(no_names@) =~= Seq::<Seq<u8>>::empty());
        assert(strs_bytes(swap_names@) =~= swap_counter_names());
        assert(strs_bytes(swap_ignored@) =~= swap_ignored_names());
        lemma_counter_names_distinct();
    }
    let memory = parse_named_counters(memory_events, memory_names.as_slice(), no_names.as_slice())?;
    let swap = parse_named_counters(swap_events, swap_names.as_slice(), swap_ignored.as_slice())?;
    let memory_peak_bytes = parse_u64_line(memory_peak)?;
    let swap_peak_bytes = parse_u64_line(swap_peak)?;
    let snap = ResourceSnapshot {
        memory_peak_bytes,
        swap_peak_bytes,
        memory_events: MemoryEvents {
            low: memory[0],
            high: memory[1],
            max: memory[2],
            oom: memory[3],
            oom_kill: memory[4],
            oom_group_kill: memory[5],
        },
        swap_events: SwapEvents { max: swap[0], fail: swap[1] },
    };
    proof {
        assert forall|k: int| 0 <= k < 6 implies snap.memory_events_of().counters()[k] == counter_value(
            lines(memory_events.spec_bytes()),
            #[trigger] memory_counter_names()[k],
        ) by {
            assert(memory_counter_names()[k] == strs_bytes(memory_names@)[k]);
        }
    }
    Ok(snap)
}

proof fn lemma_counter_names_distinct()
    ensures
        distinct_names(memory_counter_names()),
        distinct_names(swap_counter_names()),
        distinct_names(swap_ignored_names()),
        forall|a: int, b: int|
            0 <= a < swap_counter_names().len() && 0 <= b < swap_ignored_names().len()
                ==> swap_counter_names()[a] != swap_ignored_names()[b],
{
    reveal_strlit("low");
    reveal_strlit("high");
    reveal_strlit("max");
    reveal_strlit("oom");
    reveal_strlit("oom_kill");
    reveal_strlit("oom_group_kill");
    reveal_strlit("fail");
    reveal_with_fuel(ascii_upto, 15);
    lemma_ascii_str_bytes("low");
    lemma_ascii_str_bytes("high");
    lemma_ascii_str_bytes("max");
    lemma_ascii_str_bytes("oom");
    lemma_ascii_str_bytes("oom_kill");
    lemma_ascii_str_bytes("oom_group_kill");
    lemma_ascii_str_bytes("fail");
    let n = memory_counter_names();
    assert(n[0].len() == 3 && n[1].len() == 4 && n[2].len() == 3 && n[3].len() == 3 && n[4].len() == 8
        && n[5].len() == 14);
    assert(n[0][0] != n[2][0] && n[0][0] != n[3][0] && n[2][0] != n[3][0]);
    assert(swap_counter_names()[0][0] != swap_ignored_names()[0][0]);
    assert(swap_counter_names()[1][0] != swap_ignored_names()[0][0]);
    assert(swap_counter_names()[0][0] != swap_counter_names()[1][0]);
}

/// A line of `cgroup.events`: blank, or exactly a name and a value.
pub open spec fn events_line_ok(line: Seq<u8>) -> bool {
    fields(line).len() == 0 || fields(line).len() == 2
}

/// A `populated` line of `cgroup.events`.
pub open spec fn is_populated_line(line: Seq<u8>) -> bool {
    fields(line).len() == 2 && fields(line)[0] == "populated".spec_bytes()
}

/// The value of a `populated` line is `0` or `1`.
pub open spec fn populated_value_ok(line: Seq<u8>) -> bool {
    fields(line)[1] == seq![0x30u8] || fields(line)[1] == seq![0x31u8]
}

/// `cgroup.events` is well formed: every line is blank or a pair, exactly one line
/// is `populated`, and its value is `0` or `1`.
pub open spec fn events_ok(ls: Seq<Seq<u8>>) -> bool {
    &&& forall|k: int| 0 <= k < ls.len() ==> events_line_ok(#[trigger] ls[k])
    &&& exists|k: int| 0 <= k < ls.len() && #[trigger] is_populated_line(ls[k]) && populated_value_ok(ls[k])
    &&& forall|a: int, b: int|
        0 <= a < b < ls.len() && #[trigger] is_populated_line(ls[a]) ==> !#[trigger] is_populated_line(ls[b])
}

/// Whether the single `populated` line says `1`.
pub open spec fn events_populated(ls: Seq<Seq<u8>>) -> bool {
    let k = choose|k: int| 0 <= k < ls.len() && #[trigger] is_populated_line(ls[k]);
    fields(ls[k])[1] == seq![0x31u8]
}

/// Parses `cgroup.events` and returns whether the cgroup is populated.
pub fn parse_events(input: &str) -> (r: Result<bool, CgroupError>)
    ensures
        r is Ok <==> events_ok(lines(input.spec_bytes())),
        r matches Ok(p) ==> p == events_populated(lines(input.spec_bytes())),
        r matches Err(e) ==> e == CgroupError::EventsInvalid,
{
    let s = input.as_bytes();
    let populated_name = "populated".as_bytes();
    let ghost all_lines = lines(s@);
    let mut populated: Option<bool> = None;
    let mut pos: usize = 0;
    let ghost mut done: Seq<Seq<u8>> = Seq::empty();
    loop
        invariant
            pos <= s@.len(),
            s@ == input.spec_bytes(),
            populated_name@ == "populated".spec_bytes(),
            all_lines == lines(s@),
            all_lines == done + lines_from(s@, pos as int),
            forall|k: int| 0 <= k < done.len() ==> events_line_ok(#[trigger] done[k]),
            forall|a: int, b: int|
                0 <= a < b < done.len() && #[trigger] is_populated_line(done[a]) ==> !#[trigger] is_populated_line(
                    done[b],
                ),
            populated is None ==> forall|k: int| 0 <= k < done.len() ==> !#[trigger] is_populated_line(done[k]),
            populated matches Some(p) ==> exists|k: int|
                0 <= k < done.len() && #[trigger] is_populated_line(done[k]) && populated_value_ok(done[k])
                    && p == (fields(done[k])[1] == seq![0x31u8]),
        ensures
            lines_from(s@, pos as int).len() == 0,
        decreases s@.len() - pos,
    {
        let (a, b, next) = match next_line(s, pos) {
            Some(l) => l,
            None => {
                break ;
            },
        };
        let line = &s[a..b];
        let ghost rest = lines_from(s@, next as int);
        assert(all_lines == done + seq![line@] + rest);
        assert(all_lines[done.len() as int] == line@);
        match next_field(line, 0) {
            None => {},
            Some(_) => {
                let (fa, fb, fc, fd) = match two_fields(line) {
                    Some(f) => f,
                    None => {
                        return Err(CgroupError::EventsInvalid);
                    },
                };
                let name = &line[fa..fb];
                let value = &line[fc..fd];
                assert(name@ == fields(line@)[0]);
                assert(value@ == fields(line@)[1]);
                if bytes_equal(name, populated_name) {
                    if populated.is_some() {
                        proof {
                            let k = choose|k: int|
                                0 <= k < done.len() && #[trigger] is_populated_line(done[k]) && populated_value_ok(
                                    done[k],
                                ) && populated->0 == (fields(done[k])[1] == seq![0x31u8]);
                            assert(all_lines[k] == done[k]);
                            assert(is_populated_line(all_lines[done.len() as int]));
                        }
                        return Err(CgroupError::EventsInvalid);
                    }
                    if value.len() == 1 && value[0] == 0x30 {
                        populated = Some(false);
                    } else if value.len() == 1 && value[0] == 0x31 {
                        populated = Some(true);
                    } else {
                        proof {
                            assert(!populated_value_ok(line@)) by {
                                if value@ == seq![0x30u8] || value@ == seq![0x31u8] {
                                    assert(value@[0] == 0x30 || value@[0] == 0x31);
                                }
                            }
                            if events_ok(all_lines) {
                                let k = choose|k: int|
                                    0 <= k < all_lines.len() && #[trigger] is_populated_line(all_lines[k])
                                        && populated_value_ok(all_lines[k]);
                                let c = done.len() as int;
                                assert(is_populated_line(all_lines[c]));
                                if k < c {
                                    assert(all_lines[k] == done[k]);
                                }
                            }
                        }
                        return Err(CgroupError::EventsInvalid);
                    }
                    proof {
                        assert(value@ =~= seq![value@[0]]);
                    }
                }
            },
        }
        proof {
            let old_done = done;
            done = done.push(line@);
            assert(all_lines == done + rest);
            assert(done[old_done.len() as int] == line@);
            assert forall|k: int| 0 <= k < done.len() implies events_line_ok(#[trigger] done[k]) by {
                if k < old_done.len() {
                    assert(done[k] == old_done[k]);
                }
            }
            assert forall|a2: int, b2: int|
                0 <= a2 < b2 < done.len() && #[trigger] is_populated_line(done[a2]) implies !#[trigger] is_populated_line(
                    done[b2],
                ) by {
                assert(done[a2] == old_done[a2]);
                if b2 < old_done.len() {
                    assert(done[b2] == old_done[b2]);
                }
            }
            if populated is None {
                assert forall|k: int| 0 <= k < done.len() implies !#[trigger] is_populated_line(done[k]) by {
                    if k < old_done.len() {
                        assert(done[k] == old_done[k]);
                    }
                }
            } else {
                if is_populated_line(line@) {
                    assert(is_populated_line(done[old_done.len() as int]));
                } else {
                    let k = choose|k: int|
                        0 <= k < old_done.len() && #[trigger] is_populated_line(old_done[k]) && populated_value_ok(
                            old_done[k],
                        ) && populated->0 == (fields(old_done[k])[1] == seq![0x31u8]);
                    assert(done[k] == old_done[k]);
                }
            }
        }
        pos = next;
    }
    proof {
        assert(done =~= all_lines);
    }
    match populated {
        Some(p) => {
            proof {
                let k = choose|k: int|
                    0 <= k < done.len() && #[trigger] is_populated_line(done[k]) && populated_value_ok(done[k])
                        && p == (fields(done[k])[1] == seq![0x31u8]);
                let c = choose|c: int| 0 <= c < all_lines.len() && #[trigger] is_populated_line(all_lines[c]);
                if c < k {
                    assert(!is_populated_line(all_lines[k]));
                } else if k < c {
                    assert(!is_populated_line(all_lines[c]));
                }
            }
            Ok(p)
        },
        None => Err(CgroupError::EventsInvalid),
    }
}

/// A line of `cgroup.procs`: blank, or a nonzero process identifier as `u32::from_str` reads it.
pub open spec fn process_line_ok(line: Seq<u8>) -> bool {
    line.len() == 0 || (unsigned_text(line) && decimal_value(unsigned_digits(line)) <= u32::MAX
        && decimal_value(unsigned_digits(line)) != 0)
}

/// The identifier a nonblank process line names.
pub open spec fn process_line_value(line: Seq<u8>) -> nat {
    decimal_value(unsigned_digits(line))
}

/// Parses `cgroup.procs` into the strictly increasing set of process identifiers;
/// any malformed or zero identifier is `ControlUnavailable`.
pub fn parse_processes(input: &str) -> (r: Result<Vec<u32>, CgroupError>)
    ensures
        r is Ok <==> forall|k: int|
            0 <= k < lines(input.spec_bytes()).len() ==> process_line_ok(#[trigger] lines(input.spec_bytes())[k]),
        r matches Ok(ids) ==> {
            &&& forall|a: int, b: int| 0 <= a < b < ids@.len() ==> ids@[a] < ids@[b]
            &&& forall|x: u32| #[trigger] ids@.contains(x) <==> exists|k: int|
                0 <= k < lines(input.spec_bytes()).len() && lines(input.spec_bytes())[k].len() > 0
                    && process_line_value(lines(input.spec_bytes())[k]) == x
        },
        r matches Err(e) ==> e == CgroupError::ControlUnavailable,
{
    let s = input.as_bytes();
    let ghost all_lines = lines(s@);
    let mut ids: Vec<u32> = Vec::new();
    let mut pos: usize = 0;
    let ghost mut done: Seq<Seq<u8>> = Seq::empty();
    loop
        invariant
            pos <= s@.len(),
            s@ == input.spec_bytes(),
            all_lines == lines(s@),
            all_lines == done + lines_from(s@, pos as int),
            forall|k: int| 0 <= k < done.len() ==> process_line_ok(#[trigger] done[k]),
            forall|a: int, b: int| 0 <= a < b < ids@.len() ==> ids@[a] < ids@[b],
            forall|x: u32| #[trigger] ids@.contains(x) <==> exists|k: int|
                0 <= k < done.len() && done[k].len() > 0 && process_line_value(done[k]) == x,
        ensures
            lines_from(s@, pos as int).len() == 0,
        decreases s@.len() - pos,
    {
        let (a, b, next) = match next_line(s, pos) {
            Some(l) => l,
            None => {
                break ;
            },
        };
        let line = &s[a..b];
        let ghost rest = lines_from(s@, next as int);
        assert(all_lines == done + seq![line@] + rest);
        assert(all_lines[done.len() as int] == line@);
        let ghost ids_before = ids@;
        if line.len() > 0 {
            let id = match crate::text::parse_unsigned_u32(line) {
                Some(v) => v,
                None => {
                    return Err(CgroupError::ControlUnavailable);
                },
            };
            if id == 0 {
                return Err(CgroupError::ControlUnavailable);
            }
            crate::text::insert_sorted_u32(&mut ids, id);
        }
        proof {
            let old_done = done;
            done = done.push(line@);
            assert(all_lines == done + rest);
            assert(done[old_done.len() as int] == line@);
            assert forall|k: int| 0 <= k < done.len() implies process_line_ok(#[trigger] done[k]) by {
                if k < old_done.len() {
                    assert(done[k] == old_done[k]);
                }
            }
            assert forall|x: u32| #[trigger] ids@.contains(x) <==> exists|k: int|
                0 <= k < done.len() && done[k].len() > 0 && process_line_value(done[k]) == x by {
                if exists|k: int| 0 <= k < done.len() && done[k].len() > 0 && process_line_value(done[k]) == x {
                    let k = choose|k: int|
                        0 <= k < done.len() && done[k].len() > 0 && process_line_value(done[k]) == x;
                    if k < old_done.len() {
                        assert(done[k] == old_done[k]);
                        assert(ids_before.contains(x));
                    }
                }
                if ids_before.contains(x) {
                    let k = choose|k: int|
                        0 <= k < old_done.len() && old_done[k].len() > 0 && process_line_value(old_done[k]) == x;
                    assert(done[k] == old_done[k]);
                }
                if line@.len() > 0 && process_line_value(line@) == x {
                    assert(done[old_done.len() as int] == line@);
                }
            }
        }
        pos = next;
    }
    proof {
        assert(done =~= all_lines);
    }
    Ok(ids)
}

} // verus!
