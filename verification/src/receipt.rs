//! The pure receipt eligibility decision boundary.
use vstd::prelude::*;

verus! {

/// Reports whether the launcher installed the complete boundary.
#[derive(Clone, Copy, Debug, PartialEq, Eq, Structural)]
pub enum BoundaryInstallation {
    /// The launcher installed the complete boundary.
    Installed,
    /// The launcher did not confirm the complete boundary.
    Incomplete,
}

/// Contains a nonzero process signal number.
#[derive(Clone, Copy, Debug, PartialEq, Eq, Structural)]
pub struct SignalNumber(u32);

impl SignalNumber {
    #[verifier::type_invariant]
    spec fn nonzero(self) -> bool {
        self.0 != 0
    }

    /// The numeric value carried by the signal number.
    pub closed spec fn value(self) -> u32 {
        self.0
    }

    /// The smallest valid signal number.
    pub fn min_signal() -> (r: Self)
        ensures
            r.value() == 1,
    {
        SignalNumber(1)
    }

    /// Creates a signal number when `value` is nonzero.
    pub fn new(value: u32) -> (r: Option<Self>)
        ensures
            value == 0 ==> r.is_none(),
            value != 0 ==> (r matches Some(s) && s.value() == value),
    {
        if value == 0 {
            None
        } else {
            Some(SignalNumber(value))
        }
    }

    /// Creates a signal number from an already-nonzero value.
    pub fn from_nonzero(value: u32) -> (r: Self)
        requires
            value != 0,
        ensures
            r.value() == value,
    {
        SignalNumber(value)
    }

    /// Returns the nonzero numeric value.
    pub fn get(self) -> (r: u32)
        ensures
            r == self.value(),
            r != 0,
    {
        proof {
            use_type_invariant(&self);
        }
        self.0
    }
}

/// Reports the observed result of one execution attempt.
#[derive(Clone, Copy, Debug, PartialEq, Eq, Structural)]
pub enum ExecutionOutcome {
    /// The child exited with the specified exit code.
    Exited {
        /// Contains the observed process exit code.
        code: i32,
    },
    /// The child stopped because it received a signal.
    Signaled {
        /// Contains the nonzero signal number.
        signal: SignalNumber,
    },
    /// The supervisor stopped the child at the wall-time limit.
    TimedOut,
    /// The installed boundary denied the child operation.
    Denied,
    /// The launcher failed before it started the child.
    LauncherFailed,
    /// The supervisor did not observe a terminal execution result.
    Incomplete,
}

/// Reports whether one captured stream contains all observed bytes.
#[derive(Clone, Copy, Debug, PartialEq, Eq, Structural)]
pub enum StreamCapture {
    /// The capture contains all observed bytes.
    Complete,
    /// The capture reached its registered byte limit.
    Truncated,
}

/// Reports whether receipt structure validation completed.
#[derive(Clone, Copy, Debug, PartialEq, Eq, Structural)]
pub enum ReceiptStructure {
    /// The receipt has the registered structure.
    Valid,
    /// The receipt is missing required structure or contains invalid structure.
    Malformed,
}

/// Identifies one terminal cgroup resource event retained by version 2.
#[derive(Clone, Copy, Debug, PartialEq, Eq, Structural)]
pub enum LimitEvent {
    MemoryHigh,
    MemoryMax,
    MemoryOom,
    MemoryOomKill,
    MemoryOomGroupKill,
    SwapMax,
    SwapFail,
}

/// Contains the canonical set of terminal resource events.
#[derive(Clone, Copy, Debug, PartialEq, Eq, Structural)]
pub struct LimitEvents {
    memory_high: bool,
    memory_max: bool,
    memory_oom: bool,
    memory_oom_kill: bool,
    memory_oom_group_kill: bool,
    swap_max: bool,
    swap_fail: bool,
}

impl LimitEvents {
    /// Reports whether the canonical set holds `event`.
    pub closed spec fn has(self, event: LimitEvent) -> bool {
        match event {
            LimitEvent::MemoryHigh => self.memory_high,
            LimitEvent::MemoryMax => self.memory_max,
            LimitEvent::MemoryOom => self.memory_oom,
            LimitEvent::MemoryOomKill => self.memory_oom_kill,
            LimitEvent::MemoryOomGroupKill => self.memory_oom_group_kill,
            LimitEvent::SwapMax => self.swap_max,
            LimitEvent::SwapFail => self.swap_fail,
        }
    }

    /// Two canonical sets are equal exactly when they hold the same events.
    pub proof fn lemma_extensional(a: LimitEvents, b: LimitEvents)
        requires
            forall|e: LimitEvent| a.has(e) == b.has(e),
        ensures
            a == b,
    {
        assert(a.has(LimitEvent::MemoryHigh) == b.has(LimitEvent::MemoryHigh));
        assert(a.has(LimitEvent::MemoryMax) == b.has(LimitEvent::MemoryMax));
        assert(a.has(LimitEvent::MemoryOom) == b.has(LimitEvent::MemoryOom));
        assert(a.has(LimitEvent::MemoryOomKill) == b.has(LimitEvent::MemoryOomKill));
        assert(a.has(LimitEvent::MemoryOomGroupKill) == b.has(LimitEvent::MemoryOomGroupKill));
        assert(a.has(LimitEvent::SwapMax) == b.has(LimitEvent::SwapMax));
        assert(a.has(LimitEvent::SwapFail) == b.has(LimitEvent::SwapFail));
    }

    /// Returns the empty canonical set.
    pub fn empty() -> (r: Self)
        ensures
            forall|e: LimitEvent| !r.has(e),
    {
        LimitEvents {
            memory_high: false,
            memory_max: false,
            memory_oom: false,
            memory_oom_kill: false,
            memory_oom_group_kill: false,
            swap_max: false,
            swap_fail: false,
        }
    }

    /// Canonicalizes an event collection and removes duplicates.
    pub fn new(events: &[LimitEvent]) -> (r: Self)
        ensures
            forall|e: LimitEvent| r.has(e) <==> events@.contains(e),
    {
        let mut present = Self::empty();
        let mut index: usize = 0;
        while index < events.len()
            invariant
                index <= events@.len(),
                forall|e: LimitEvent| present.has(e) <==> events@.take(index as int).contains(e),
            decreases events@.len() - index,
        {
            let event = events[index];
            let ghost before = present;
            match event {
                LimitEvent::MemoryHigh => present.memory_high = true,
                LimitEvent::MemoryMax => present.memory_max = true,
                LimitEvent::MemoryOom => present.memory_oom = true,
                LimitEvent::MemoryOomKill => present.memory_oom_kill = true,
                LimitEvent::MemoryOomGroupKill => present.memory_oom_group_kill = true,
                LimitEvent::SwapMax => present.swap_max = true,
                LimitEvent::SwapFail => present.swap_fail = true,
            }
            proof {
                assert forall|e: LimitEvent| present.has(e) == (before.has(e) || e == event) by {
                    match e {
                        LimitEvent::MemoryHigh => {},
                        LimitEvent::MemoryMax => {},
                        LimitEvent::MemoryOom => {},
                        LimitEvent::MemoryOomKill => {},
                        LimitEvent::MemoryOomGroupKill => {},
                        LimitEvent::SwapMax => {},
                        LimitEvent::SwapFail => {},
                    }
                }
                let prefix = events@.take(index as int);
                let next = events@.take(index + 1);
                assert(next =~= prefix.push(event));
                assert forall|e: LimitEvent| next.contains(e) <==> (prefix.contains(e) || e == event) by {
                    if next.contains(e) {
                        let k = choose|k: int| 0 <= k < next.len() && next[k] == e;
                        if k < prefix.len() {
                            assert(prefix[k] == e);
                        }
                    }
                    if prefix.contains(e) {
                        let k = choose|k: int| 0 <= k < prefix.len() && prefix[k] == e;
                        assert(next[k] == e);
                    }
                    if e == event {
                        assert(next[index as int] == e);
                    }
                }
            }
            index = index + 1;
        }
        assert(events@.take(events@.len() as int) =~= events@);
        present
    }

    /// Reports whether the canonical set contains an event.
    pub fn contains(self, event: LimitEvent) -> (r: bool)
        ensures
            r == self.has(event),
    {
        match event {
            LimitEvent::MemoryHigh => self.memory_high,
            LimitEvent::MemoryMax => self.memory_max,
            LimitEvent::MemoryOom => self.memory_oom,
            LimitEvent::MemoryOomKill => self.memory_oom_kill,
            LimitEvent::MemoryOomGroupKill => self.memory_oom_group_kill,
            LimitEvent::SwapMax => self.swap_max,
            LimitEvent::SwapFail => self.swap_fail,
        }
    }

    /// Reports whether no registered event occurred.
    pub fn is_empty(self) -> (r: bool)
        ensures
            r <==> forall|e: LimitEvent| !self.has(e),
    {
        let r = !self.memory_high && !self.memory_max && !self.memory_oom && !self.memory_oom_kill
            && !self.memory_oom_group_kill && !self.swap_max && !self.swap_fail;
        proof {
            if !r {
                if self.memory_high {
                    assert(self.has(LimitEvent::MemoryHigh));
                } else if self.memory_max {
                    assert(self.has(LimitEvent::MemoryMax));
                } else if self.memory_oom {
                    assert(self.has(LimitEvent::MemoryOom));
                } else if self.memory_oom_kill {
                    assert(self.has(LimitEvent::MemoryOomKill));
                } else if self.memory_oom_group_kill {
                    assert(self.has(LimitEvent::MemoryOomGroupKill));
                } else if self.swap_max {
                    assert(self.has(LimitEvent::SwapMax));
                } else {
                    assert(self.has(LimitEvent::SwapFail));
                }
            }
        }
        r
    }
}

/// Contains the facts that determine reuse eligibility.
#[derive(Clone, Copy, Debug, PartialEq, Eq, Structural)]
pub struct ReceiptFacts {
    boundary: BoundaryInstallation,
    outcome: ExecutionOutcome,
    stdout: StreamCapture,
    stderr: StreamCapture,
    structure: ReceiptStructure,
    limit_events: LimitEvents,
}

impl ReceiptFacts {
    /// The boundary-installation fact.
    pub closed spec fn boundary_fact(self) -> BoundaryInstallation {
        self.boundary
    }

    /// The execution-outcome fact.
    pub closed spec fn outcome_fact(self) -> ExecutionOutcome {
        self.outcome
    }

    /// The standard-output capture fact.
    pub closed spec fn stdout_fact(self) -> StreamCapture {
        self.stdout
    }

    /// The standard-error capture fact.
    pub closed spec fn stderr_fact(self) -> StreamCapture {
        self.stderr
    }

    /// The receipt-structure fact.
    pub closed spec fn structure_fact(self) -> ReceiptStructure {
        self.structure
    }

    /// The terminal resource events.
    pub closed spec fn limit_events_fact(self) -> LimitEvents {
        self.limit_events
    }

    /// Creates one complete eligibility input.
    pub fn new(
        boundary: BoundaryInstallation,
        outcome: ExecutionOutcome,
        stdout: StreamCapture,
        stderr: StreamCapture,
        structure: ReceiptStructure,
    ) -> (r: Self)
        ensures
            r.boundary_fact() == boundary,
            r.outcome_fact() == outcome,
            r.stdout_fact() == stdout,
            r.stderr_fact() == stderr,
            r.structure_fact() == structure,
            forall|e: LimitEvent| !r.limit_events_fact().has(e),
    {
        ReceiptFacts {
            boundary,
            outcome,
            stdout,
            stderr,
            structure,
            limit_events: LimitEvents::empty(),
        }
    }

    /// Creates one complete version 2 eligibility input.
    pub fn new_v2(
        boundary: BoundaryInstallation,
        outcome: ExecutionOutcome,
        stdout: StreamCapture,
        stderr: StreamCapture,
        structure: ReceiptStructure,
        limit_events: LimitEvents,
    ) -> (r: Self)
        ensures
            r.boundary_fact() == boundary,
            r.outcome_fact() == outcome,
            r.stdout_fact() == stdout,
            r.stderr_fact() == stderr,
            r.structure_fact() == structure,
            r.limit_events_fact() == limit_events,
    {
        ReceiptFacts { boundary, outcome, stdout, stderr, structure, limit_events }
    }
}

/// Identifies one reason that prevents receipt reuse.
#[derive(Clone, Copy, Debug, PartialEq, Eq, Structural)]
pub enum NonReusableReason {
    /// The launcher did not confirm the complete boundary.
    BoundaryIncomplete,
    /// The child returned a nonzero exit code.
    ExitCodeNonzero,
    /// A signal stopped the child.
    ProcessSignaled,
    /// The supervisor stopped the child at the wall-time limit.
    TimedOut,
    /// The installed boundary denied a child operation.
    Denied,
    /// The launcher failed before it started the child.
    LauncherFailed,
    /// The supervisor did not observe a terminal execution result.
    ExecutionIncomplete,
    /// Standard-output capture reached its byte limit.
    StandardOutputTruncated,
    /// Standard-error capture reached its byte limit.
    StandardErrorTruncated,
    /// Receipt structure validation failed.
    ReceiptMalformed,
    MemoryHigh,
    MemoryMax,
    MemoryOom,
    MemoryOomKill,
    MemoryOomGroupKill,
    SwapMax,
    SwapFail,
}

/// Contains one or more reasons in canonical order.
#[derive(Clone, Debug, PartialEq, Eq)]
pub struct NonReusableReasons(Vec<NonReusableReason>);

impl View for NonReusableReasons {
    type V = Seq<NonReusableReason>;

    closed spec fn view(&self) -> Seq<NonReusableReason> {
        self.0@
    }
}

impl NonReusableReasons {
    /// Returns the reasons in canonical order.
    pub fn as_slice(&self) -> (r: &[NonReusableReason])
        ensures
            r@ == self@,
    {
        self.0.as_slice()
    }
}

/// Reports whether a receipt can be reused as execution evidence.
#[derive(Clone, Debug, PartialEq, Eq)]
pub enum ReceiptEligibility {
    /// The receipt satisfies every reuse condition for its represented facts.
    Reusable,
    /// The receipt does not satisfy one or more reuse conditions.
    NonReusable(NonReusableReasons),
}

/// The singleton sequence `seq![reason]` when `present`, else the empty sequence.
pub open spec fn reason_if(present: bool, reason: NonReusableReason) -> Seq<NonReusableReason> {
    if present {
        seq![reason]
    } else {
        Seq::empty()
    }
}

/// The reason, if any, that an execution outcome contributes.
pub open spec fn outcome_reasons(outcome: ExecutionOutcome) -> Seq<NonReusableReason> {
    match outcome {
        ExecutionOutcome::Exited { code } => reason_if(code != 0, NonReusableReason::ExitCodeNonzero),
        ExecutionOutcome::Signaled { .. } => seq![NonReusableReason::ProcessSignaled],
        ExecutionOutcome::TimedOut => seq![NonReusableReason::TimedOut],
        ExecutionOutcome::Denied => seq![NonReusableReason::Denied],
        ExecutionOutcome::LauncherFailed => seq![NonReusableReason::LauncherFailed],
        ExecutionOutcome::Incomplete => seq![NonReusableReason::ExecutionIncomplete],
    }
}

/// `prefix` followed by the resource-event reasons in canonical order.
pub open spec fn with_limit_event_reasons(prefix: Seq<NonReusableReason>, events: LimitEvents) -> Seq<
    NonReusableReason,
> {
    prefix + reason_if(events.has(LimitEvent::MemoryHigh), NonReusableReason::MemoryHigh)
        + reason_if(events.has(LimitEvent::MemoryMax), NonReusableReason::MemoryMax)
        + reason_if(events.has(LimitEvent::MemoryOom), NonReusableReason::MemoryOom)
        + reason_if(events.has(LimitEvent::MemoryOomKill), NonReusableReason::MemoryOomKill)
        + reason_if(events.has(LimitEvent::MemoryOomGroupKill), NonReusableReason::MemoryOomGroupKill)
        + reason_if(events.has(LimitEvent::SwapMax), NonReusableReason::SwapMax)
        + reason_if(events.has(LimitEvent::SwapFail), NonReusableReason::SwapFail)
}

/// Every reason that applies to `facts`, in the canonical order.
pub open spec fn expected_reasons(facts: ReceiptFacts) -> Seq<NonReusableReason> {
    with_limit_event_reasons(
        reason_if(facts.boundary_fact() == BoundaryInstallation::Incomplete, NonReusableReason::BoundaryIncomplete)
            + outcome_reasons(facts.outcome_fact())
            + reason_if(facts.stdout_fact() == StreamCapture::Truncated, NonReusableReason::StandardOutputTruncated)
            + reason_if(facts.stderr_fact() == StreamCapture::Truncated, NonReusableReason::StandardErrorTruncated)
            + reason_if(facts.structure_fact() == ReceiptStructure::Malformed, NonReusableReason::ReceiptMalformed),
        facts.limit_events_fact(),
    )
}

/// The facts satisfy every reuse condition.
pub open spec fn reusable_facts(facts: ReceiptFacts) -> bool {
    &&& facts.boundary_fact() == BoundaryInstallation::Installed
    &&& facts.outcome_fact() == (ExecutionOutcome::Exited { code: 0 })
    &&& facts.stdout_fact() == StreamCapture::Complete
    &&& facts.stderr_fact() == StreamCapture::Complete
    &&& facts.structure_fact() == ReceiptStructure::Valid
    &&& forall|e: LimitEvent| !facts.limit_events_fact().has(e)
}

fn append_reason(reasons: Vec<NonReusableReason>, present: bool, reason: NonReusableReason) -> (r: Vec<
    NonReusableReason,
>)
    ensures
        r@ == reasons@ + reason_if(present, reason),
{
    let mut reasons = reasons;
    if present {
        reasons.push(reason);
    }
    proof {
        if !present {
            assert(reasons@ + reason_if(present, reason) =~= reasons@);
        }
    }
    reasons
}

fn append_limit_event_reasons(reasons: Vec<NonReusableReason>, events: LimitEvents) -> (r: Vec<
    NonReusableReason,
>)
    ensures
        r@ == with_limit_event_reasons(reasons@, events),
{
    let reasons = append_reason(reasons, events.contains(LimitEvent::MemoryHigh), NonReusableReason::MemoryHigh);
    let reasons = append_reason(reasons, events.contains(LimitEvent::MemoryMax), NonReusableReason::MemoryMax);
    let reasons = append_reason(reasons, events.contains(LimitEvent::MemoryOom), NonReusableReason::MemoryOom);
    let reasons = append_reason(
        reasons,
        events.contains(LimitEvent::MemoryOomKill),
        NonReusableReason::MemoryOomKill,
    );
    let reasons = append_reason(
        reasons,
        events.contains(LimitEvent::MemoryOomGroupKill),
        NonReusableReason::MemoryOomGroupKill,
    );
    let reasons = append_reason(reasons, events.contains(LimitEvent::SwapMax), NonReusableReason::SwapMax);
    append_reason(reasons, events.contains(LimitEvent::SwapFail), NonReusableReason::SwapFail)
}

fn append_outcome_reason(reasons: Vec<NonReusableReason>, outcome: ExecutionOutcome) -> (r: Vec<
    NonReusableReason,
>)
    ensures
        r@ == reasons@ + outcome_reasons(outcome),
{
    let mut reasons = reasons;
    let ghost start = reasons@;
    match outcome {
        ExecutionOutcome::Exited { code } => {
            if code != 0 {
                reasons.push(NonReusableReason::ExitCodeNonzero);
            }
        },
        ExecutionOutcome::Signaled { .. } => reasons.push(NonReusableReason::ProcessSignaled),
        ExecutionOutcome::TimedOut => reasons.push(NonReusableReason::TimedOut),
        ExecutionOutcome::Denied => reasons.push(NonReusableReason::Denied),
        ExecutionOutcome::LauncherFailed => reasons.push(NonReusableReason::LauncherFailed),
        ExecutionOutcome::Incomplete => reasons.push(NonReusableReason::ExecutionIncomplete),
    }
    assert(reasons@ =~= start + outcome_reasons(outcome));
    reasons
}

/// Derives receipt reuse eligibility from typed execution facts.
///
/// The returned reasons use the canonical order.
pub fn derive_receipt_eligibility(facts: &ReceiptFacts) -> (r: ReceiptEligibility)
    ensures
        r matches ReceiptEligibility::Reusable ==> expected_reasons(*facts).len() == 0,
        r matches ReceiptEligibility::NonReusable(reasons) ==> reasons@ == expected_reasons(*facts)
            && reasons@.len() > 0,
{
    let reasons = append_reason(
        Vec::new(),
        facts.boundary == BoundaryInstallation::Incomplete,
        NonReusableReason::BoundaryIncomplete,
    );
    let reasons = append_outcome_reason(reasons, facts.outcome);
    let reasons = append_reason(
        reasons,
        facts.stdout == StreamCapture::Truncated,
        NonReusableReason::StandardOutputTruncated,
    );
    let reasons = append_reason(
        reasons,
        facts.stderr == StreamCapture::Truncated,
        NonReusableReason::StandardErrorTruncated,
    );
    let reasons = append_reason(
        reasons,
        facts.structure == ReceiptStructure::Malformed,
        NonReusableReason::ReceiptMalformed,
    );
    let reasons = append_limit_event_reasons(reasons, facts.limit_events);
    if reasons.len() == 0 {
        ReceiptEligibility::Reusable
    } else {
        ReceiptEligibility::NonReusable(NonReusableReasons(reasons))
    }
}

/// Law: the canonical reason list is empty exactly when every reuse condition holds,
/// so only a complete, installed, zero-exit, untruncated, well-formed run without
/// resource events is reusable.
pub proof fn lemma_reusable_iff_all_conditions(facts: ReceiptFacts)
    ensures
        expected_reasons(facts).len() == 0 <==> reusable_facts(facts),
{
    let ev = facts.limit_events_fact();
    if expected_reasons(facts).len() == 0 {
        assert forall|e: LimitEvent| !ev.has(e) by {
            match e {
                LimitEvent::MemoryHigh => {},
                LimitEvent::MemoryMax => {},
                LimitEvent::MemoryOom => {},
                LimitEvent::MemoryOomKill => {},
                LimitEvent::MemoryOomGroupKill => {},
                LimitEvent::SwapMax => {},
                LimitEvent::SwapFail => {},
            }
        }
        match facts.outcome_fact() {
            ExecutionOutcome::Exited { code } => {},
            _ => {},
        }
    }
    if reusable_facts(facts) {
        assert(!ev.has(LimitEvent::MemoryHigh));
        assert(!ev.has(LimitEvent::MemoryMax));
        assert(!ev.has(LimitEvent::MemoryOom));
        assert(!ev.has(LimitEvent::MemoryOomKill));
        assert(!ev.has(LimitEvent::MemoryOomGroupKill));
        assert(!ev.has(LimitEvent::SwapMax));
        assert(!ev.has(LimitEvent::SwapFail));
    }
}

/// Law: every retained resource event contributes exactly its own reason, so a
/// receipt with any resource event is never reusable.
pub proof fn lemma_limit_event_forces_nonreuse(facts: ReceiptFacts, event: LimitEvent)
    requires
        facts.limit_events_fact().has(event),
    ensures
        !reusable_facts(facts),
        expected_reasons(facts).len() > 0,
{
    lemma_reusable_iff_all_conditions(facts);
}

/// The place of a reason in the canonical order; the outcome reasons share one place,
/// since an outcome gives at most one of them.
pub open spec fn reason_rank(r: NonReusableReason) -> int {
    match r {
        NonReusableReason::BoundaryIncomplete => 0,
        NonReusableReason::ExitCodeNonzero | NonReusableReason::ProcessSignaled | NonReusableReason::TimedOut
        | NonReusableReason::Denied | NonReusableReason::LauncherFailed
        | NonReusableReason::ExecutionIncomplete => 1,
        NonReusableReason::StandardOutputTruncated => 2,
        NonReusableReason::StandardErrorTruncated => 3,
        NonReusableReason::ReceiptMalformed => 4,
        NonReusableReason::MemoryHigh => 5,
        NonReusableReason::MemoryMax => 6,
        NonReusableReason::MemoryOom => 7,
        NonReusableReason::MemoryOomKill => 8,
        NonReusableReason::MemoryOomGroupKill => 9,
        NonReusableReason::SwapMax => 10,
        NonReusableReason::SwapFail => 11,
    }
}

/// The reasons strictly increase in the canonical order, each placed before `bound`.
pub open spec fn ranked_below(s: Seq<NonReusableReason>, bound: int) -> bool {
    &&& forall|i: int, j: int| 0 <= i < j < s.len() ==> reason_rank(#[trigger] s[i]) < reason_rank(#[trigger] s[j])
    &&& forall|i: int| 0 <= i < s.len() ==> reason_rank(#[trigger] s[i]) < bound
}

proof fn lemma_ranked_append(a: Seq<NonReusableReason>, b: Seq<NonReusableReason>, bound: int, next: int)
    requires
        ranked_below(a, bound),
        b.len() <= 1,
        forall|i: int| 0 <= i < b.len() ==> bound <= reason_rank(#[trigger] b[i]) < next,
        bound <= next,
    ensures
        ranked_below(a + b, next),
{
    let c = a + b;
    assert forall|i: int, j: int| 0 <= i < j < c.len() implies reason_rank(#[trigger] c[i]) < reason_rank(
        #[trigger] c[j],
    ) by {
        if j >= a.len() {
            assert(c[j] == b[j - a.len()]);
            assert(c[i] == a[i]);
        } else {
            assert(c[i] == a[i] && c[j] == a[j]);
        }
    }
    assert forall|i: int| 0 <= i < c.len() implies reason_rank(#[trigger] c[i]) < next by {
        if i >= a.len() {
            assert(c[i] == b[i - a.len()]);
        } else {
            assert(c[i] == a[i]);
        }
    }
}

/// Law: the reasons of a non-reusable receipt are in the canonical order:
/// `BoundaryIncomplete`, at most one outcome reason, `StandardOutputTruncated`,
/// `StandardErrorTruncated`, `ReceiptMalformed`, then the resource-event reasons from
/// `MemoryHigh` to `SwapFail`; so no reason occurs twice.
#[verifier::spinoff_prover]
#[verifier::rlimit(80)]
pub proof fn lemma_reasons_canonical(facts: ReceiptFacts)
    ensures
        forall|i: int, j: int|
            0 <= i < j < expected_reasons(facts).len() ==> reason_rank(#[trigger] expected_reasons(facts)[i])
                < reason_rank(#[trigger] expected_reasons(facts)[j]),
        forall|i: int, j: int|
            0 <= i < j < expected_reasons(facts).len() ==> #[trigger] expected_reasons(facts)[i]
                != #[trigger] expected_reasons(facts)[j],
{
    let ev = facts.limit_events_fact();
    let s0 = reason_if(facts.boundary_fact() == BoundaryInstallation::Incomplete, NonReusableReason::BoundaryIncomplete);
    lemma_ranked_append(Seq::empty(), s0, 0, 1);
    assert(Seq::<NonReusableReason>::empty() + s0 =~= s0);
    let s1 = s0 + outcome_reasons(facts.outcome_fact());
    lemma_ranked_append(s0, outcome_reasons(facts.outcome_fact()), 1, 2);
    let s2 = s1 + reason_if(facts.stdout_fact() == StreamCapture::Truncated, NonReusableReason::StandardOutputTruncated);
    lemma_ranked_append(s1, reason_if(facts.stdout_fact() == StreamCapture::Truncated, NonReusableReason::StandardOutputTruncated), 2, 3);
    let s3 = s2 + reason_if(facts.stderr_fact() == StreamCapture::Truncated, NonReusableReason::StandardErrorTruncated);
    lemma_ranked_append(s2, reason_if(facts.stderr_fact() == StreamCapture::Truncated, NonReusableReason::StandardErrorTruncated), 3, 4);
    let s4 = s3 + reason_if(facts.structure_fact() == ReceiptStructure::Malformed, NonReusableReason::ReceiptMalformed);
    lemma_ranked_append(s3, reason_if(facts.structure_fact() == ReceiptStructure::Malformed, NonReusableReason::ReceiptMalformed), 4, 5);
    let t0 = s4 + reason_if(ev.has(LimitEvent::MemoryHigh), NonReusableReason::MemoryHigh);
    lemma_ranked_append(s4, reason_if(ev.has(LimitEvent::MemoryHigh), NonReusableReason::MemoryHigh), 5, 6);
    let t1 = t0 + reason_if(ev.has(LimitEvent::MemoryMax), NonReusableReason::MemoryMax);
    lemma_ranked_append(t0, reason_if(ev.has(LimitEvent::MemoryMax), NonReusableReason::MemoryMax), 6, 7);
    let t2 = t1 + reason_if(ev.has(LimitEvent::MemoryOom), NonReusableReason::MemoryOom);
    lemma_ranked_append(t1, reason_if(ev.has(LimitEvent::MemoryOom), NonReusableReason::MemoryOom), 7, 8);
    let t3 = t2 + reason_if(ev.has(LimitEvent::MemoryOomKill), NonReusableReason::MemoryOomKill);
    lemma_ranked_append(t2, reason_if(ev.has(LimitEvent::MemoryOomKill), NonReusableReason::MemoryOomKill), 8, 9);
    let t4 = t3 + reason_if(ev.has(LimitEvent::MemoryOomGroupKill), NonReusableReason::MemoryOomGroupKill);
    lemma_ranked_append(t3, reason_if(ev.has(LimitEvent::MemoryOomGroupKill), NonReusableReason::MemoryOomGroupKill), 9, 10);
    let t5 = t4 + reason_if(ev.has(LimitEvent::SwapMax), NonReusableReason::SwapMax);
    lemma_ranked_append(t4, reason_if(ev.has(LimitEvent::SwapMax), NonReusableReason::SwapMax), 10, 11);
    let t6 = t5 + reason_if(ev.has(LimitEvent::SwapFail), NonReusableReason::SwapFail);
    lemma_ranked_append(t5, reason_if(ev.has(LimitEvent::SwapFail), NonReusableReason::SwapFail), 11, 12);
    assert(t6 == expected_reasons(facts));
    let e = expected_reasons(facts);
    assert forall|i: int, j: int| 0 <= i < j < e.len() implies #[trigger] e[i] != #[trigger] e[j] by {
        assert(reason_rank(e[i]) < reason_rank(e[j]));
    }
}

/// Law: a signal number is its value, so two signal numbers with one value are the
/// same; in particular `from_nonzero(n)` is the signal number `new(n)` gives.
pub proof fn lemma_signal_value_determines(a: SignalNumber, b: SignalNumber)
    ensures
        (a == b) <==> (a.value() == b.value()),
{
}

/// Law: receipt facts are their six facts, a set of limit events by the events it
/// holds. So two facts built with equal arguments are equal, and legacy facts, which
/// hold no limit event, equal version 2 facts built with an empty event set.
pub proof fn lemma_facts_determined(a: ReceiptFacts, b: ReceiptFacts)
    ensures
        (a == b) <==> {
            &&& a.boundary_fact() == b.boundary_fact()
            &&& a.outcome_fact() == b.outcome_fact()
            &&& a.stdout_fact() == b.stdout_fact()
            &&& a.stderr_fact() == b.stderr_fact()
            &&& a.structure_fact() == b.structure_fact()
            &&& forall|e: LimitEvent| a.limit_events_fact().has(e) == b.limit_events_fact().has(e)
        },
{
    if forall|e: LimitEvent| a.limit_events_fact().has(e) == b.limit_events_fact().has(e) {
        LimitEvents::lemma_extensional(a.limit_events_fact(), b.limit_events_fact());
    }
}

} // verus!
