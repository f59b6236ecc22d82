use proofbound_runtime::receipt::{
    derive_receipt_eligibility, BoundaryInstallation, ExecutionOutcome, LimitEvent, LimitEvents,
    NonReusableReason, ReceiptEligibility, ReceiptFacts, ReceiptStructure, SignalNumber,
    StreamCapture,
};

#[test]
fn every_resource_limit_event_forces_nonreuse_in_canonical_order() {
    let events = LimitEvents::new(&[LimitEvent::SwapFail, LimitEvent::MemoryOomKill, LimitEvent::MemoryHigh]);
    let facts = ReceiptFacts::new_v2(
        BoundaryInstallation::Installed,
        ExecutionOutcome::Exited { code: 0 },
        StreamCapture::Complete,
        StreamCapture::Complete,
        ReceiptStructure::Valid,
        events,
    );
    let ReceiptEligibility::NonReusable(reasons) = derive_receipt_eligibility(&facts) else {
        panic!("a resource limit event must make the receipt non-reusable");
    };
    assert_eq!(
        reasons.as_slice(),
        &[
            NonReusableReason::MemoryHigh,
            NonReusableReason::MemoryOomKill,
            NonReusableReason::SwapFail,
        ]
    );
}

const BOUNDARIES: [BoundaryInstallation; 2] = [BoundaryInstallation::Installed, BoundaryInstallation::Incomplete];

fn outcomes() -> [(ExecutionOutcome, Option<NonReusableReason>); 8] {
    [
        (ExecutionOutcome::Exited { code: 0 }, None),
        (ExecutionOutcome::Exited { code: 1 }, Some(NonReusableReason::ExitCodeNonzero)),
        (ExecutionOutcome::Exited { code: -1 }, Some(NonReusableReason::ExitCodeNonzero)),
        (
            ExecutionOutcome::Signaled { signal: SignalNumber::min_signal() },
            Some(NonReusableReason::ProcessSignaled),
        ),
        (ExecutionOutcome::TimedOut, Some(NonReusableReason::TimedOut)),
        (ExecutionOutcome::Denied, Some(NonReusableReason::Denied)),
        (ExecutionOutcome::LauncherFailed, Some(NonReusableReason::LauncherFailed)),
        (ExecutionOutcome::Incomplete, Some(NonReusableReason::ExecutionIncomplete)),
    ]
}

const CAPTURES: [StreamCapture; 2] = [StreamCapture::Complete, StreamCapture::Truncated];
const STRUCTURES: [ReceiptStructure; 2] = [ReceiptStructure::Valid, ReceiptStructure::Malformed];

#[test]
fn only_complete_zero_exit_is_reusable_across_finite_state_catalog() {
    for boundary in BOUNDARIES {
        for (outcome, outcome_reason) in outcomes() {
            for stdout in CAPTURES {
                for stderr in CAPTURES {
                    for structure in STRUCTURES {
                        let facts = ReceiptFacts::new(boundary, outcome, stdout, stderr, structure);
                        let mut expected_reasons = Vec::new();
                        if boundary == BoundaryInstallation::Incomplete {
                            expected_reasons.push(NonReusableReason::BoundaryIncomplete);
                        }
                        if let Some(reason) = outcome_reason {
                            expected_reasons.push(reason);
                        }
                        if stdout == StreamCapture::Truncated {
                            expected_reasons.push(NonReusableReason::StandardOutputTruncated);
                        }
                        if stderr == StreamCapture::Truncated {
                            expected_reasons.push(NonReusableReason::StandardErrorTruncated);
                        }
                        if structure == ReceiptStructure::Malformed {
                            expected_reasons.push(NonReusableReason::ReceiptMalformed);
                        }

                        match derive_receipt_eligibility(&facts) {
                            ReceiptEligibility::Reusable => assert!(
                                expected_reasons.is_empty(),
                                "unexpected reusable decision for {facts:?}"
                            ),
                            ReceiptEligibility::NonReusable(reasons) => assert_eq!(
                                reasons.as_slice(),
                                expected_reasons,
                                "unexpected reasons for {facts:?}"
                            ),
                        }
                    }
                }
            }
        }
    }
}

#[test]
fn retains_all_applicable_reasons_in_canonical_order() {
    let facts = ReceiptFacts::new(
        BoundaryInstallation::Incomplete,
        ExecutionOutcome::LauncherFailed,
        StreamCapture::Truncated,
        StreamCapture::Truncated,
        ReceiptStructure::Malformed,
    );
    let ReceiptEligibility::NonReusable(reasons) = derive_receipt_eligibility(&facts) else {
        panic!("invalid execution facts must not be reusable");
    };
    assert_eq!(
        reasons.as_slice(),
        &[
            NonReusableReason::BoundaryIncomplete,
            NonReusableReason::LauncherFailed,
            NonReusableReason::StandardOutputTruncated,
            NonReusableReason::StandardErrorTruncated,
            NonReusableReason::ReceiptMalformed,
        ]
    );
}

#[test]
fn limit_event_sets_ignore_order_and_repetition() {
    let events = LimitEvents::new(&[LimitEvent::SwapMax, LimitEvent::SwapMax, LimitEvent::MemoryMax]);
    assert!(events.contains(LimitEvent::SwapMax));
    assert!(events.contains(LimitEvent::MemoryMax));
    assert!(!events.contains(LimitEvent::MemoryOom));
    assert!(!events.is_empty());
    assert!(LimitEvents::empty().is_empty());
    let facts = ReceiptFacts::new_v2(
        BoundaryInstallation::Installed,
        ExecutionOutcome::Exited { code: 0 },
        StreamCapture::Complete,
        StreamCapture::Complete,
        ReceiptStructure::Valid,
        LimitEvents::empty(),
    );
    assert_eq!(derive_receipt_eligibility(&facts), ReceiptEligibility::Reusable);
    assert_eq!(SignalNumber::new(0), None);
    assert_eq!(SignalNumber::new(9).map(SignalNumber::get), Some(9));
    assert_eq!(SignalNumber::min_signal().get(), 1);
}
