//! The outcome of one execution and its classification against the
//! expected status code.

use crate::text::{decimal, decimal_text};
use vstd::prelude::*;

verus! {

/// The result of one attempt to send the request.
#[derive(Clone, Debug, PartialEq, Eq)]
pub enum ExecutionOutcome {
    /// A response arrived: its status code and its body text.
    Responded(u16, String),
    /// No response arrived: the transport's description of the failure.
    Failed(String),
}

/// What an execution outcome holds.
pub enum OutcomeView {
    Responded(u16, Seq<char>),
    Failed(Seq<char>),
}

impl View for ExecutionOutcome {
    type V = OutcomeView;

    open spec fn view(&self) -> OutcomeView {
        match self {
            ExecutionOutcome::Responded(status, body) => OutcomeView::Responded(*status, body@),
            ExecutionOutcome::Failed(description) => OutcomeView::Failed(description@),
        }
    }
}

/// The classification of one execution.
#[derive(Clone, Debug, PartialEq, Eq)]
pub enum Verdict {
    /// The response carried the expected status code.
    Success,
    /// Anything else, with the reason.
    Failure(String),
}

/// What a verdict holds.
pub enum VerdictView {
    Success,
    Failure(Seq<char>),
}

impl View for Verdict {
    type V = VerdictView;

    open spec fn view(&self) -> VerdictView {
        match self {
            Verdict::Success => VerdictView::Success,
            Verdict::Failure(reason) => VerdictView::Failure(reason@),
        }
    }
}

/// The reason given for an execution that met a transport failure.
pub open spec fn transport_reason(description: Seq<char>) -> Seq<char> {
    "transport error: "@ + description
}

/// The reason given for a response whose status is not the expected one.
pub open spec fn status_reason(got: u16, expected: u16) -> Seq<char> {
    "unexpected status: got "@ + decimal(got as nat) + ", expected "@ + decimal(expected as nat)
}

/// The verdict on `outcome` where `expected` is the status code hoped for:
/// a success exactly for a response with that status code.
pub open spec fn verdict_of(outcome: OutcomeView, expected: u16) -> VerdictView {
    match outcome {
        OutcomeView::Responded(status, _) => if status == expected {
            VerdictView::Success
        } else {
            VerdictView::Failure(status_reason(status, expected))
        },
        OutcomeView::Failed(description) => VerdictView::Failure(transport_reason(description)),
    }
}

/// Whether `outcome` is a response with the status code `expected`.
pub open spec fn meets_expectation(outcome: OutcomeView, expected: u16) -> bool {
    outcome matches OutcomeView::Responded(status, _) && status == expected
}

/// A response with the expected status is a success; a response with any
/// other status is a failure, and so is every transport failure.
pub proof fn lemma_success_only_for_expected_status(outcome: OutcomeView, expected: u16)
    ensures
        verdict_of(outcome, expected) is Success <==> meets_expectation(outcome, expected),
        verdict_of(outcome, expected) is Failure <==> !meets_expectation(outcome, expected),
        outcome is Failed ==> verdict_of(outcome, expected) is Failure,
{
}

/// Classifies one execution outcome against the expected status code.
pub fn classify(outcome: &ExecutionOutcome, expected: u16) -> (verdict: Verdict)
    ensures
        verdict@ == verdict_of(outcome@, expected),
        verdict is Success <==> meets_expectation(outcome@, expected),
{
    match outcome {
        ExecutionOutcome::Responded(status, _) => {
            if *status == expected {
                Verdict::Success
            } else {
                let mut reason = String::from_str("unexpected status: got ");
                reason.append(decimal_text(*status as u128).as_str());
                reason.append(", expected ");
                reason.append(decimal_text(expected as u128).as_str());
                Verdict::Failure(reason)
            }
        },
        ExecutionOutcome::Failed(description) => {
            let mut reason = String::from_str("transport error: ");
            reason.append(description.as_str());
            Verdict::Failure(reason)
        },
    }
}

} // verus!
