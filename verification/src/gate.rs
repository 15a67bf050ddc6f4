//! The submission gate: the per-submitter daily throttle decision.
//!
//! A submitter may have at most one accepted submission per local calendar
//! day. The throttle compares the date of the last successful submission with the
//! date of the current instant; on a match it throttles, reporting how long
//! until the next local midnight.

use crate::clock::{LocalInstant, MINUTES_PER_DAY};
use crate::registry::Submitter;
use vstd::prelude::*;

verus! {

/// The throttle verdict on one submission attempt.
#[derive(Debug, Clone, Copy, PartialEq, Eq, Structural)]
pub enum Decision {
    /// No accepted submission today yet: the attempt may proceed.
    Allowed,
    /// Already submitted today; try again after the next local midnight.
    Throttled { retry_after_minutes: u16 },
}

/// What the throttle decides for a last-submission instant at `now`: throttled
/// exactly when both fall on the same local calendar date, with the wait
/// running to the next local midnight.
pub open spec fn evaluate_spec(last: LocalInstant, now: LocalInstant) -> Decision {
    if last.same_date_spec(now) {
        Decision::Throttled {
            retry_after_minutes: (MINUTES_PER_DAY - now.minute_of_day()) as u16,
        }
    } else {
        Decision::Allowed
    }
}

/// Evaluates the throttle for `submitter` at `now`.
pub fn evaluate(submitter: &Submitter, now: &LocalInstant) -> (d: Decision)
    requires
        now.wf(),
    ensures
        d == evaluate_spec(submitter.last_submission, *now),
{
    if submitter.last_submission.same_date(now) {
        Decision::Throttled { retry_after_minutes: now.minutes_until_midnight() }
    } else {
        Decision::Allowed
    }
}

/// Once a submission is committed at `committed_at`, the throttle rejects every
/// later attempt on the same local calendar day.
pub proof fn lemma_commit_throttles_rest_of_day(committed_at: LocalInstant, now: LocalInstant)
    requires
        committed_at.same_date_spec(now),
    ensures
        evaluate_spec(committed_at, now) is Throttled,
{
}

} // verus!
