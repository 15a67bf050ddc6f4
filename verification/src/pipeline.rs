//! The front-end submission pipeline for one request:
//! received, gated, relayed, then committed or rejected.
//!
//! The pipeline is split around the relay network call. `begin_submission`
//! covers everything up to it: unknown submitter, throttle, and body-length
//! checks, producing the relay payload only when all pass. The caller then
//! performs the relay call and hands its verdict to `commit_after_relay`,
//! which re-evaluates the throttle under the registry's critical section and
//! commits only if the day is still free — so two submissions for the same
//! submitter can never both commit on one calendar day, however their relay
//! calls interleave. Neither function performs any I/O itself.

use crate::clock::{LocalInstant, MINUTES_PER_DAY};
use crate::gate::{evaluate, evaluate_spec, Decision};
use crate::message::{body_within_limit, FaxMessage, MAX_BODY_CHARS};
use crate::registry::{Registry, SubmitterModel};
use vstd::prelude::*;

verus! {

/// Where one submission stands after the throttle check, before any relay call.
pub enum SubmissionStep {
    /// The id is not in the registry: reject, touch nothing.
    UnknownSubmitter,
    /// Already submitted today: reject, report the wait until next midnight.
    Throttled { hours: u16, mins: u16 },
    /// The body exceeds the length limit: reject, touch nothing.
    BodyTooLong,
    /// All checks passed: relay this payload to the printer side.
    Relay { payload: FaxMessage },
}

/// The mathematical image of a submission step.
pub enum StepModel {
    UnknownSubmitter,
    Throttled { hours: int, mins: int },
    BodyTooLong,
    Relay { time: LocalInstant, message: Seq<char>, from: Seq<char>, ip: Seq<char> },
}

/// A step's mathematical image.
pub open spec fn step_model(s: SubmissionStep) -> StepModel {
    match s {
        SubmissionStep::UnknownSubmitter => StepModel::UnknownSubmitter,
        SubmissionStep::Throttled { hours, mins } => StepModel::Throttled {
            hours: hours as int,
            mins: mins as int,
        },
        SubmissionStep::BodyTooLong => StepModel::BodyTooLong,
        SubmissionStep::Relay { payload } => StepModel::Relay {
            time: payload.time,
            message: payload.message@,
            from: payload.from@,
            ip: payload.ip@,
        },
    }
}

/// What `begin_submission` decides, over the registry's map image: unknown
/// ids are rejected first, then the throttle, then the length limit; only a
/// submission that passes all three yields a relay payload.
pub open spec fn begin_spec(
    reg: Map<Seq<char>, SubmitterModel>,
    id: Seq<char>,
    body: Seq<char>,
    source: Seq<char>,
    now: LocalInstant,
) -> StepModel {
    if !reg.contains_key(id) {
        StepModel::UnknownSubmitter
    } else if reg[id].last_submission.same_date_spec(now) {
        let remaining = MINUTES_PER_DAY - now.minute_of_day();
        StepModel::Throttled { hours: remaining / 60, mins: remaining % 60 }
    } else if body.len() > MAX_BODY_CHARS {
        StepModel::BodyTooLong
    } else {
        StepModel::Relay { time: now, message: body, from: reg[id].display_name, ip: source }
    }
}

/// Gates one submission: looks the id up, evaluates the daily throttle, and
/// checks the body length. Reads the registry only; nothing is mutated, so no
/// rejection path changes any state.
pub fn begin_submission(
    reg: &Registry,
    id: &String,
    body: String,
    source: String,
    now: LocalInstant,
) -> (step: SubmissionStep)
    requires
        reg.wf(),
        now.wf(),
    ensures
        step_model(step) == begin_spec(reg@, id@, body@, source@, now),
        step matches SubmissionStep::Relay { payload } ==> payload.wf(),
{
    match reg.lookup(id) {
        None => SubmissionStep::UnknownSubmitter,
        Some(submitter) => {
            match evaluate(submitter, &now) {
                Decision::Throttled { retry_after_minutes } => {
                    let hm = crate::clock::hours_minutes(retry_after_minutes);
                    SubmissionStep::Throttled { hours: hm.0, mins: hm.1 }
                },
                Decision::Allowed => {
                    if !body_within_limit(body.as_str()) {
                        SubmissionStep::BodyTooLong
                    } else {
                        let payload = FaxMessage {
                            time: now,
                            message: body,
                            from: submitter.display_name.clone(),
                            ip: source,
                        };
                        SubmissionStep::Relay { payload }
                    }
                },
            }
        },
    }
}

/// What the submission form request (the page fetch, before any post) shows.
pub enum FormView {
    /// The id is not in the registry.
    NotFound,
    /// Already submitted today: show the wait until next midnight instead of
    /// the form.
    AlreadySubmitted { hours: u16, mins: u16 },
    /// Show the form, greeting the submitter by display name.
    Form { display_name: String },
}

/// The mathematical image of a form view.
pub enum FormViewModel {
    NotFound,
    AlreadySubmitted { hours: int, mins: int },
    Form { display_name: Seq<char> },
}

/// A form view's mathematical image.
pub open spec fn form_view_model(v: FormView) -> FormViewModel {
    match v {
        FormView::NotFound => FormViewModel::NotFound,
        FormView::AlreadySubmitted { hours, mins } => FormViewModel::AlreadySubmitted {
            hours: hours as int,
            mins: mins as int,
        },
        FormView::Form { display_name } => FormViewModel::Form { display_name: display_name@ },
    }
}

/// What fetching the form shows: the throttle view once today's slot is
/// used, otherwise the form itself, and nothing for an unknown id.
pub open spec fn form_view_spec(
    reg: Map<Seq<char>, SubmitterModel>,
    id: Seq<char>,
    now: LocalInstant,
) -> FormViewModel {
    if !reg.contains_key(id) {
        FormViewModel::NotFound
    } else if reg[id].last_submission.same_date_spec(now) {
        let remaining = MINUTES_PER_DAY - now.minute_of_day();
        FormViewModel::AlreadySubmitted { hours: remaining / 60, mins: remaining % 60 }
    } else {
        FormViewModel::Form { display_name: reg[id].display_name }
    }
}

/// Decides what the form page shows for `id` at `now`. Reads the registry
/// only.
pub fn form_view(reg: &Registry, id: &String, now: LocalInstant) -> (v: FormView)
    requires
        reg.wf(),
        now.wf(),
    ensures
        form_view_model(v) == form_view_spec(reg@, id@, now),
{
    match reg.lookup(id) {
        None => FormView::NotFound,
        Some(submitter) => {
            match evaluate(submitter, &now) {
                Decision::Throttled { retry_after_minutes } => {
                    let hm = crate::clock::hours_minutes(retry_after_minutes);
                    FormView::AlreadySubmitted { hours: hm.0, mins: hm.1 }
                },
                Decision::Allowed => FormView::Form {
                    display_name: submitter.display_name.clone(),
                },
            }
        },
    }
}

/// The terminal state of one submission.
#[derive(Debug, Clone, Copy, PartialEq, Eq, Structural)]
pub enum SubmissionOutcome {
    /// Relay accepted and the registry committed: the daily slot is used.
    Committed,
    /// The relay call failed: nothing committed, the submitter may retry
    /// later the same day.
    RelayFailed,
    /// The re-check found the day already taken: a concurrent submission
    /// committed between the throttle check and this commit. Nothing changes.
    ThrottledLate,
    /// The id vanished from the registry; records are never deleted while
    /// the process runs, so this is only reachable in principle. Nothing
    /// changes.
    UnknownSubmitter,
}

/// What `commit_after_relay` does to the registry's map image, and what it
/// returns: a commit happens exactly when the relay succeeded and the
/// submitter's day is still free under the re-check.
pub open spec fn finish_spec(
    reg: Map<Seq<char>, SubmitterModel>,
    id: Seq<char>,
    now: LocalInstant,
    relay_accepted: bool,
) -> (Map<Seq<char>, SubmitterModel>, SubmissionOutcome) {
    if !relay_accepted {
        (reg, SubmissionOutcome::RelayFailed)
    } else if !reg.contains_key(id) {
        (reg, SubmissionOutcome::UnknownSubmitter)
    } else if reg[id].last_submission.same_date_spec(now) {
        (reg, SubmissionOutcome::ThrottledLate)
    } else {
        (
            reg.insert(
                id,
                SubmitterModel { display_name: reg[id].display_name, last_submission: now },
            ),
            SubmissionOutcome::Committed,
        )
    }
}

/// Finishes one submission after the relay verdict is in. Must run inside the
/// registry's critical section: it re-evaluates the throttle there and
/// commits `now` as the submitter's last submission only if the relay
/// succeeded and no concurrent submission took the day in the meantime. On
/// every other path the registry is untouched.
pub fn commit_after_relay(
    reg: &mut Registry,
    id: &String,
    now: LocalInstant,
    relay_accepted: bool,
) -> (outcome: SubmissionOutcome)
    requires
        old(reg).wf(),
        now.wf(),
    ensures
        final(reg).wf(),
        (final(reg)@, outcome) == finish_spec(old(reg)@, id@, now, relay_accepted),
{
    if !relay_accepted {
        return SubmissionOutcome::RelayFailed;
    }
    match reg.lookup(id) {
        None => SubmissionOutcome::UnknownSubmitter,
        Some(submitter) => {
            match evaluate(submitter, &now) {
                Decision::Throttled { .. } => SubmissionOutcome::ThrottledLate,
                Decision::Allowed => {
                    reg.commit(id, now);
                    proof {
                        assert(reg@ =~= finish_spec(old(reg)@, id@, now, true).0);
                    }
                    SubmissionOutcome::Committed
                },
            }
        },
    }
}

/// Classifies the printer side's HTTP reply to the relay call: only a 2xx
/// status counts as accepted.
pub fn relay_accepted(status: u16) -> (b: bool)
    ensures
        b == (200 <= status < 300),
{
    200 <= status && status < 300
}

/// Once a commit for `id` lands at `now1`, any later attempt to finish a
/// submission for `id` on the same calendar day leaves the registry unchanged
/// and does not commit, whatever its relay verdict was.
pub proof fn lemma_commit_blocks_the_day(
    reg: Map<Seq<char>, SubmitterModel>,
    id: Seq<char>,
    now1: LocalInstant,
    now2: LocalInstant,
    accepted2: bool,
)
    requires
        now1.same_date_spec(now2),
    ensures
        ({
            let (reg1, outcome1) = finish_spec(reg, id, now1, true);
            let (reg2, outcome2) = finish_spec(reg1, id, now2, accepted2);
            outcome1 == SubmissionOutcome::Committed ==> (outcome2
                != SubmissionOutcome::Committed && reg2 == reg1)
        }),
{
}

/// A whole run of finish attempts for one submitter, in the serial order the
/// registry's critical section gives them: the registry after the run, and
/// how many of the attempts committed.
pub open spec fn finish_run(
    reg: Map<Seq<char>, SubmitterModel>,
    id: Seq<char>,
    attempts: Seq<(LocalInstant, bool)>,
) -> (Map<Seq<char>, SubmitterModel>, int)
    decreases attempts.len(),
{
    if attempts.len() == 0 {
        (reg, 0)
    } else {
        let (reg1, outcome) = finish_spec(reg, id, attempts[0].0, attempts[0].1);
        let (reg2, rest) = finish_run(reg1, id, attempts.drop_first());
        (
            reg2,
            rest + if outcome == SubmissionOutcome::Committed {
                1int
            } else {
                0int
            },
        )
    }
}

/// While the submitter's day is already taken, a run of same-day attempts
/// commits nothing and changes nothing.
proof fn lemma_taken_day_blocks_a_run(
    reg: Map<Seq<char>, SubmitterModel>,
    id: Seq<char>,
    attempts: Seq<(LocalInstant, bool)>,
    day: LocalInstant,
)
    requires
        reg.contains_key(id),
        reg[id].last_submission.same_date_spec(day),
        forall|i: int| 0 <= i < attempts.len() ==> (#[trigger] attempts[i].0).same_date_spec(day),
    ensures
        finish_run(reg, id, attempts) == (reg, 0int),
    decreases attempts.len(),
{
    if attempts.len() > 0 {
        let (reg1, outcome) = finish_spec(reg, id, attempts[0].0, attempts[0].1);
        assert(reg1 == reg && outcome != SubmissionOutcome::Committed);
        assert forall|i: int| 0 <= i < attempts.drop_first().len() implies (#[trigger] attempts.drop_first()[i].0).same_date_spec(day) by {
            assert(attempts[i + 1].0.same_date_spec(day));
        }
        lemma_taken_day_blocks_a_run(reg, id, attempts.drop_first(), day);
    }
}

/// At most one commit occurs per submitter per local calendar day, across any
/// interleaving of concurrent submissions: the evaluate and commit steps run
/// under the registry's critical section, so the finish steps of all the
/// day's submissions form some serial run, and in every such run at most one
/// attempt commits.
pub proof fn lemma_at_most_one_commit_per_day(
    reg: Map<Seq<char>, SubmitterModel>,
    id: Seq<char>,
    attempts: Seq<(LocalInstant, bool)>,
    day: LocalInstant,
)
    requires
        forall|i: int| 0 <= i < attempts.len() ==> (#[trigger] attempts[i].0).same_date_spec(day),
    ensures
        finish_run(reg, id, attempts).1 <= 1,
    decreases attempts.len(),
{
    if attempts.len() > 0 {
        let (reg1, outcome) = finish_spec(reg, id, attempts[0].0, attempts[0].1);
        assert forall|i: int| 0 <= i < attempts.drop_first().len() implies (#[trigger] attempts.drop_first()[i].0).same_date_spec(day) by {
            assert(attempts[i + 1].0.same_date_spec(day));
        }
        if outcome == SubmissionOutcome::Committed {
            lemma_taken_day_blocks_a_run(reg1, id, attempts.drop_first(), day);
        } else {
            assert(reg1 == reg);
            lemma_at_most_one_commit_per_day(reg, id, attempts.drop_first(), day);
        }
    }
}

/// Two submissions for the same submitter on the same calendar day never both
/// commit, however the two relay calls interleave: the evaluate step
/// and the commit re-check run under the registry's critical section, so the
/// two commit steps happen in some serial order, and whichever runs second
/// finds the day taken.
pub proof fn lemma_concurrent_same_day_not_both_committed(
    reg: Map<Seq<char>, SubmitterModel>,
    id: Seq<char>,
    now1: LocalInstant,
    now2: LocalInstant,
    accepted1: bool,
    accepted2: bool,
)
    requires
        now1.same_date_spec(now2),
    ensures
        ({
            let (reg1, outcome1) = finish_spec(reg, id, now1, accepted1);
            let (_, outcome2) = finish_spec(reg1, id, now2, accepted2);
            !(outcome1 == SubmissionOutcome::Committed && outcome2
                == SubmissionOutcome::Committed)
        }),
{
}

/// An overlong body is always rejected before the relay: whatever the
/// registry holds, a body over the limit never yields a relay payload (and
/// `begin_submission` reads the registry without writing it).
pub proof fn lemma_overlong_body_never_relayed(
    reg: Map<Seq<char>, SubmitterModel>,
    id: Seq<char>,
    body: Seq<char>,
    source: Seq<char>,
    now: LocalInstant,
)
    requires
        body.len() > MAX_BODY_CHARS,
    ensures
        !(begin_spec(reg, id, body, source, now) is Relay),
{
}

/// A throttled submitter gets no relay call: when the throttle evaluates to
/// `Throttled`, the submission step is the throttle view, never a relay
/// payload.
pub proof fn lemma_throttled_never_relayed(
    reg: Map<Seq<char>, SubmitterModel>,
    id: Seq<char>,
    body: Seq<char>,
    source: Seq<char>,
    now: LocalInstant,
)
    requires
        reg.contains_key(id),
        evaluate_spec(reg[id].last_submission, now) is Throttled,
    ensures
        begin_spec(reg, id, body, source, now) is Throttled,
        !(begin_spec(reg, id, body, source, now) is Relay),
{
}

/// An unknown id is rejected without a relay call and without any state
/// change: the step is `UnknownSubmitter`, never a relay payload (and the
/// registry is only read).
pub proof fn lemma_unknown_id_never_relayed(
    reg: Map<Seq<char>, SubmitterModel>,
    id: Seq<char>,
    body: Seq<char>,
    source: Seq<char>,
    now: LocalInstant,
)
    requires
        !reg.contains_key(id),
    ensures
        begin_spec(reg, id, body, source, now) is UnknownSubmitter,
{
}

} // verus!
