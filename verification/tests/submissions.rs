use faxgate::clock::LocalInstant;
use faxgate::message::MAX_BODY_CHARS;
use faxgate::pipeline::{
    begin_submission, commit_after_relay, form_view, relay_accepted, FormView, SubmissionOutcome,
    SubmissionStep,
};
use faxgate::registry::{Registry, Submitter};

fn at(year: u16, month: u8, day: u8, hour: u8, minute: u8) -> LocalInstant {
    LocalInstant::new(year, month, day, hour, minute).unwrap()
}

fn registry_with_ann() -> Registry {
    let mut reg = Registry::new();
    reg.register(
        "abc".to_string(),
        Submitter {
            display_name: "Ann".to_string(),
            last_submission: at(2024, 1, 1, 9, 0),
        },
    );
    reg
}

#[test]
fn accepted_submission_relays_and_commits() {
    let mut reg = registry_with_ann();
    let now = at(2024, 1, 2, 10, 0);
    let id = "abc".to_string();

    let step = begin_submission(&reg, &id, "hello".to_string(), "1.2.3.4".to_string(), now);
    match step {
        SubmissionStep::Relay { payload } => {
            assert_eq!(payload.message, "hello");
            assert_eq!(payload.from, "Ann");
            assert_eq!(payload.ip, "1.2.3.4");
            assert_eq!(payload.time, now);
        }
        _ => panic!("expected a relay payload"),
    }

    let outcome = commit_after_relay(&mut reg, &id, now, true);
    assert_eq!(outcome, SubmissionOutcome::Committed);
    let ann = reg.lookup(&id).unwrap();
    assert_eq!(ann.last_submission, now);
    assert_eq!(ann.display_name, "Ann");
}

#[test]
fn second_submission_the_same_day_is_throttled() {
    let mut reg = registry_with_ann();
    let id = "abc".to_string();
    let morning = at(2024, 1, 2, 10, 0);
    let outcome = commit_after_relay(&mut reg, &id, morning, true);
    assert_eq!(outcome, SubmissionOutcome::Committed);

    let evening = at(2024, 1, 2, 22, 10);
    let step = begin_submission(&reg, &id, "hello again".to_string(), "1.2.3.4".to_string(), evening);
    match step {
        SubmissionStep::Throttled { hours, mins } => {
            assert_eq!(hours, 1);
            assert_eq!(mins, 50);
        }
        _ => panic!("expected a throttled view"),
    }
    assert_eq!(reg.lookup(&id).unwrap().last_submission, morning);
}

#[test]
fn unknown_id_is_rejected_without_state_change() {
    let mut reg = registry_with_ann();
    let now = at(2024, 1, 2, 10, 0);
    let id = "zzz".to_string();

    let step = begin_submission(&reg, &id, "hello".to_string(), "1.2.3.4".to_string(), now);
    assert!(matches!(step, SubmissionStep::UnknownSubmitter));

    let outcome = commit_after_relay(&mut reg, &id, now, true);
    assert_eq!(outcome, SubmissionOutcome::UnknownSubmitter);
    assert_eq!(reg.len(), 1);
    assert!(reg.lookup(&id).is_none());
    let ann = reg.lookup(&"abc".to_string()).unwrap();
    assert_eq!(ann.last_submission, at(2024, 1, 1, 9, 0));
}

#[test]
fn body_of_exactly_the_limit_is_accepted() {
    let reg = registry_with_ann();
    let now = at(2024, 1, 2, 10, 0);
    let body = "a".repeat(MAX_BODY_CHARS);
    let step = begin_submission(&reg, &"abc".to_string(), body.clone(), "1.2.3.4".to_string(), now);
    match step {
        SubmissionStep::Relay { payload } => assert_eq!(payload.message, body),
        _ => panic!("expected a relay payload"),
    }
}

#[test]
fn body_one_over_the_limit_is_rejected_without_relay() {
    let reg = registry_with_ann();
    let now = at(2024, 1, 2, 10, 0);
    let body = "a".repeat(MAX_BODY_CHARS + 1);
    let step = begin_submission(&reg, &"abc".to_string(), body, "1.2.3.4".to_string(), now);
    assert!(matches!(step, SubmissionStep::BodyTooLong));
    assert_eq!(
        reg.lookup(&"abc".to_string()).unwrap().last_submission,
        at(2024, 1, 1, 9, 0)
    );
}

#[test]
fn body_length_counts_characters_not_bytes() {
    let reg = registry_with_ann();
    let now = at(2024, 1, 2, 10, 0);
    let body = "\u{e9}".repeat(MAX_BODY_CHARS);
    assert!(body.len() > MAX_BODY_CHARS);
    let step = begin_submission(&reg, &"abc".to_string(), body, "1.2.3.4".to_string(), now);
    assert!(matches!(step, SubmissionStep::Relay { .. }));
}

#[test]
fn failed_relay_preserves_the_retry_window() {
    let mut reg = registry_with_ann();
    let now = at(2024, 1, 2, 10, 0);
    let id = "abc".to_string();

    let step = begin_submission(&reg, &id, "hello".to_string(), "1.2.3.4".to_string(), now);
    assert!(matches!(step, SubmissionStep::Relay { .. }));
    let outcome = commit_after_relay(&mut reg, &id, now, false);
    assert_eq!(outcome, SubmissionOutcome::RelayFailed);
    assert_eq!(reg.lookup(&id).unwrap().last_submission, at(2024, 1, 1, 9, 0));

    let later = at(2024, 1, 2, 11, 30);
    let retry = begin_submission(&reg, &id, "hello".to_string(), "1.2.3.4".to_string(), later);
    assert!(matches!(retry, SubmissionStep::Relay { .. }));
}

#[test]
fn concurrent_same_day_submissions_commit_only_once() {
    let mut reg = registry_with_ann();
    let id = "abc".to_string();
    let now1 = at(2024, 1, 2, 10, 0);
    let now2 = at(2024, 1, 2, 10, 5);

    let step1 = begin_submission(&reg, &id, "first".to_string(), "1.2.3.4".to_string(), now1);
    let step2 = begin_submission(&reg, &id, "second".to_string(), "5.6.7.8".to_string(), now2);
    assert!(matches!(step1, SubmissionStep::Relay { .. }));
    assert!(matches!(step2, SubmissionStep::Relay { .. }));

    let outcome1 = commit_after_relay(&mut reg, &id, now1, true);
    let outcome2 = commit_after_relay(&mut reg, &id, now2, true);
    assert_eq!(outcome1, SubmissionOutcome::Committed);
    assert_eq!(outcome2, SubmissionOutcome::ThrottledLate);
    assert_eq!(reg.lookup(&id).unwrap().last_submission, now1);
}

#[test]
fn relay_reply_is_accepted_only_on_2xx() {
    assert!(relay_accepted(200));
    assert!(relay_accepted(204));
    assert!(relay_accepted(299));
    assert!(!relay_accepted(199));
    assert!(!relay_accepted(300));
    assert!(!relay_accepted(404));
    assert!(!relay_accepted(500));
}

#[test]
fn form_page_greets_a_submitter_with_a_free_day() {
    let reg = registry_with_ann();
    let now = at(2024, 1, 2, 10, 0);
    match form_view(&reg, &"abc".to_string(), now) {
        FormView::Form { display_name } => assert_eq!(display_name, "Ann"),
        _ => panic!("expected the form"),
    }
}

#[test]
fn form_page_shows_the_wait_once_the_day_is_taken() {
    let mut reg = registry_with_ann();
    let id = "abc".to_string();
    commit_after_relay(&mut reg, &id, at(2024, 1, 2, 10, 0), true);
    match form_view(&reg, &id, at(2024, 1, 2, 22, 10)) {
        FormView::AlreadySubmitted { hours, mins } => {
            assert_eq!(hours, 1);
            assert_eq!(mins, 50);
        }
        _ => panic!("expected the throttle view"),
    }
}

#[test]
fn form_page_is_not_found_for_an_unknown_id() {
    let reg = registry_with_ann();
    let now = at(2024, 1, 2, 10, 0);
    assert!(matches!(
        form_view(&reg, &"zzz".to_string(), now),
        FormView::NotFound
    ));
}

#[test]
fn register_replaces_an_existing_record() {
    let mut reg = registry_with_ann();
    reg.register(
        "abc".to_string(),
        Submitter {
            display_name: "Anna".to_string(),
            last_submission: LocalInstant::sentinel(),
        },
    );
    assert_eq!(reg.len(), 1);
    let ann = reg.lookup(&"abc".to_string()).unwrap();
    assert_eq!(ann.display_name, "Anna");
    assert_eq!(ann.last_submission, LocalInstant::sentinel());
}

#[test]
fn commit_on_an_absent_id_is_a_no_op() {
    let mut reg = registry_with_ann();
    reg.commit(&"zzz".to_string(), at(2024, 1, 2, 10, 0));
    assert_eq!(reg.len(), 1);
    assert!(reg.lookup(&"zzz".to_string()).is_none());
}
