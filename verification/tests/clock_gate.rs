use faxgate::clock::{hours_minutes, format_timestamp, LocalInstant};
use faxgate::gate::{evaluate, Decision};
use faxgate::registry::Submitter;

fn at(year: u16, month: u8, day: u8, hour: u8, minute: u8) -> LocalInstant {
    LocalInstant::new(year, month, day, hour, minute).unwrap()
}

#[test]
fn timestamp_is_rendered_as_date_space_time() {
    let t = at(2024, 1, 2, 10, 0);
    assert_eq!(format_timestamp(&t), "2024-01-02 10:00");
}

#[test]
fn timestamp_fields_are_zero_padded() {
    let t = at(42, 1, 5, 7, 9);
    assert_eq!(format_timestamp(&t), "0042-01-05 07:09");
}

#[test]
fn minutes_until_midnight_at_2210_is_110() {
    let t = at(2024, 1, 2, 22, 10);
    assert_eq!(t.minutes_until_midnight(), 110);
}

#[test]
fn hours_minutes_splits_110_into_1_and_50() {
    assert_eq!(hours_minutes(110), (1, 50));
}

#[test]
fn same_date_ignores_the_time_of_day() {
    let morning = at(2024, 1, 2, 9, 0);
    let evening = at(2024, 1, 2, 22, 10);
    let next_day = at(2024, 1, 3, 9, 0);
    assert!(morning.same_date(&evening));
    assert!(!morning.same_date(&next_day));
}

#[test]
fn instant_outside_calendar_ranges_is_rejected() {
    assert!(LocalInstant::new(2024, 13, 1, 0, 0).is_none());
    assert!(LocalInstant::new(2024, 0, 1, 0, 0).is_none());
    assert!(LocalInstant::new(2024, 1, 32, 0, 0).is_none());
    assert!(LocalInstant::new(2024, 1, 1, 24, 0).is_none());
    assert!(LocalInstant::new(2024, 1, 1, 0, 60).is_none());
    assert!(LocalInstant::new(10000, 1, 1, 0, 0).is_none());
}

#[test]
fn gate_throttles_a_second_submission_the_same_day() {
    let submitter = Submitter {
        display_name: "Ann".to_string(),
        last_submission: at(2024, 1, 2, 10, 0),
    };
    let now = at(2024, 1, 2, 22, 10);
    assert_eq!(
        evaluate(&submitter, &now),
        Decision::Throttled { retry_after_minutes: 110 }
    );
}

#[test]
fn gate_allows_the_first_submission_of_a_day() {
    let submitter = Submitter {
        display_name: "Ann".to_string(),
        last_submission: at(2024, 1, 1, 9, 0),
    };
    let now = at(2024, 1, 2, 10, 0);
    assert_eq!(evaluate(&submitter, &now), Decision::Allowed);
}

#[test]
fn gate_allows_a_freshly_registered_submitter() {
    let submitter = Submitter {
        display_name: "Ann".to_string(),
        last_submission: LocalInstant::sentinel(),
    };
    let now = at(2024, 1, 2, 10, 0);
    assert_eq!(evaluate(&submitter, &now), Decision::Allowed);
}
