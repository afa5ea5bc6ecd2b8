//! The retry schedule.

use std::time::Duration;

use velstra::webhook::{after_attempt, backoff, Delivery, MAX_ATTEMPTS};

#[test]
fn backoff_grows_and_stays_bounded() {
    assert_eq!(Duration::from_millis(backoff(1)), Duration::from_millis(200));
    assert_eq!(Duration::from_millis(backoff(2)), Duration::from_millis(400));
    assert_eq!(Duration::from_millis(backoff(MAX_ATTEMPTS - 1)), Duration::from_millis(400));
}

#[test]
fn the_longest_delay_fits() {
    assert_eq!(backoff(3), 800);
    assert_eq!(backoff(32), 200 * 0x8000_0000);
}

#[test]
fn a_record_is_tried_three_times() {
    assert_eq!(after_attempt(1, Some(204)), Delivery::Delivered);
    assert_eq!(after_attempt(1, None), Delivery::Retry { after_millis: 200 });
    assert_eq!(after_attempt(2, Some(503)), Delivery::Retry { after_millis: 400 });
    assert_eq!(after_attempt(3, Some(300)), Delivery::GiveUp);
    assert_eq!(after_attempt(3, Some(299)), Delivery::Delivered);
}
