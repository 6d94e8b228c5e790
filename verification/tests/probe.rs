use chat_relay::probe::{conclude, Availability, ProbeOutcome, PROBE_BUDGET_SECONDS};
use chat_relay::wake::signal_frame;

const TARGET: [u8; 6] = [0x0F, 0x1E, 0x2D, 0x3C, 0x4B, 0x5A];

#[test]
fn answer_within_budget_is_available_without_wake() {
    let verdict = conclude(ProbeOutcome::Answered, &TARGET);
    assert_eq!(verdict.availability, Availability::Available);
    assert!(verdict.wake.is_none());
}

#[test]
fn refusal_is_unavailable_without_wake() {
    let verdict = conclude(ProbeOutcome::Refused, &TARGET);
    assert_eq!(verdict.availability, Availability::Unavailable);
    assert!(verdict.wake.is_none());
}

#[test]
fn timeout_is_unavailable_with_one_wake() {
    let verdict = conclude(ProbeOutcome::TimedOut, &TARGET);
    assert_eq!(verdict.availability, Availability::Unavailable);
    let packet = verdict.wake.expect("a timeout wakes the host");
    let frame = signal_frame(&packet);
    assert_eq!(frame.len(), 102);
    assert_eq!(&frame[..6], &[0xFF; 6]);
    assert_eq!(&frame[6..12], &TARGET);
    assert_eq!(&frame[96..102], &TARGET);
}

#[test]
fn probe_budget_is_five_seconds() {
    assert_eq!(PROBE_BUDGET_SECONDS, 5);
}
