use ledger_migration::wait::{WaitPolicy, WaitStep};

#[test]
fn standard_policy_polls_every_half_second_for_five_minutes() {
    let policy = WaitPolicy::standard();
    assert_eq!(policy.throttle_ms, 500);
    assert_eq!(policy.timeout_ms, 5 * 60 * 1000);
    assert_eq!(policy, WaitPolicy::new(500, 300_000));
}

#[test]
fn pending_call_is_polled_again_until_the_deadline() {
    let policy = WaitPolicy::new(500, 2_000);
    assert_eq!(policy.decide(false, 0), WaitStep::Pause(500));
    assert_eq!(policy.decide(false, 1_999), WaitStep::Pause(500));
    assert_eq!(policy.decide(false, 2_000), WaitStep::Pause(500));
}

#[test]
fn pending_call_is_given_up_after_the_deadline() {
    let policy = WaitPolicy::new(500, 2_000);
    assert_eq!(policy.decide(false, 2_001), WaitStep::GiveUp);
    assert_eq!(policy.decide(false, u64::MAX), WaitStep::GiveUp);
}

#[test]
fn resolved_call_is_delivered_however_late() {
    let policy = WaitPolicy::new(500, 2_000);
    assert_eq!(policy.decide(true, 0), WaitStep::Deliver);
    assert_eq!(policy.decide(true, 2_001), WaitStep::Deliver);
}

#[test]
fn wait_ends_after_a_bounded_number_of_pauses() {
    let policy = WaitPolicy::new(500, 2_000);
    let mut elapsed: u64 = 0;
    let mut pauses: u64 = 0;
    loop {
        match policy.decide(false, elapsed) {
            WaitStep::Pause(ms) => {
                elapsed += ms;
                pauses += 1;
            }
            WaitStep::GiveUp => break,
            WaitStep::Deliver => panic!("a pending call is never delivered"),
        }
    }
    assert_eq!(pauses, 2_000 / 500 + 1);
}

#[test]
fn zero_timeout_gives_up_on_the_first_late_poll() {
    let policy = WaitPolicy::new(10, 0);
    assert_eq!(policy.decide(false, 0), WaitStep::Pause(10));
    assert_eq!(policy.decide(false, 1), WaitStep::GiveUp);
}
