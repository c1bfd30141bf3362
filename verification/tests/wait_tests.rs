use ev3_driver::wait::{poll_timeout_ms, wait_start, wait_step, WaitStep};

const MS: u128 = 1_000_000;

#[test]
fn eager_condition_wins_immediately() {
    assert_eq!(wait_start(true, Some(500 * MS)), WaitStep::Ready);
    assert_eq!(wait_start(true, None), WaitStep::Ready);
    assert_eq!(wait_start(true, Some(0)), WaitStep::Ready);
}

#[test]
fn entry_without_condition_polls_with_whole_budget() {
    assert_eq!(
        wait_start(false, Some(500 * MS)),
        WaitStep::Poll { remaining_ns: Some(500 * MS) }
    );
    assert_eq!(wait_start(false, None), WaitStep::Poll { remaining_ns: None });
}

#[test]
fn condition_satisfied_late() {
    // Total budget 500 ms; the watched file changes at 50 ms and the
    // condition now holds: the wait reports success.
    let timeout = Some(500 * MS);
    assert_eq!(wait_start(false, timeout), WaitStep::Poll { remaining_ns: timeout });
    assert_eq!(wait_step(timeout, 50 * MS, true), WaitStep::Ready);
}

#[test]
fn condition_never_true_times_out() {
    // Total budget 100 ms, no file changes, the condition stays false:
    // each wakeup shrinks the budget until the deadline reports failure.
    let timeout = Some(100 * MS);
    assert_eq!(wait_start(false, timeout), WaitStep::Poll { remaining_ns: timeout });
    assert_eq!(
        wait_step(timeout, 60 * MS, false),
        WaitStep::Poll { remaining_ns: Some(40 * MS) }
    );
    assert_eq!(wait_step(timeout, 100 * MS, false), WaitStep::TimedOut);
}

#[test]
fn deadline_beats_last_moment_condition_flip() {
    let timeout = Some(100 * MS);
    assert_eq!(wait_step(timeout, 100 * MS, true), WaitStep::TimedOut);
    assert_eq!(wait_step(timeout, 170 * MS, true), WaitStep::TimedOut);
}

#[test]
fn without_timeout_the_wait_never_expires() {
    assert_eq!(
        wait_step(None, 86_400_000 * MS, false),
        WaitStep::Poll { remaining_ns: None }
    );
    assert_eq!(wait_step(None, 86_400_000 * MS, true), WaitStep::Ready);
}

#[test]
fn poll_timeout_rounds_down_to_milliseconds() {
    assert_eq!(poll_timeout_ms(None), -1);
    assert_eq!(poll_timeout_ms(Some(500 * MS)), 500);
    assert_eq!(poll_timeout_ms(Some(999_999)), 0);
    assert_eq!(poll_timeout_ms(Some(0)), 0);
    assert_eq!(poll_timeout_ms(Some(u128::MAX)), i32::MAX);
}

#[test]
fn budget_shrinks_by_elapsed_time() {
    let timeout = Some(1_000 * MS);
    match wait_step(timeout, 250 * MS, false) {
        WaitStep::Poll { remaining_ns } => assert_eq!(remaining_ns, Some(750 * MS)),
        other => panic!("expected a poll step, got {:?}", other),
    }
}
