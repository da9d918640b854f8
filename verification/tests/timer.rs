use jxtimer::time::Duration;
use jxtimer::timer::{format_duration, frame_timer_state, Timer};

fn d(ms: u64) -> Duration {
    Duration::from_millis(ms)
}

#[test]
fn timer_is_duration_driven() {
    let mut t = Timer::default();
    t.start(d(100));
    assert_eq!(t.elapsed(d(225)), d(125));
    t.stop(d(300));
    assert_eq!(t.elapsed(d(900)), d(200));
}

#[test]
fn formatting_is_fractional_and_stable() {
    assert_eq!(format_duration(d(3_723_045), true, 2, false), "01:02:03.04");
    assert_eq!(format_duration(d(7), false, 2, false), "00:00:00");
    assert_eq!(format_duration(d(59_990), true, 2, true), "      59.99");
    assert_eq!(format_duration(d(12_340), true, 2, true), "      12.34");
    assert_eq!(format_duration(d(60_000), true, 2, true), "   01:00.00");
    assert_eq!(format_duration(d(3_600_000), true, 2, true), "01:00:00.00");
    assert_eq!(format_duration(d(3_661_000), true, 2, true), "01:01:01.00");
    assert_eq!(
        format_duration(Duration::zero(), true, 2, false),
        "00:00:00.00"
    );
    assert_eq!(
        format_duration(Duration::zero(), true, 2, true),
        "      00.00"
    );
    assert_eq!(format_duration(d(1), true, 2, true), "      00.00");
}

#[test]
fn one_frame_snapshot_uses_one_timer_and_elapsed_input() {
    let mut timer = Timer::default();
    timer.start(d(100));
    let first = frame_timer_state(&timer, d(250));
    let second = frame_timer_state(&timer, d(250));
    assert_eq!(first, (d(150), true));
    assert_eq!(first, second);
    assert!(timer.is_running());
}

#[test]
fn fractions_follow_the_number_of_digits() {
    assert_eq!(format_duration(d(3_723_987), true, 0, false), "01:02:03");
    assert_eq!(format_duration(d(3_723_987), true, 1, false), "01:02:03.9");
    assert_eq!(format_duration(d(3_723_987), true, 2, false), "01:02:03.98");
    assert_eq!(format_duration(d(3_723_987), true, 200, false), "01:02:03.98");
    assert_eq!(format_duration(d(3_723_987), false, 1, false), "01:02:03");
}

#[test]
fn hours_are_not_bounded() {
    assert_eq!(format_duration(d(360_000_000), true, 2, true), "100:00:00.00");
    let longest = Duration::new(u64::MAX, 999_999_999);
    assert_eq!(
        format_duration(longest, true, 2, false),
        "5124095576030431:00:15.99"
    );
}

#[test]
fn readout_keeps_its_width_while_running() {
    for ms in [0, 59_999, 60_000, 3_599_999, 3_600_000, 359_999_999] {
        assert_eq!(format_duration(d(ms), true, 2, true).len(), 11);
        assert_eq!(format_duration(d(ms), true, 2, false).len(), 11);
    }
}

#[test]
fn starting_and_stopping_repeat_harmlessly() {
    let mut timer = Timer::default();
    timer.start(d(100));
    timer.start(d(200));
    assert_eq!(timer.elapsed(d(300)), d(200));
    timer.stop(d(300));
    timer.stop(d(900));
    assert_eq!(timer.elapsed(d(1_000)), d(200));
}

#[test]
fn runs_add_up_and_reset_forgets_them() {
    let mut timer = Timer::default();
    timer.start(d(100));
    timer.stop(d(150));
    timer.start(d(500));
    assert_eq!(timer.elapsed(d(570)), d(120));
    timer.reset();
    assert!(!timer.is_running());
    assert_eq!(timer.elapsed(d(5_000)), Duration::zero());
    assert_eq!(timer, Timer::default());
}

#[test]
fn a_clock_that_steps_back_gives_no_time() {
    let mut timer = Timer::default();
    timer.start(d(500));
    assert_eq!(timer.elapsed(d(100)), Duration::zero());
    timer.stop(d(100));
    assert_eq!(timer.elapsed(d(100)), Duration::zero());
}

#[test]
fn time_that_cannot_be_represented_is_told_beforehand() {
    let longest = Duration::new(u64::MAX, 999_999_999);
    let mut timer = Timer::default();
    timer.start(Duration::zero());
    timer.stop(longest);
    assert_eq!(timer.elapsed(longest), longest);
    timer.start(Duration::zero());
    assert!(timer.is_readable(Duration::zero()));
    assert!(!timer.is_readable(Duration::new(0, 1)));
}

#[test]
fn durations_keep_their_parts() {
    let span = Duration::from_millis(61_234);
    assert_eq!(span.as_secs(), 61);
    assert_eq!(span.subsec_millis(), 234);
    assert_eq!(span.subsec_nanos(), 234_000_000);
    assert_eq!(d(100).saturating_sub(d(300)), Duration::zero());
    assert_eq!(d(1_700).saturating_sub(d(800)), d(900));
    assert_eq!(d(700).checked_add(d(600)), Some(d(1_300)));
    let longest = Duration::new(u64::MAX, 999_999_999);
    assert_eq!(longest.checked_add(Duration::new(0, 1)), None);
}
