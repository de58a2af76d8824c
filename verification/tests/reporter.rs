use string_repeater::reporter::{
    Reporter, ReporterAction, LOG_FILE_PATH, POLL_INTERVAL_MILLIS, REPORT_INTERVAL_MILLIS,
};

const SECOND: u128 = 1_000_000_000;

#[test]
fn design_values() {
    assert_eq!(POLL_INTERVAL_MILLIS, 100);
    assert_eq!(REPORT_INTERVAL_MILLIS, 1000);
    assert_eq!(LOG_FILE_PATH, "stats.log");
}

#[test]
fn reporter_waits_until_a_full_interval_has_passed() {
    let reporter = Reporter::new(SECOND, 5);
    assert_eq!(reporter.poll(true, 5), ReporterAction::Wait);
    assert_eq!(reporter.poll(true, 100_000_005), ReporterAction::Wait);
    assert_eq!(reporter.poll(true, SECOND + 4), ReporterAction::Wait);
    assert_eq!(reporter.poll(true, SECOND + 5), ReporterAction::Report);
    assert_eq!(reporter.poll(true, 3 * SECOND), ReporterAction::Report);
}

#[test]
fn reporter_stops_when_the_run_flag_is_down() {
    let reporter = Reporter::new(SECOND, 0);
    assert_eq!(reporter.poll(false, 0), ReporterAction::Stop);
    assert_eq!(reporter.poll(false, SECOND / 2), ReporterAction::Stop);
    assert_eq!(reporter.poll(false, 10 * SECOND), ReporterAction::Stop);
}

#[test]
fn recording_a_tick_starts_the_next_interval() {
    let mut reporter = Reporter::new(SECOND, 0);
    assert_eq!(reporter.poll(true, SECOND), ReporterAction::Report);
    reporter.record_tick(SECOND + 7);
    assert_eq!(reporter.last_tick_nanos, SECOND + 7);
    assert_eq!(reporter.interval_nanos, SECOND);
    assert_eq!(reporter.poll(true, SECOND + 8), ReporterAction::Wait);
    assert_eq!(reporter.poll(true, 2 * SECOND + 6), ReporterAction::Wait);
    assert_eq!(reporter.poll(true, 2 * SECOND + 7), ReporterAction::Report);
}

#[test]
fn polling_every_tenth_of_a_second_reports_once_a_second() {
    let poll = (POLL_INTERVAL_MILLIS as u128) * 1_000_000;
    let interval = (REPORT_INTERVAL_MILLIS as u128) * 1_000_000;
    let mut reporter = Reporter::new(interval, 0);
    let mut now: u128 = 0;
    let mut reports = 0;
    for _ in 0..50 {
        match reporter.poll(true, now) {
            ReporterAction::Report => {
                reports += 1;
                reporter.record_tick(now);
            }
            ReporterAction::Wait => {}
            ReporterAction::Stop => panic!("the run flag is up"),
        }
        now += poll;
    }
    assert_eq!(reports, 4);
}

#[test]
fn a_clock_that_reads_earlier_than_the_tick_counts_as_no_time() {
    let reporter = Reporter::new(SECOND, 10 * SECOND);
    assert_eq!(reporter.poll(true, 0), ReporterAction::Wait);
    let eager = Reporter::new(0, 10 * SECOND);
    assert_eq!(eager.poll(true, 0), ReporterAction::Report);
}

#[test]
fn the_largest_times_do_not_overflow() {
    let reporter = Reporter::new(u128::MAX, 0);
    assert_eq!(reporter.poll(true, u128::MAX - 1), ReporterAction::Wait);
    assert_eq!(reporter.poll(true, u128::MAX), ReporterAction::Report);
    let late = Reporter::new(1, u128::MAX);
    assert_eq!(late.poll(true, u128::MAX), ReporterAction::Wait);
}
