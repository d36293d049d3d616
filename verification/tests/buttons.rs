use review_stats::buttons::aggregate;
use review_stats::buttons::button_index;
use review_stats::buttons::interval_bucket;
use review_stats::buttons::ButtonCounts;
use review_stats::buttons::Buttons;
use review_stats::buttons::IntervalBucket;
use review_stats::revlog::OutcomeKind;
use review_stats::revlog::ReviewEvent;

const DAY: i64 = 86_400;

fn event(timestamp: i64, outcome_kind: OutcomeKind, grade_chosen: u8, prior_interval: i32) -> ReviewEvent {
    ReviewEvent { timestamp, outcome_kind, grade_chosen, prior_interval }
}

fn zero_counts() -> ButtonCounts {
    ButtonCounts { learning: vec![0; 4], young: vec![0; 4], mature: vec![0; 4] }
}

fn row_total(row: &[u64]) -> u64 {
    row.iter().sum()
}

fn counts_total(c: &ButtonCounts) -> u64 {
    row_total(&c.learning) + row_total(&c.young) + row_total(&c.mature)
}

fn all_windows(r: &Buttons) -> [&ButtonCounts; 7] {
    [
        &r.all_time,
        &r.one_year,
        &r.three_months,
        &r.one_month,
        &r.one_week,
        &r.yesterday,
        &r.today,
    ]
}

#[test]
fn empty_log_gives_all_zero() {
    let r = aggregate(&Vec::new(), 1_000_000);
    for w in all_windows(&r) {
        assert_eq!(*w, zero_counts());
    }
}

#[test]
fn event_older_than_a_year_counts_only_all_time() {
    let day_boundary = 1_000_000;
    let events = vec![event(day_boundary - DAY * 400, OutcomeKind::Review, 3, 30)];
    let r = aggregate(&events, day_boundary);
    assert_eq!(r.all_time.mature[2], 1);
    assert_eq!(counts_total(&r.all_time), 1);
    assert_eq!(r.one_year, zero_counts());
    assert_eq!(r.three_months, zero_counts());
    assert_eq!(r.one_month, zero_counts());
    assert_eq!(r.one_week, zero_counts());
    assert_eq!(r.yesterday, zero_counts());
    assert_eq!(r.today, zero_counts());
}

#[test]
fn event_of_today_counts_in_every_cumulative_window() {
    let day_boundary = 1_000_000;
    let events = vec![event(999_999, OutcomeKind::Learning, 1, 0)];
    let r = aggregate(&events, day_boundary);
    assert_eq!(r.all_time.learning[0], 1);
    assert_eq!(r.today.learning[0], 1);
    assert_eq!(r.one_week.learning[0], 1);
    assert_eq!(r.one_month.learning[0], 1);
    assert_eq!(r.three_months.learning[0], 1);
    assert_eq!(r.one_year.learning[0], 1);
    assert_eq!(r.yesterday.learning[0], 0);
}

#[test]
fn event_of_the_day_before_counts_in_yesterday_but_not_today() {
    let day_boundary = 1_000_000;
    let ts = day_boundary - 100_000;
    assert!(day_boundary - 2 * DAY <= ts && ts < day_boundary - DAY);
    let events = vec![event(ts, OutcomeKind::Review, 2, 5)];
    let r = aggregate(&events, day_boundary);
    assert_eq!(r.yesterday.young[1], 1);
    assert_eq!(r.today, zero_counts());
    assert_eq!(r.one_week.young[1], 1);
    assert_eq!(r.one_month.young[1], 1);
    assert_eq!(r.three_months.young[1], 1);
    assert_eq!(r.one_year.young[1], 1);
    assert_eq!(r.all_time.young[1], 1);
}

#[test]
fn manual_entry_is_never_counted() {
    let day_boundary = 1_000_000;
    let events = vec![event(999_999, OutcomeKind::Manual, 3, 10)];
    let r = aggregate(&events, day_boundary);
    for w in all_windows(&r) {
        assert_eq!(*w, zero_counts());
    }
}

#[test]
fn rescheduled_entry_is_never_counted() {
    let day_boundary = 1_000_000;
    let events = vec![event(999_999, OutcomeKind::Rescheduled, 3, 10)];
    let r = aggregate(&events, day_boundary);
    for w in all_windows(&r) {
        assert_eq!(*w, zero_counts());
    }
}

#[test]
fn out_of_range_grades_are_never_counted() {
    let day_boundary = 1_000_000;
    let events = vec![
        event(999_990, OutcomeKind::Learning, 0, 0),
        event(999_995, OutcomeKind::Review, 5, 30),
        event(999_999, OutcomeKind::Review, 255, 30),
    ];
    let r = aggregate(&events, day_boundary);
    for w in all_windows(&r) {
        assert_eq!(*w, zero_counts());
    }
}

#[test]
fn all_time_total_counts_each_valid_event_once() {
    let day_boundary = 1_000_000;
    let events = vec![
        event(day_boundary - DAY * 400, OutcomeKind::Review, 1, 50),
        event(day_boundary - DAY * 40, OutcomeKind::Relearning, 2, 0),
        event(day_boundary - DAY * 3, OutcomeKind::Manual, 3, 0),
        event(day_boundary - DAY - 1, OutcomeKind::Filtered, 4, 0),
        event(day_boundary - 10, OutcomeKind::Review, 9, 10),
        event(day_boundary - 5, OutcomeKind::Review, 3, 10),
    ];
    let r = aggregate(&events, day_boundary);
    // four valid events: Manual and the grade-9 one are excluded
    assert_eq!(counts_total(&r.all_time), 4);
}

#[test]
fn cumulative_windows_nest_cell_by_cell() {
    let day_boundary = 1_000_000;
    let events = vec![
        event(day_boundary - DAY * 400, OutcomeKind::Review, 3, 30),
        event(day_boundary - DAY * 100, OutcomeKind::Review, 3, 30),
        event(day_boundary - DAY * 50, OutcomeKind::Review, 3, 30),
        event(day_boundary - DAY * 10, OutcomeKind::Review, 3, 30),
        event(day_boundary - DAY * 2, OutcomeKind::Review, 3, 30),
        event(day_boundary - 1, OutcomeKind::Review, 3, 30),
    ];
    let r = aggregate(&events, day_boundary);
    assert!(r.today.mature[2] <= r.one_week.mature[2]);
    assert!(r.one_week.mature[2] <= r.one_month.mature[2]);
    assert!(r.one_month.mature[2] <= r.three_months.mature[2]);
    assert!(r.three_months.mature[2] <= r.one_year.mature[2]);
    assert!(r.one_year.mature[2] <= r.all_time.mature[2]);
    assert_eq!(r.today.mature[2], 1);
    assert_eq!(r.one_week.mature[2], 2);
    assert_eq!(r.one_month.mature[2], 3);
    assert_eq!(r.three_months.mature[2], 4);
    assert_eq!(r.one_year.mature[2], 5);
    assert_eq!(r.all_time.mature[2], 6);
}

#[test]
fn yesterday_and_today_are_disjoint() {
    let day_boundary = 1_000_000;
    let events = vec![
        event(day_boundary - DAY - 1, OutcomeKind::Learning, 1, 0),
        event(day_boundary - DAY, OutcomeKind::Learning, 1, 0),
        event(day_boundary - 1, OutcomeKind::Learning, 1, 0),
    ];
    let r = aggregate(&events, day_boundary);
    // each event is counted by exactly one of the two day windows
    assert_eq!(r.yesterday.learning[0], 1);
    assert_eq!(r.today.learning[0], 2);
    assert_eq!(counts_total(&r.yesterday) + counts_total(&r.today), 3);
}

#[test]
fn window_floors_are_inclusive() {
    let day_boundary = 10_000_000;
    let events = vec![
        event(day_boundary - DAY * 365, OutcomeKind::Learning, 1, 0),
        event(day_boundary - DAY * 2, OutcomeKind::Learning, 2, 0),
        event(day_boundary - DAY, OutcomeKind::Learning, 3, 0),
    ];
    let r = aggregate(&events, day_boundary);
    // exactly one year old: still inside the one-year window
    assert_eq!(r.one_year.learning[0], 1);
    assert_eq!(r.three_months.learning[0], 0);
    // exactly two days old: first timestamp of yesterday
    assert_eq!(r.yesterday.learning[1], 1);
    assert_eq!(r.today.learning[1], 0);
    // exactly one day old: first timestamp of today, no longer yesterday
    assert_eq!(r.today.learning[2], 1);
    assert_eq!(r.yesterday.learning[2], 0);
}

#[test]
fn young_mature_threshold_is_21_days() {
    let day_boundary = 1_000_000;
    let events = vec![
        event(999_000, OutcomeKind::Review, 1, 20),
        event(999_500, OutcomeKind::Review, 1, 21),
    ];
    let r = aggregate(&events, day_boundary);
    assert_eq!(r.all_time.young[0], 1);
    assert_eq!(r.all_time.mature[0], 1);
    assert_eq!(r.all_time.learning[0], 0);
}

#[test]
fn learning_relearning_and_filtered_share_a_bucket() {
    let day_boundary = 1_000_000;
    let events = vec![
        event(999_000, OutcomeKind::Learning, 4, 0),
        event(999_100, OutcomeKind::Relearning, 4, 0),
        event(999_200, OutcomeKind::Filtered, 4, 100),
    ];
    let r = aggregate(&events, day_boundary);
    assert_eq!(r.all_time.learning[3], 3);
    assert_eq!(r.all_time.young[3], 0);
    assert_eq!(r.all_time.mature[3], 0);
}

#[test]
fn aggregation_is_deterministic() {
    let day_boundary = 1_000_000;
    let events = vec![
        event(day_boundary - DAY * 100, OutcomeKind::Review, 2, 30),
        event(day_boundary - DAY * 5, OutcomeKind::Learning, 1, 0),
        event(day_boundary - 1, OutcomeKind::Review, 4, 2),
    ];
    let first = aggregate(&events, day_boundary);
    let second = aggregate(&events, day_boundary);
    assert_eq!(first, second);
}

#[test]
fn interval_bucket_classifies_each_outcome_kind() {
    let base = event(0, OutcomeKind::Learning, 1, 0);
    assert_eq!(interval_bucket(&base), Some(IntervalBucket::Learning));
    assert_eq!(
        interval_bucket(&event(0, OutcomeKind::Relearning, 1, 0)),
        Some(IntervalBucket::Learning)
    );
    assert_eq!(
        interval_bucket(&event(0, OutcomeKind::Filtered, 1, 0)),
        Some(IntervalBucket::Learning)
    );
    assert_eq!(
        interval_bucket(&event(0, OutcomeKind::Review, 1, 20)),
        Some(IntervalBucket::Young)
    );
    assert_eq!(
        interval_bucket(&event(0, OutcomeKind::Review, 1, 21)),
        Some(IntervalBucket::Mature)
    );
    assert_eq!(interval_bucket(&event(0, OutcomeKind::Manual, 1, 0)), None);
    assert_eq!(interval_bucket(&event(0, OutcomeKind::Rescheduled, 1, 0)), None);
}

#[test]
fn button_index_accepts_exactly_grades_one_to_four() {
    assert_eq!(button_index(0), None);
    assert_eq!(button_index(1), Some(0));
    assert_eq!(button_index(2), Some(1));
    assert_eq!(button_index(3), Some(2));
    assert_eq!(button_index(4), Some(3));
    assert_eq!(button_index(5), None);
    assert_eq!(button_index(255), None);
}
