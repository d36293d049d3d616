//! Laws of the window aggregator, stated over the contract of
//! `buttons::aggregate` and the counting model it is proved against.

use crate::buttons::all_time_count;
use crate::buttons::buttons_correct;
use crate::buttons::counted_event;
use crate::buttons::cumulative_count;
use crate::buttons::button_index_of;
use crate::buttons::in_window;
use crate::buttons::interval_bucket_of;
use crate::buttons::lemma_window_count_push;
use crate::buttons::window_count;
use crate::buttons::yesterday_count;
use crate::buttons::ButtonCounts;
use crate::buttons::Buttons;
use crate::buttons::IntervalBucket;
use crate::buttons::GRADES;
use crate::buttons::SECS_PER_DAY;
use crate::revlog::OutcomeKind;
use crate::revlog::ReviewEvent;
use vstd::prelude::*;

verus! {

/// How many events of the log are excluded from no histogram: they classify
/// to a maturity bucket and their grade is in range.
pub open spec fn non_excluded_count(events: Seq<ReviewEvent>) -> nat
    decreases events.len(),
{
    if events.len() == 0 {
        0
    } else {
        non_excluded_count(events.drop_last()) + (
        if interval_bucket_of(events.last()) is Some && button_index_of(
            events.last().grade_chosen,
        ) is Some {
            1nat
        } else {
            0nat
        })
    }
}

/// The sum of one histogram's twelve counters.
pub open spec fn counts_total(c: ButtonCounts) -> int {
    c.count_of(IntervalBucket::Learning, 0) + c.count_of(IntervalBucket::Learning, 1)
        + c.count_of(IntervalBucket::Learning, 2) + c.count_of(IntervalBucket::Learning, 3)
        + c.count_of(IntervalBucket::Young, 0) + c.count_of(IntervalBucket::Young, 1) + c.count_of(
        IntervalBucket::Young,
        2,
    ) + c.count_of(IntervalBucket::Young, 3) + c.count_of(IntervalBucket::Mature, 0) + c.count_of(
        IntervalBucket::Mature,
        1,
    ) + c.count_of(IntervalBucket::Mature, 2) + c.count_of(IntervalBucket::Mature, 3)
}

/// The sum of the unbounded window's twelve cell counts over a log.
pub open spec fn all_time_total(events: Seq<ReviewEvent>) -> nat {
    all_time_count(events, IntervalBucket::Learning, 0) + all_time_count(
        events,
        IntervalBucket::Learning,
        1,
    ) + all_time_count(events, IntervalBucket::Learning, 2) + all_time_count(
        events,
        IntervalBucket::Learning,
        3,
    ) + all_time_count(events, IntervalBucket::Young, 0) + all_time_count(
        events,
        IntervalBucket::Young,
        1,
    ) + all_time_count(events, IntervalBucket::Young, 2) + all_time_count(
        events,
        IntervalBucket::Young,
        3,
    ) + all_time_count(events, IntervalBucket::Mature, 0) + all_time_count(
        events,
        IntervalBucket::Mature,
        1,
    ) + all_time_count(events, IntervalBucket::Mature, 2) + all_time_count(
        events,
        IntervalBucket::Mature,
        3,
    )
}

/// Every non-excluded event contributes to exactly one cell of the
/// unbounded window, so that window's total equals the number of
/// non-excluded events in the log.
pub proof fn lemma_all_time_total_counts_every_event(events: Seq<ReviewEvent>)
    ensures
        all_time_total(events) == non_excluded_count(events),
    decreases events.len(),
{
    if events.len() > 0 {
        lemma_all_time_total_counts_every_event(events.drop_last());
    }
}

/// The all-time histogram of an aggregation counts every non-excluded
/// event of the log exactly once.
pub proof fn lemma_all_time_total(r: Buttons, events: Seq<ReviewEvent>, day_boundary: i64)
    requires
        buttons_correct(r, events, day_boundary),
    ensures
        counts_total(r.all_time) == non_excluded_count(events),
{
    lemma_all_time_total_counts_every_event(events);
}

/// Aggregation of the same log against the same day boundary always yields
/// the same counts: any two results meeting the aggregator's contract agree
/// on every cell of every histogram.
pub proof fn lemma_aggregate_deterministic(
    r1: Buttons,
    r2: Buttons,
    events: Seq<ReviewEvent>,
    day_boundary: i64,
)
    requires
        buttons_correct(r1, events, day_boundary),
        buttons_correct(r2, events, day_boundary),
    ensures
        forall|b: IntervalBucket, g: int|
            0 <= g < GRADES ==> r1.all_time.count_of(b, g) == r2.all_time.count_of(b, g),
        forall|b: IntervalBucket, g: int|
            0 <= g < GRADES ==> r1.one_year.count_of(b, g) == r2.one_year.count_of(b, g),
        forall|b: IntervalBucket, g: int|
            0 <= g < GRADES ==> r1.three_months.count_of(b, g) == r2.three_months.count_of(b, g),
        forall|b: IntervalBucket, g: int|
            0 <= g < GRADES ==> r1.one_month.count_of(b, g) == r2.one_month.count_of(b, g),
        forall|b: IntervalBucket, g: int|
            0 <= g < GRADES ==> r1.one_week.count_of(b, g) == r2.one_week.count_of(b, g),
        forall|b: IntervalBucket, g: int|
            0 <= g < GRADES ==> r1.yesterday.count_of(b, g) == r2.yesterday.count_of(b, g),
        forall|b: IntervalBucket, g: int|
            0 <= g < GRADES ==> r1.today.count_of(b, g) == r2.today.count_of(b, g),
{
    assert forall|b: IntervalBucket, g: int|
        0 <= g < GRADES implies r1.all_time.count_of(b, g) == r2.all_time.count_of(b, g) by {
        assert(r1.all_time.count_of(b, g) == all_time_count(events, b, g));
        assert(r2.all_time.count_of(b, g) == all_time_count(events, b, g));
    }
    assert forall|b: IntervalBucket, g: int|
        0 <= g < GRADES implies r1.one_year.count_of(b, g) == r2.one_year.count_of(b, g) by {
        assert(r1.one_year.count_of(b, g) == cumulative_count(events, day_boundary, 365, b, g));
        assert(r2.one_year.count_of(b, g) == cumulative_count(events, day_boundary, 365, b, g));
    }
    assert forall|b: IntervalBucket, g: int|
        0 <= g < GRADES implies r1.three_months.count_of(b, g) == r2.three_months.count_of(
        b,
        g,
    ) by {
        assert(r1.three_months.count_of(b, g) == cumulative_count(events, day_boundary, 90, b, g));
        assert(r2.three_months.count_of(b, g) == cumulative_count(events, day_boundary, 90, b, g));
    }
    assert forall|b: IntervalBucket, g: int|
        0 <= g < GRADES implies r1.one_month.count_of(b, g) == r2.one_month.count_of(b, g) by {
        assert(r1.one_month.count_of(b, g) == cumulative_count(events, day_boundary, 30, b, g));
        assert(r2.one_month.count_of(b, g) == cumulative_count(events, day_boundary, 30, b, g));
    }
    assert forall|b: IntervalBucket, g: int|
        0 <= g < GRADES implies r1.one_week.count_of(b, g) == r2.one_week.count_of(b, g) by {
        assert(r1.one_week.count_of(b, g) == cumulative_count(events, day_boundary, 7, b, g));
        assert(r2.one_week.count_of(b, g) == cumulative_count(events, day_boundary, 7, b, g));
    }
    assert forall|b: IntervalBucket, g: int|
        0 <= g < GRADES implies r1.yesterday.count_of(b, g) == r2.yesterday.count_of(b, g) by {
        assert(r1.yesterday.count_of(b, g) == yesterday_count(events, day_boundary, b, g));
        assert(r2.yesterday.count_of(b, g) == yesterday_count(events, day_boundary, b, g));
    }
    assert forall|b: IntervalBucket, g: int|
        0 <= g < GRADES implies r1.today.count_of(b, g) == r2.today.count_of(b, g) by {
        assert(r1.today.count_of(b, g) == cumulative_count(events, day_boundary, 1, b, g));
        assert(r2.today.count_of(b, g) == cumulative_count(events, day_boundary, 1, b, g));
    }
}

/// A window that admits no timestamp beyond those of a second window never
/// counts more events than the second in any cell.
pub proof fn lemma_window_count_subsumed(
    events: Seq<ReviewEvent>,
    floor1: Option<int>,
    ceiling1: Option<int>,
    floor2: Option<int>,
    ceiling2: Option<int>,
    bucket: IntervalBucket,
    grade: int,
)
    requires
        forall|ts: i64| in_window(ts, floor1, ceiling1) ==> in_window(ts, floor2, ceiling2),
    ensures
        window_count(events, floor1, ceiling1, bucket, grade) <= window_count(
            events,
            floor2,
            ceiling2,
            bucket,
            grade,
        ),
    decreases events.len(),
{
    if events.len() > 0 {
        lemma_window_count_subsumed(
            events.drop_last(),
            floor1,
            ceiling1,
            floor2,
            ceiling2,
            bucket,
            grade,
        );
    }
}

/// The cumulative windows nest: today's count never exceeds one week's,
/// one week's never exceeds one month's, and so on up to the all-time
/// histogram, cell by cell.
pub proof fn lemma_nested_windows(
    r: Buttons,
    events: Seq<ReviewEvent>,
    day_boundary: i64,
    bucket: IntervalBucket,
    grade: int,
)
    requires
        buttons_correct(r, events, day_boundary),
        0 <= grade < GRADES,
    ensures
        r.today.count_of(bucket, grade) <= r.one_week.count_of(bucket, grade),
        r.one_week.count_of(bucket, grade) <= r.one_month.count_of(bucket, grade),
        r.one_month.count_of(bucket, grade) <= r.three_months.count_of(bucket, grade),
        r.three_months.count_of(bucket, grade) <= r.one_year.count_of(bucket, grade),
        r.one_year.count_of(bucket, grade) <= r.all_time.count_of(bucket, grade),
        r.yesterday.count_of(bucket, grade) <= r.all_time.count_of(bucket, grade),
{
    let d: int = SECS_PER_DAY as int;
    assert(r.all_time.count_of(bucket, grade) == all_time_count(events, bucket, grade));
    assert(r.one_year.count_of(bucket, grade) == cumulative_count(
        events,
        day_boundary,
        365,
        bucket,
        grade,
    ));
    assert(r.three_months.count_of(bucket, grade) == cumulative_count(
        events,
        day_boundary,
        90,
        bucket,
        grade,
    ));
    assert(r.one_month.count_of(bucket, grade) == cumulative_count(
        events,
        day_boundary,
        30,
        bucket,
        grade,
    ));
    assert(r.one_week.count_of(bucket, grade) == cumulative_count(
        events,
        day_boundary,
        7,
        bucket,
        grade,
    ));
    assert(r.today.count_of(bucket, grade) == cumulative_count(
        events,
        day_boundary,
        1,
        bucket,
        grade,
    ));
    lemma_window_count_subsumed(
        events,
        Some(day_boundary - 1 * d),
        None,
        Some(day_boundary - 7 * d),
        None,
        bucket,
        grade,
    );
    lemma_window_count_subsumed(
        events,
        Some(day_boundary - 7 * d),
        None,
        Some(day_boundary - 30 * d),
        None,
        bucket,
        grade,
    );
    lemma_window_count_subsumed(
        events,
        Some(day_boundary - 30 * d),
        None,
        Some(day_boundary - 90 * d),
        None,
        bucket,
        grade,
    );
    lemma_window_count_subsumed(
        events,
        Some(day_boundary - 90 * d),
        None,
        Some(day_boundary - 365 * d),
        None,
        bucket,
        grade,
    );
    lemma_window_count_subsumed(
        events,
        Some(day_boundary - 365 * d),
        None,
        None,
        None,
        bucket,
        grade,
    );
    assert(r.yesterday.count_of(bucket, grade) == yesterday_count(
        events,
        day_boundary,
        bucket,
        grade,
    ));
    lemma_window_count_subsumed(
        events,
        Some(day_boundary - 2 * d),
        Some(day_boundary - 1 * d),
        None,
        None,
        bucket,
        grade,
    );
}

/// No single timestamp lies in both the yesterday window and the today
/// window: their ranges are disjoint.
pub proof fn lemma_yesterday_today_disjoint(event: ReviewEvent, day_boundary: i64)
    ensures
        !(in_window(
            event.timestamp,
            Some(day_boundary - 2 * SECS_PER_DAY),
            Some(day_boundary - SECS_PER_DAY),
        ) && in_window(event.timestamp, Some(day_boundary - SECS_PER_DAY), None)),
{
}

/// The yesterday and today windows partition the last two days: their cell
/// counts add up to the count of the cumulative two-day window, so no event
/// is counted by both.
pub proof fn lemma_yesterday_today_partition(
    events: Seq<ReviewEvent>,
    day_boundary: i64,
    bucket: IntervalBucket,
    grade: int,
)
    ensures
        yesterday_count(events, day_boundary, bucket, grade) + cumulative_count(
            events,
            day_boundary,
            1,
            bucket,
            grade,
        ) == cumulative_count(events, day_boundary, 2, bucket, grade),
    decreases events.len(),
{
    if events.len() > 0 {
        lemma_yesterday_today_partition(events.drop_last(), day_boundary, bucket, grade);
    }
}

/// A manual log entry contributes to no cell of any window.
pub proof fn lemma_manual_never_counted(event: ReviewEvent, bucket: IntervalBucket, grade: int)
    requires
        event.outcome_kind == OutcomeKind::Manual,
    ensures
        !counted_event(event, bucket, grade),
{
}

/// Appending a manual log entry leaves every window's every cell unchanged.
pub proof fn lemma_manual_excluded(
    events: Seq<ReviewEvent>,
    event: ReviewEvent,
    floor: Option<int>,
    ceiling: Option<int>,
    bucket: IntervalBucket,
    grade: int,
)
    requires
        event.outcome_kind == OutcomeKind::Manual,
    ensures
        window_count(events.push(event), floor, ceiling, bucket, grade) == window_count(
            events,
            floor,
            ceiling,
            bucket,
            grade,
        ),
{
    lemma_window_count_push(events, event, floor, ceiling, bucket, grade);
}

/// An event whose chosen grade is zero or above four contributes to no cell
/// of any window.
pub proof fn lemma_invalid_grade_never_counted(
    event: ReviewEvent,
    bucket: IntervalBucket,
    grade: int,
)
    requires
        event.grade_chosen == 0 || event.grade_chosen >= 5,
    ensures
        !counted_event(event, bucket, grade),
{
}

/// Appending an event whose chosen grade is zero or above four leaves every
/// window's every cell unchanged.
pub proof fn lemma_invalid_grade_excluded(
    events: Seq<ReviewEvent>,
    event: ReviewEvent,
    floor: Option<int>,
    ceiling: Option<int>,
    bucket: IntervalBucket,
    grade: int,
)
    requires
        event.grade_chosen == 0 || event.grade_chosen >= 5,
    ensures
        window_count(events.push(event), floor, ceiling, bucket, grade) == window_count(
            events,
            floor,
            ceiling,
            bucket,
            grade,
        ),
{
    lemma_window_count_push(events, event, floor, ceiling, bucket, grade);
}

/// A timestamp strictly inside the calendar day before today lies in the
/// yesterday window and in every cumulative window of a week or more, but
/// not in the today window.
pub proof fn lemma_day_before_today(event: ReviewEvent, day_boundary: i64)
    requires
        day_boundary - 2 * SECS_PER_DAY <= event.timestamp < day_boundary - SECS_PER_DAY,
    ensures
        in_window(
            event.timestamp,
            Some(day_boundary - 2 * SECS_PER_DAY),
            Some(day_boundary - SECS_PER_DAY),
        ),
        in_window(event.timestamp, Some(day_boundary - 7 * SECS_PER_DAY), None),
        in_window(event.timestamp, Some(day_boundary - 30 * SECS_PER_DAY), None),
        in_window(event.timestamp, Some(day_boundary - 90 * SECS_PER_DAY), None),
        in_window(event.timestamp, Some(day_boundary - 365 * SECS_PER_DAY), None),
        !in_window(event.timestamp, Some(day_boundary - SECS_PER_DAY), None),
{
}

/// Appending an event that contributes to a cell and whose timestamp lies
/// strictly inside the calendar day before today raises that cell's count
/// in the yesterday window and in every cumulative window of a week or
/// more, and leaves the today window unchanged.
pub proof fn lemma_day_before_counts(
    events: Seq<ReviewEvent>,
    event: ReviewEvent,
    day_boundary: i64,
    bucket: IntervalBucket,
    grade: int,
)
    requires
        day_boundary - 2 * SECS_PER_DAY <= event.timestamp < day_boundary - SECS_PER_DAY,
        counted_event(event, bucket, grade),
    ensures
        yesterday_count(events.push(event), day_boundary, bucket, grade) == yesterday_count(
            events,
            day_boundary,
            bucket,
            grade,
        ) + 1,
        cumulative_count(events.push(event), day_boundary, 7, bucket, grade) == cumulative_count(
            events,
            day_boundary,
            7,
            bucket,
            grade,
        ) + 1,
        cumulative_count(events.push(event), day_boundary, 30, bucket, grade) == cumulative_count(
            events,
            day_boundary,
            30,
            bucket,
            grade,
        ) + 1,
        cumulative_count(events.push(event), day_boundary, 90, bucket, grade) == cumulative_count(
            events,
            day_boundary,
            90,
            bucket,
            grade,
        ) + 1,
        cumulative_count(events.push(event), day_boundary, 365, bucket, grade) == cumulative_count(
            events,
            day_boundary,
            365,
            bucket,
            grade,
        ) + 1,
        all_time_count(events.push(event), bucket, grade) == all_time_count(events, bucket, grade)
            + 1,
        cumulative_count(events.push(event), day_boundary, 1, bucket, grade) == cumulative_count(
            events,
            day_boundary,
            1,
            bucket,
            grade,
        ),
{
    let d: int = SECS_PER_DAY as int;
    lemma_window_count_push(
        events,
        event,
        Some(day_boundary - 2 * d),
        Some(day_boundary - 1 * d),
        bucket,
        grade,
    );
    lemma_window_count_push(events, event, Some(day_boundary - 7 * d), None, bucket, grade);
    lemma_window_count_push(events, event, Some(day_boundary - 30 * d), None, bucket, grade);
    lemma_window_count_push(events, event, Some(day_boundary - 90 * d), None, bucket, grade);
    lemma_window_count_push(events, event, Some(day_boundary - 365 * d), None, bucket, grade);
    lemma_window_count_push(events, event, None, None, bucket, grade);
    lemma_window_count_push(events, event, Some(day_boundary - 1 * d), None, bucket, grade);
}

/// Over an empty log every cell of every histogram is zero.
pub proof fn lemma_empty_log(r: Buttons, day_boundary: i64)
    requires
        buttons_correct(r, Seq::<ReviewEvent>::empty(), day_boundary),
    ensures
        forall|b: IntervalBucket, g: int| 0 <= g < GRADES ==> r.all_time.count_of(b, g) == 0,
        forall|b: IntervalBucket, g: int| 0 <= g < GRADES ==> r.one_year.count_of(b, g) == 0,
        forall|b: IntervalBucket, g: int| 0 <= g < GRADES ==> r.three_months.count_of(b, g) == 0,
        forall|b: IntervalBucket, g: int| 0 <= g < GRADES ==> r.one_month.count_of(b, g) == 0,
        forall|b: IntervalBucket, g: int| 0 <= g < GRADES ==> r.one_week.count_of(b, g) == 0,
        forall|b: IntervalBucket, g: int| 0 <= g < GRADES ==> r.yesterday.count_of(b, g) == 0,
        forall|b: IntervalBucket, g: int| 0 <= g < GRADES ==> r.today.count_of(b, g) == 0,
{
    let evs = Seq::<ReviewEvent>::empty();
    assert forall|b: IntervalBucket, g: int| 0 <= g < GRADES implies r.all_time.count_of(b, g) == 0
        && r.one_year.count_of(b, g) == 0 && r.three_months.count_of(b, g) == 0
        && r.one_month.count_of(b, g) == 0 && r.one_week.count_of(b, g) == 0
        && r.yesterday.count_of(b, g) == 0 && r.today.count_of(b, g) == 0 by {
        assert(r.all_time.count_of(b, g) == all_time_count(evs, b, g));
        assert(r.one_year.count_of(b, g) == cumulative_count(evs, day_boundary, 365, b, g));
        assert(r.three_months.count_of(b, g) == cumulative_count(evs, day_boundary, 90, b, g));
        assert(r.one_month.count_of(b, g) == cumulative_count(evs, day_boundary, 30, b, g));
        assert(r.one_week.count_of(b, g) == cumulative_count(evs, day_boundary, 7, b, g));
        assert(r.yesterday.count_of(b, g) == yesterday_count(evs, day_boundary, b, g));
        assert(r.today.count_of(b, g) == cumulative_count(evs, day_boundary, 1, b, g));
    }
}

} // verus!
