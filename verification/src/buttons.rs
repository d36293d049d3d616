//! The window aggregator: one pass over a sorted review log that fills a
//! grade-count histogram per maturity bucket for seven time windows (one
//! cumulative all-time histogram plus six windows relative to the start of
//! the current day).

use crate::revlog::OutcomeKind;
use crate::revlog::ReviewEvent;
use vstd::prelude::*;

verus! {

/// Seconds in one day; all window bounds are whole days before the day boundary.
pub const SECS_PER_DAY: i64 = 86_400;

/// Number of valid grades; grade `g` is counted at index `g - 1`.
pub const GRADES: usize = 4;

/// The maturity stage an event is counted under.
#[derive(Clone, Copy, PartialEq, Eq, Structural, Debug)]
pub enum IntervalBucket {
    Learning,
    Young,
    Mature,
}

/// Grade counters for one time window: one row per maturity bucket, one
/// counter per valid grade (index 0 counts grade 1).
#[derive(Debug, PartialEq, Eq)]
pub struct ButtonCounts {
    pub learning: Vec<u64>,
    pub young: Vec<u64>,
    pub mature: Vec<u64>,
}

impl ButtonCounts {
    /// Every row has exactly one counter per valid grade.
    pub open spec fn well_formed(self) -> bool {
        &&& self.learning@.len() == GRADES
        &&& self.young@.len() == GRADES
        &&& self.mature@.len() == GRADES
    }

    /// The counter of one (maturity bucket, grade index) cell.
    pub open spec fn count_of(self, bucket: IntervalBucket, grade: int) -> u64 {
        match bucket {
            IntervalBucket::Learning => self.learning@[grade],
            IntervalBucket::Young => self.young@[grade],
            IntervalBucket::Mature => self.mature@[grade],
        }
    }
}

/// The maturity bucket an event is counted under, or `None` for log entries
/// that must not appear in any histogram.
pub open spec fn interval_bucket_of(event: ReviewEvent) -> Option<IntervalBucket> {
    match event.outcome_kind {
        OutcomeKind::Learning | OutcomeKind::Relearning | OutcomeKind::Filtered => Some(
            IntervalBucket::Learning,
        ),
        OutcomeKind::Review => if event.prior_interval < 21 {
            Some(IntervalBucket::Young)
        } else {
            Some(IntervalBucket::Mature)
        },
        OutcomeKind::Manual | OutcomeKind::Rescheduled => None,
    }
}

/// The zero-based counter index of a chosen grade, or `None` for a grade
/// outside the valid range 1-4.
pub open spec fn button_index_of(button_chosen: u8) -> Option<usize> {
    if 1 <= button_chosen <= 4 {
        Some((button_chosen - 1) as usize)
    } else {
        None
    }
}

/// Whether a timestamp lies in the window with inclusive floor `floor` and
/// exclusive ceiling `ceiling` (`None` means unbounded on that side).
pub open spec fn in_window(ts: i64, floor: Option<int>, ceiling: Option<int>) -> bool {
    &&& (floor matches Some(f) ==> ts >= f)
    &&& (ceiling matches Some(c) ==> ts < c)
}

/// Whether an event contributes to the (bucket, grade index) cell of a
/// histogram: it classifies to that bucket and its chosen grade maps to
/// that index.
pub open spec fn counted_event(event: ReviewEvent, bucket: IntervalBucket, grade: int) -> bool {
    &&& interval_bucket_of(event) == Some(bucket)
    &&& 0 <= grade < GRADES
    &&& button_index_of(event.grade_chosen) == Some(grade as usize)
}

/// How many events of the log contribute to the (bucket, grade index) cell
/// of the window with the given floor and ceiling.
pub open spec fn window_count(
    events: Seq<ReviewEvent>,
    floor: Option<int>,
    ceiling: Option<int>,
    bucket: IntervalBucket,
    grade: int,
) -> nat
    decreases events.len(),
{
    if events.len() == 0 {
        0
    } else {
        window_count(events.drop_last(), floor, ceiling, bucket, grade) + (
        if counted_event(events.last(), bucket, grade) && in_window(
            events.last().timestamp,
            floor,
            ceiling,
        ) {
            1nat
        } else {
            0nat
        })
    }
}

/// The log is sorted by ascending timestamp.
pub open spec fn sorted_by_timestamp(events: Seq<ReviewEvent>) -> bool {
    forall|i: int, j: int|
        0 <= i <= j < events.len() ==> events[i].timestamp <= events[j].timestamp
}

/// Appending one event to the log raises a cell's count by one exactly when
/// the event contributes to that cell and lies in the window.
pub proof fn lemma_window_count_push(
    events: Seq<ReviewEvent>,
    event: ReviewEvent,
    floor: Option<int>,
    ceiling: Option<int>,
    bucket: IntervalBucket,
    grade: int,
)
    ensures
        window_count(events.push(event), floor, ceiling, bucket, grade) == window_count(
            events,
            floor,
            ceiling,
            bucket,
            grade,
        ) + (
        if counted_event(event, bucket, grade) && in_window(event.timestamp, floor, ceiling) {
            1nat
        } else {
            0nat
        }),
{
    assert(events.push(event).drop_last() =~= events);
    assert(events.push(event).last() == event);
}

/// No cell of a window ever counts more events than the log holds.
pub proof fn lemma_window_count_le_len(
    events: Seq<ReviewEvent>,
    floor: Option<int>,
    ceiling: Option<int>,
    bucket: IntervalBucket,
    grade: int,
)
    ensures
        window_count(events, floor, ceiling, bucket, grade) <= events.len(),
    decreases events.len(),
{
    if events.len() > 0 {
        lemma_window_count_le_len(events.drop_last(), floor, ceiling, bucket, grade);
    }
}

/// Maps an event to its maturity bucket, or `None` for entries that are
/// excluded from every histogram.
pub fn interval_bucket(review: &ReviewEvent) -> (r: Option<IntervalBucket>)
    ensures
        r == interval_bucket_of(*review),
{
    match review.outcome_kind {
        OutcomeKind::Learning | OutcomeKind::Relearning | OutcomeKind::Filtered => Some(
            IntervalBucket::Learning,
        ),
        OutcomeKind::Review => Some(
            if review.prior_interval < 21 {
                IntervalBucket::Young
            } else {
                IntervalBucket::Mature
            },
        ),
        OutcomeKind::Manual | OutcomeKind::Rescheduled => None,
    }
}

/// Maps a chosen grade to its zero-based counter index, or `None` for a
/// grade outside the valid range 1-4.
pub fn button_index(button_chosen: u8) -> (r: Option<usize>)
    ensures
        r == button_index_of(button_chosen),
{
    if 1 <= button_chosen && button_chosen <= 4 {
        Some((button_chosen - 1) as usize)
    } else {
        None
    }
}

/// The aggregator's result: one histogram per time window, each produced
/// fresh by `aggregate` and owned independently.
#[derive(Debug, PartialEq, Eq)]
pub struct Buttons {
    pub all_time: ButtonCounts,
    pub one_year: ButtonCounts,
    pub three_months: ButtonCounts,
    pub one_month: ButtonCounts,
    pub one_week: ButtonCounts,
    pub yesterday: ButtonCounts,
    pub today: ButtonCounts,
}

/// A cell's count with no time bound at all.
pub open spec fn all_time_count(
    events: Seq<ReviewEvent>,
    bucket: IntervalBucket,
    grade: int,
) -> nat {
    window_count(events, None, None, bucket, grade)
}

/// A cell's count for a cumulative window reaching back a whole number of
/// days from the day boundary.
pub open spec fn cumulative_count(
    events: Seq<ReviewEvent>,
    day_boundary: i64,
    days: int,
    bucket: IntervalBucket,
    grade: int,
) -> nat {
    window_count(events, Some(day_boundary - days * SECS_PER_DAY), None, bucket, grade)
}

/// A cell's count for the single calendar day before today.
pub open spec fn yesterday_count(
    events: Seq<ReviewEvent>,
    day_boundary: i64,
    bucket: IntervalBucket,
    grade: int,
) -> nat {
    window_count(
        events,
        Some(day_boundary - 2 * SECS_PER_DAY),
        Some(day_boundary - SECS_PER_DAY),
        bucket,
        grade,
    )
}

/// What `aggregate` promises: every histogram is well formed and every cell
/// holds exactly the number of log events that classify to its bucket and
/// grade and fall in its window.
pub open spec fn buttons_correct(r: Buttons, events: Seq<ReviewEvent>, day_boundary: i64) -> bool {
    &&& r.all_time.well_formed()
    &&& r.one_year.well_formed()
    &&& r.three_months.well_formed()
    &&& r.one_month.well_formed()
    &&& r.one_week.well_formed()
    &&& r.yesterday.well_formed()
    &&& r.today.well_formed()
    &&& forall|b: IntervalBucket, g: int|
        0 <= g < GRADES ==> r.all_time.count_of(b, g) == all_time_count(events, b, g)
    &&& forall|b: IntervalBucket, g: int|
        0 <= g < GRADES ==> r.one_year.count_of(b, g) == cumulative_count(
            events,
            day_boundary,
            365,
            b,
            g,
        )
    &&& forall|b: IntervalBucket, g: int|
        0 <= g < GRADES ==> r.three_months.count_of(b, g) == cumulative_count(
            events,
            day_boundary,
            90,
            b,
            g,
        )
    &&& forall|b: IntervalBucket, g: int|
        0 <= g < GRADES ==> r.one_month.count_of(b, g) == cumulative_count(
            events,
            day_boundary,
            30,
            b,
            g,
        )
    &&& forall|b: IntervalBucket, g: int|
        0 <= g < GRADES ==> r.one_week.count_of(b, g) == cumulative_count(
            events,
            day_boundary,
            7,
            b,
            g,
        )
    &&& forall|b: IntervalBucket, g: int|
        0 <= g < GRADES ==> r.yesterday.count_of(b, g) == yesterday_count(
            events,
            day_boundary,
            b,
            g,
        )
    &&& forall|b: IntervalBucket, g: int|
        0 <= g < GRADES ==> r.today.count_of(b, g) == cumulative_count(
            events,
            day_boundary,
            1,
            b,
            g,
        )
}

/// How many days before the day boundary the floor of the `k`-th window
/// lies; the walk visits windows from widest to narrowest, so the floors
/// rise with `k`.
pub open spec fn window_days(k: int) -> int {
    if k == 0 {
        365
    } else if k == 1 {
        90
    } else if k == 2 {
        30
    } else if k == 3 {
        7
    } else if k == 4 {
        2
    } else {
        1
    }
}

/// The inclusive floor of the `k`-th window: the earliest timestamp it
/// still counts.
pub open spec fn window_floor(day_boundary: i64, k: int) -> int {
    day_boundary - window_days(k) * SECS_PER_DAY
}

/// The exclusive ceiling of the `k`-th window; only the next-to-last
/// window (the single day before today) has one.
pub open spec fn window_ceiling(day_boundary: i64, k: int) -> Option<int> {
    if k == 4 {
        Some(day_boundary - SECS_PER_DAY)
    } else {
        None
    }
}

/// One time-bounded window under construction: its bounds and the counters
/// accumulated so far.
struct WindowAcc {
    min_timestamp: Option<i64>,
    max_timestamp: i64,
    counts: ButtonCounts,
}

impl WindowAcc {
    /// The stored bounds are those of the `k`-th window.
    spec fn bounds_ok(self, day_boundary: i64, k: int) -> bool {
        &&& self.max_timestamp as int == window_floor(day_boundary, k)
        &&& match self.min_timestamp {
            Some(m) => window_ceiling(day_boundary, k) == Some(m as int),
            None => window_ceiling(day_boundary, k) is None,
        }
    }

    /// Every cell holds the `k`-th window's count over the given log.
    spec fn counts_ok(self, events: Seq<ReviewEvent>, day_boundary: i64, k: int) -> bool {
        &&& self.counts.well_formed()
        &&& forall|b: IntervalBucket, g: int|
            0 <= g < GRADES ==> self.counts.count_of(b, g) == window_count(
                events,
                Some(window_floor(day_boundary, k)),
                window_ceiling(day_boundary, k),
                b,
                g,
            )
    }
}

/// One zero-valued row of counters, one per valid grade.
fn zero_row() -> (r: Vec<u64>)
    ensures
        r@.len() == GRADES,
        forall|g: int| 0 <= g < GRADES ==> r@[g] == 0,
{
    let mut row: Vec<u64> = Vec::new();
    let mut k: usize = 0;
    while k < GRADES
        invariant
            k <= GRADES,
            row@.len() == k,
            forall|g: int| 0 <= g < k ==> row@[g] == 0,
        decreases GRADES - k,
    {
        row.push(0);
        k = k + 1;
    }
    row
}

/// A fresh histogram with every counter zero.
fn zero_counts() -> (r: ButtonCounts)
    ensures
        r.well_formed(),
        forall|b: IntervalBucket, g: int| 0 <= g < GRADES ==> r.count_of(b, g) == 0,
{
    ButtonCounts { learning: zero_row(), young: zero_row(), mature: zero_row() }
}

/// Adds one to the (bucket, grade index) cell and leaves every other cell
/// as it was.
fn increment_button_counts(counts: &mut ButtonCounts, bucket: IntervalBucket, button_idx: usize)
    requires
        old(counts).well_formed(),
        button_idx < GRADES,
        old(counts).count_of(bucket, button_idx as int) < u64::MAX,
    ensures
        final(counts).well_formed(),
        final(counts).count_of(bucket, button_idx as int) == old(counts).count_of(
            bucket,
            button_idx as int,
        ) + 1,
        forall|b: IntervalBucket, g: int|
            0 <= g < GRADES && !(b == bucket && g == button_idx as int) ==> final(counts).count_of(
                b,
                g,
            ) == old(counts).count_of(b, g),
{
    match bucket {
        IntervalBucket::Learning => {
            let v: u64 = counts.learning[button_idx];
            counts.learning[button_idx] = v + 1;
        },
        IntervalBucket::Young => {
            let v: u64 = counts.young[button_idx];
            counts.young[button_idx] = v + 1;
        },
        IntervalBucket::Mature => {
            let v: u64 = counts.mature[button_idx];
            counts.mature[button_idx] = v + 1;
        },
    }
}

/// Walks the six bounded windows from widest to narrowest for one counted
/// event and adds it to every window whose range contains its timestamp,
/// stopping at the first window whose floor the event misses.
fn update_windows(
    windows: &mut Vec<WindowAcc>,
    ts: i64,
    bucket: IntervalBucket,
    button_idx: usize,
    Ghost(day_boundary): Ghost<i64>,
    Ghost(events): Ghost<Seq<ReviewEvent>>,
    Ghost(event): Ghost<ReviewEvent>,
)
    requires
        old(windows)@.len() == 6,
        forall|k: int| 0 <= k < 6 ==> old(windows)@[k].bounds_ok(day_boundary, k),
        forall|k: int| 0 <= k < 6 ==> old(windows)@[k].counts_ok(events, day_boundary, k),
        counted_event(event, bucket, button_idx as int),
        ts == event.timestamp,
        events.len() < u64::MAX,
    ensures
        final(windows)@.len() == 6,
        forall|k: int| 0 <= k < 6 ==> final(windows)@[k].bounds_ok(day_boundary, k),
        forall|k: int|
            0 <= k < 6 ==> final(windows)@[k].counts_ok(events.push(event), day_boundary, k),
{
    let mut j: usize = 0;
    while j < 6
        invariant_except_break
            j <= 6,
            windows@.len() == 6,
            counted_event(event, bucket, button_idx as int),
            ts == event.timestamp,
            events.len() < u64::MAX,
            forall|k: int| 0 <= k < 6 ==> windows@[k].bounds_ok(day_boundary, k),
            forall|k: int| j <= k < 6 ==> windows@[k].counts_ok(events, day_boundary, k),
            forall|k: int| 0 <= k < j ==> windows@[k].counts_ok(events.push(event), day_boundary, k),
        ensures
            windows@.len() == 6,
            forall|k: int| 0 <= k < 6 ==> windows@[k].bounds_ok(day_boundary, k),
            forall|k: int|
                0 <= k < 6 ==> windows@[k].counts_ok(events.push(event), day_boundary, k),
        decreases 6 - j,
    {
        let floor_j: i64 = windows[j].max_timestamp;
        if ts < floor_j {
            proof {
                // The floors rise with k, so the event misses every window
                // from j on, and their counts do not change.
                assert forall|k: int| j <= k < 6 implies windows@[k].counts_ok(
                    events.push(event),
                    day_boundary,
                    k,
                ) by {
                    assert(window_floor(day_boundary, j as int) <= window_floor(day_boundary, k));
                    assert forall|b: IntervalBucket, g: int| 0 <= g < GRADES implies window_count(
                        events.push(event),
                        Some(window_floor(day_boundary, k)),
                        window_ceiling(day_boundary, k),
                        b,
                        g,
                    ) == window_count(
                        events,
                        Some(window_floor(day_boundary, k)),
                        window_ceiling(day_boundary, k),
                        b,
                        g,
                    ) by {
                        lemma_window_count_push(
                            events,
                            event,
                            Some(window_floor(day_boundary, k)),
                            window_ceiling(day_boundary, k),
                            b,
                            g,
                        );
                    }
                }
            }
            break;
        }
        let in_win: bool = match windows[j].min_timestamp {
            None => true,
            Some(m) => ts < m,
        };
        let ghost pre = windows@;
        if in_win {
            proof {
                lemma_window_count_le_len(
                    events,
                    Some(window_floor(day_boundary, j as int)),
                    window_ceiling(day_boundary, j as int),
                    bucket,
                    button_idx as int,
                );
            }
            let w = &mut windows[j];
            increment_button_counts(&mut w.counts, bucket, button_idx);
        }
        proof {
            assert forall|k: int| 0 <= k <= j && k < 6 implies windows@[k].counts_ok(
                events.push(event),
                day_boundary,
                k,
            ) by {
                if k < j {
                    assert(windows@[k] == pre[k]);
                } else {
                    assert forall|b: IntervalBucket, g: int|
                        0 <= g < GRADES implies windows@[j as int].counts.count_of(b, g)
                        == window_count(
                        events.push(event),
                        Some(window_floor(day_boundary, j as int)),
                        window_ceiling(day_boundary, j as int),
                        b,
                        g,
                    ) by {
                        lemma_window_count_push(
                            events,
                            event,
                            Some(window_floor(day_boundary, j as int)),
                            window_ceiling(day_boundary, j as int),
                            b,
                            g,
                        );
                    }
                }
            }
        }
        j = j + 1;
    }
}

/// An event that classifies to no maturity bucket, or whose grade is out of
/// range, changes no window's count when appended to the log.
proof fn lemma_excluded_event_counts(
    events: Seq<ReviewEvent>,
    event: ReviewEvent,
    day_boundary: i64,
)
    requires
        interval_bucket_of(event) is None || button_index_of(event.grade_chosen) is None,
    ensures
        forall|b: IntervalBucket, g: int|
            window_count(events.push(event), None, None, b, g) == window_count(
                events,
                None,
                None,
                b,
                g,
            ),
        forall|k: int, b: IntervalBucket, g: int|
            0 <= k < 6 ==> window_count(
                events.push(event),
                Some(window_floor(day_boundary, k)),
                window_ceiling(day_boundary, k),
                b,
                g,
            ) == window_count(
                events,
                Some(window_floor(day_boundary, k)),
                window_ceiling(day_boundary, k),
                b,
                g,
            ),
{
    assert forall|b: IntervalBucket, g: int|
        window_count(events.push(event), None, None, b, g) == window_count(
            events,
            None,
            None,
            b,
            g,
        ) by {
        lemma_window_count_push(events, event, None, None, b, g);
    }
    assert forall|k: int, b: IntervalBucket, g: int| 0 <= k < 6 implies window_count(
        events.push(event),
        Some(window_floor(day_boundary, k)),
        window_ceiling(day_boundary, k),
        b,
        g,
    ) == window_count(
        events,
        Some(window_floor(day_boundary, k)),
        window_ceiling(day_boundary, k),
        b,
        g,
    ) by {
        lemma_window_count_push(
            events,
            event,
            Some(window_floor(day_boundary, k)),
            window_ceiling(day_boundary, k),
            b,
            g,
        );
    }
}

/// Aggregates a review log, sorted by ascending timestamp, into one
/// grade-count histogram per maturity bucket and time window, all windows
/// taken relative to `day_boundary`, the start of the current day. Entries
/// with no maturity bucket or an out-of-range grade are silently excluded.
pub fn aggregate(events: &Vec<ReviewEvent>, day_boundary: i64) -> (r: Buttons)
    requires
        sorted_by_timestamp(events@),
        i64::MIN + 365 * SECS_PER_DAY <= day_boundary,
    ensures
        buttons_correct(r, events@, day_boundary),
{
    let ghost evs = events@;
    let mut all_time = zero_counts();
    let mut windows: Vec<WindowAcc> = Vec::new();
    windows.push(
        WindowAcc {
            min_timestamp: None,
            max_timestamp: day_boundary - 365 * SECS_PER_DAY,
            counts: zero_counts(),
        },
    );
    windows.push(
        WindowAcc {
            min_timestamp: None,
            max_timestamp: day_boundary - 90 * SECS_PER_DAY,
            counts: zero_counts(),
        },
    );
    windows.push(
        WindowAcc {
            min_timestamp: None,
            max_timestamp: day_boundary - 30 * SECS_PER_DAY,
            counts: zero_counts(),
        },
    );
    windows.push(
        WindowAcc {
            min_timestamp: None,
            max_timestamp: day_boundary - 7 * SECS_PER_DAY,
            counts: zero_counts(),
        },
    );
    windows.push(
        WindowAcc {
            min_timestamp: Some(day_boundary - SECS_PER_DAY),
            max_timestamp: day_boundary - 2 * SECS_PER_DAY,
            counts: zero_counts(),
        },
    );
    windows.push(
        WindowAcc {
            min_timestamp: None,
            max_timestamp: day_boundary - SECS_PER_DAY,
            counts: zero_counts(),
        },
    );
    proof {
        assert(evs.subrange(0, 0) =~= Seq::<ReviewEvent>::empty());
    }
    let n: usize = events.len();
    let mut i: usize = 0;
    while i < n
        invariant
            i <= n,
            n == evs.len(),
            events@ == evs,
            all_time.well_formed(),
            forall|b: IntervalBucket, g: int|
                0 <= g < GRADES ==> all_time.count_of(b, g) == window_count(
                    evs.subrange(0, i as int),
                    None,
                    None,
                    b,
                    g,
                ),
            windows@.len() == 6,
            forall|k: int| 0 <= k < 6 ==> windows@[k].bounds_ok(day_boundary, k),
            forall|k: int|
                0 <= k < 6 ==> windows@[k].counts_ok(evs.subrange(0, i as int), day_boundary, k),
        decreases n - i,
    {
        let review: ReviewEvent = events[i];
        let ghost prefix = evs.subrange(0, i as int);
        let ghost prefix1 = evs.subrange(0, i as int + 1);
        proof {
            assert(prefix1 =~= prefix.push(evs[i as int]));
            assert(prefix.len() == i as int);
        }
        match interval_bucket(&review) {
            None => {
                proof {
                    lemma_excluded_event_counts(prefix, review, day_boundary);
                }
            },
            Some(bucket) => {
                match button_index(review.grade_chosen) {
                    None => {
                        proof {
                            lemma_excluded_event_counts(prefix, review, day_boundary);
                        }
                    },
                    Some(button_idx) => {
                        proof {
                            lemma_window_count_le_len(
                                prefix,
                                None,
                                None,
                                bucket,
                                button_idx as int,
                            );
                        }
                        increment_button_counts(&mut all_time, bucket, button_idx);
                        proof {
                            assert forall|b: IntervalBucket, g: int|
                                0 <= g < GRADES implies all_time.count_of(b, g) == window_count(
                                prefix1,
                                None,
                                None,
                                b,
                                g,
                            ) by {
                                lemma_window_count_push(prefix, review, None, None, b, g);
                            }
                        }
                        update_windows(
                            &mut windows,
                            review.timestamp,
                            bucket,
                            button_idx,
                            Ghost(day_boundary),
                            Ghost(prefix),
                            Ghost(review),
                        );
                    },
                }
            },
        }
        i = i + 1;
    }
    proof {
        assert(evs.subrange(0, n as int) =~= evs);
    }
    let one_year = windows.remove(0);
    let three_months = windows.remove(0);
    let one_month = windows.remove(0);
    let one_week = windows.remove(0);
    let yesterday = windows.remove(0);
    let today = windows.remove(0);
    Buttons {
        all_time,
        one_year: one_year.counts,
        three_months: three_months.counts,
        one_month: one_month.counts,
        one_week: one_week.counts,
        yesterday: yesterday.counts,
        today: today.counts,
    }
}

} // verus!
