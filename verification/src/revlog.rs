//! The review log's event records.

use vstd::prelude::*;

verus! {

/// The kind of log entry a review event records. Only graded reviews
/// (everything but `Manual` and `Rescheduled`) contribute to statistics.
#[derive(Clone, Copy, PartialEq, Eq, Structural, Debug)]
pub enum OutcomeKind {
    Learning,
    Relearning,
    Filtered,
    Review,
    Manual,
    Rescheduled,
}

/// One record of the review log: when the review happened (seconds since
/// epoch), what kind of entry it is, which grade was chosen (nominally
/// 1-4), and the interval in days since the previous review (meaningful
/// only for `OutcomeKind::Review`).
#[derive(Clone, Copy, PartialEq, Eq, Structural, Debug)]
pub struct ReviewEvent {
    pub timestamp: i64,
    pub outcome_kind: OutcomeKind,
    pub grade_chosen: u8,
    pub prior_interval: i32,
}

} // verus!
