//! Review-outcome statistics: turn a chronological log of spaced-repetition
//! review events into grade-count histograms over several historical time
//! windows ("button press" distributions).

pub mod buttons;
pub mod properties;
pub mod revlog;
