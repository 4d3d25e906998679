//! Errors of the history store's own rules.
use vstd::prelude::*;

verus! {

/// Why a history or correction-rule operation was refused.
#[derive(Debug, Clone)]
pub enum HistoryError {
    /// A correction rule needs both a heard and a correct text.
    MissingText,
    /// A correction rule's correct text equals its heard text up to ASCII case.
    UnchangedText,
    /// Another rule already has the same key; holds the heard text.
    DuplicateRule(String),
    /// No correction rule has this id.
    RuleNotFound(i64),
    /// No history entry has this id.
    EntryNotFound(i64),
    /// The system clock reads before the Unix epoch or past the calendar
    /// range, so no time could be stamped.
    ClockUnavailable,
}

} // verus!
