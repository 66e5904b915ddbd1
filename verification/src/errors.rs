//! The error taxonomy shared by the parser, the lifecycle operations and the
//! delivery sweep. Validation errors are surfaced directly to the invoking
//! user; `StoreError` stands for an underlying persistence failure reported
//! by the unverified storage layer.

use vstd::prelude::*;

verus! {

/// Why a command or a parse was rejected.
#[derive(Clone, Copy, Debug, PartialEq, Eq, Structural)]
pub enum Error {
    /// The timestamp text matches none of the supported grammars, or a
    /// matched date does not exist on the calendar.
    InvalidTimestamp,
    /// A relative duration's total seconds overflow the supported range.
    DurationTooLong,
    /// The requested due instant is not in the future.
    ReminderInPast,
    /// The requested due instant is beyond the allowed horizon.
    ReminderTooFar,
    /// The author already has the maximum number of active reminders.
    TooManyReminders,
    /// The reminder does not exist, is inactive, or is not visible here.
    NotFoundOrExpired,
    /// The caller already follows this reminder.
    AlreadyFollowing,
    /// The caller does not follow this reminder.
    NotFollowing,
    /// The persistent store failed; only the unverified edge produces this.
    StoreError,
}

} // verus!
