//! Delayed reminders: a one-shot message for a user, stored under the time it
//! falls due and handed out by a polling dispatcher once that time has come.

pub mod codec;
pub mod dispatch;
pub mod queue;
pub mod reminder;
pub mod units;
