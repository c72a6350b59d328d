//! Turning a quantity and a unit word into an offset in seconds.

use vstd::prelude::*;
use vstd::string::StringExecFns;

verus! {

/// The units a reminder delay can be given in.
#[derive(Clone, Copy, Debug, PartialEq, Eq, Structural)]
pub enum TimeUnit {
    Second,
    Minute,
    Hour,
    Day,
    Week,
}

/// How many seconds one unit lasts.
pub open spec fn unit_seconds(u: TimeUnit) -> nat {
    match u {
        TimeUnit::Second => 1,
        TimeUnit::Minute => 60,
        TimeUnit::Hour => 3600,
        TimeUnit::Day => 86400,
        TimeUnit::Week => 604800,
    }
}

/// The unit a word names; singular and plural spellings name the same unit.
pub open spec fn unit_of_token(t: Seq<char>) -> Option<TimeUnit> {
    if t == "second"@ || t == "seconds"@ {
        Some(TimeUnit::Second)
    } else if t == "minute"@ || t == "minutes"@ {
        Some(TimeUnit::Minute)
    } else if t == "hour"@ || t == "hours"@ {
        Some(TimeUnit::Hour)
    } else if t == "day"@ || t == "days"@ {
        Some(TimeUnit::Day)
    } else if t == "week"@ || t == "weeks"@ {
        Some(TimeUnit::Week)
    } else {
        None
    }
}

/// The offset in seconds that `quantity` units of the word `t` stand for,
/// before any check against the range of `u64`.
pub open spec fn offset_of(quantity: nat, t: Seq<char>) -> Option<nat> {
    match unit_of_token(t) {
        Some(u) => Some(quantity * unit_seconds(u)),
        None => None,
    }
}

fn token_is(token: &String, word: &str) -> (r: bool)
    ensures
        r == (token@ == word@),
{
    *token == String::from_str(word)
}

impl TimeUnit {
    /// Reads a unit word.
    pub fn from_token(token: &String) -> (r: Option<TimeUnit>)
        ensures
            r == unit_of_token(token@),
    {
        if token_is(token, "second") || token_is(token, "seconds") {
            Some(TimeUnit::Second)
        } else if token_is(token, "minute") || token_is(token, "minutes") {
            Some(TimeUnit::Minute)
        } else if token_is(token, "hour") || token_is(token, "hours") {
            Some(TimeUnit::Hour)
        } else if token_is(token, "day") || token_is(token, "days") {
            Some(TimeUnit::Day)
        } else if token_is(token, "week") || token_is(token, "weeks") {
            Some(TimeUnit::Week)
        } else {
            None
        }
    }

    /// Seconds in one unit.
    pub fn seconds(&self) -> (r: u64)
        ensures
            r == unit_seconds(*self),
    {
        match self {
            TimeUnit::Second => 1,
            TimeUnit::Minute => 60,
            TimeUnit::Hour => 3600,
            TimeUnit::Day => 86400,
            TimeUnit::Week => 604800,
        }
    }
}

/// Why the arguments of a reminder request were refused.
#[derive(Debug)]
pub enum InvalidReminderArguments {
    /// The unit word is none of the known ones.
    InvalidTimeUnit(String),
    /// The offset does not fit in 64 bits.
    OffsetOverflow,
}

impl InvalidReminderArguments {
    /// A sentence describing the problem.
    pub fn to_string(&self) -> (r: String)
        ensures
            match self {
                InvalidReminderArguments::InvalidTimeUnit(unit) => r@ == unit@
                    + " is an invalid time unit"@,
                InvalidReminderArguments::OffsetOverflow => r@
                    == "the requested delay is too long"@,
            },
    {
        match self {
            InvalidReminderArguments::InvalidTimeUnit(unit) => {
                let mut s = unit.clone();
                s.append(" is an invalid time unit");
                s
            },
            InvalidReminderArguments::OffsetOverflow => String::from_str(
                "the requested delay is too long",
            ),
        }
    }
}

/// Turns `quantity` units of the word `unit` into seconds.
pub fn resolve(quantity: u64, unit: &String) -> (r: Result<u64, InvalidReminderArguments>)
    ensures
        match offset_of(quantity as nat, unit@) {
            None => r matches Err(InvalidReminderArguments::InvalidTimeUnit(t)) && t@ == unit@,
            Some(off) => if off <= u64::MAX {
                r == Ok::<u64, InvalidReminderArguments>(off as u64)
            } else {
                r matches Err(InvalidReminderArguments::OffsetOverflow)
            },
        },
{
    match TimeUnit::from_token(unit) {
        None => Err(InvalidReminderArguments::InvalidTimeUnit(unit.clone())),
        Some(u) => match quantity.checked_mul(u.seconds()) {
            Some(off) => Ok(off),
            None => Err(InvalidReminderArguments::OffsetOverflow),
        },
    }
}

/// A reminder request: the offset in seconds, the message, and the unit word
/// and quantity as the user gave them.
pub struct ReminderArguments(pub u64, pub String, pub String, pub u64);

/// Checks a reminder request made of a quantity, a unit word and a message.
pub fn parse_reminder_arguments(quantity: u64, unit: String, message: String) -> (r: Result<
    ReminderArguments,
    InvalidReminderArguments,
>)
    ensures
        match offset_of(quantity as nat, unit@) {
            None => r matches Err(InvalidReminderArguments::InvalidTimeUnit(t)) && t@ == unit@,
            Some(off) => if off <= u64::MAX {
                r matches Ok(a) && a.0 == off && a.1@ == message@ && a.2@ == unit@ && a.3
                    == quantity
            } else {
                r matches Err(InvalidReminderArguments::OffsetOverflow)
            },
        },
{
    match resolve(quantity, &unit) {
        Ok(off) => Ok(ReminderArguments(off, message, unit, quantity)),
        Err(e) => Err(e),
    }
}

} // verus!
