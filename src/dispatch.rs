//! Submitting reminders to a queue and taking them out once they fall due.

use vstd::prelude::*;
use crate::queue::{is_earliest, ReminderQueue};
use crate::reminder::{decoded, encoded, unix_now, Reminder};
use crate::units::{offset_of, parse_reminder_arguments, resolve, InvalidReminderArguments};

verus! {

/// What the dispatcher does with the entry due first.
#[derive(Debug)]
pub enum DispatchStep {
    /// Nothing is due: sleep and look again.
    Wait,
    /// This payload is due: take it out, then open and deliver it.
    Take(Vec<u8>),
}

/// What one dispatch cycle came to.
#[derive(Debug)]
pub enum CycleOutcome {
    /// Nothing was due.
    Idle,
    /// A due entry was taken out; its message goes to its recipient.
    Deliver { recipient: u64, body: String },
    /// A due entry was taken out, but it held no reminder; it is dropped.
    Corrupt,
}

/// Why a reminder could not be submitted.
#[derive(Debug)]
pub enum SubmitError {
    /// The unit word is none of the known ones.
    InvalidTimeUnit(String),
    /// The clock reads a time before the epoch.
    ClockError,
    /// The offset or the due time does not fit in 64 bits.
    OffsetOverflow,
}

/// The outcome that taking out payload `p` comes to.
pub open spec fn outcome_of(p: Seq<u8>, r: CycleOutcome) -> bool {
    match decoded(p) {
        Some((c, a, m)) => r matches CycleOutcome::Deliver { recipient, body } && recipient == a
            && body@ == m,
        None => r is Corrupt,
    }
}

/// Whether some entry of `m` is due at time `now`.
pub open spec fn has_due(m: Map<Seq<u8>, u64>, now: u64) -> bool {
    exists|p: Seq<u8>| #[trigger] m.contains_key(p) && m[p] <= now
}

/// Decides, from the entry due first, whether it is to be taken at time `now`.
pub fn decide(earliest: Option<(Vec<u8>, u64)>, now: u64) -> (r: DispatchStep)
    ensures
        match earliest {
            None => r is Wait,
            Some((p, d)) => if d <= now {
                r matches DispatchStep::Take(q) && q@ == p@
            } else {
                r is Wait
            },
        },
{
    match earliest {
        None => DispatchStep::Wait,
        Some((p, d)) => if d <= now {
            DispatchStep::Take(p)
        } else {
            DispatchStep::Wait
        },
    }
}

/// Reads a payload taken out of the queue into what is to be delivered.
pub fn open_payload(p: &Vec<u8>) -> (r: CycleOutcome)
    ensures
        outcome_of(p@, r),
{
    match Reminder::deserialize(p) {
        Ok(x) => CycleOutcome::Deliver { recipient: x.author, body: x.message },
        Err(_) => CycleOutcome::Corrupt,
    }
}

/// One cycle of the dispatcher at time `now`: when the entry due first is
/// due, it is taken out before its message is handed on.
pub fn dispatch_cycle(queue: &mut ReminderQueue, now: u64) -> (r: CycleOutcome)
    requires
        old(queue).wf(),
    ensures
        final(queue).wf(),
        r is Idle <==> !has_due(old(queue)@, now),
        r is Idle ==> final(queue)@ == old(queue)@,
        !(r is Idle) ==> exists|p: Seq<u8>|
            #[trigger] is_earliest(old(queue)@, p) && old(queue)@[p] <= now && final(queue)@
                == old(queue)@.remove(p) && outcome_of(p, r),
{
    let ghost m = queue@;
    let step = decide(queue.peek_earliest(), now);
    match step {
        DispatchStep::Wait => {
            assert(!has_due(m, now)) by {
                if has_due(m, now) {
                    let p = choose|p: Seq<u8>| #[trigger] m.contains_key(p) && m[p] <= now;
                    assert(m.contains_key(p));
                }
            }
            CycleOutcome::Idle
        },
        DispatchStep::Take(p) => {
            queue.remove(&p);
            let r = open_payload(&p);
            assert(is_earliest(m, p@));
            assert(m.contains_key(p@));
            r
        },
    }
}

/// What submitting at time `now` an offset of `off` seconds comes to: the
/// due time and one more entry, or `OffsetOverflow` and no change when the
/// due time does not fit in 64 bits.
pub open spec fn submitted_at(
    before: Map<Seq<u8>, u64>,
    after: Map<Seq<u8>, u64>,
    r: Result<u64, SubmitError>,
    now: u64,
    off: nat,
    author: u64,
    message: Seq<char>,
) -> bool {
    if now + off <= u64::MAX {
        r == Ok::<u64, SubmitError>((now + off) as u64) && after == before.insert(
            encoded(now, author, message),
            (now + off) as u64,
        )
    } else {
        r matches Err(SubmitError::OffsetOverflow) && after == before
    }
}

/// Submits a reminder made at time `now`: `quantity` units of the word
/// `unit` from now, `message` goes to `author`. Gives the due time.
pub fn submit_at(
    queue: &mut ReminderQueue,
    now: u64,
    quantity: u64,
    unit: String,
    author: u64,
    message: String,
) -> (r: Result<u64, SubmitError>)
    requires
        old(queue).wf(),
    ensures
        final(queue).wf(),
        match offset_of(quantity as nat, unit@) {
            None => (r matches Err(SubmitError::InvalidTimeUnit(t)) && t@ == unit@
                && final(queue)@ == old(queue)@),
            Some(off) => submitted_at(old(queue)@, final(queue)@, r, now, off, author, message@),
        },
{
    let args = match parse_reminder_arguments(quantity, unit, message) {
        Ok(a) => a,
        Err(InvalidReminderArguments::InvalidTimeUnit(t)) => {
            return Err(SubmitError::InvalidTimeUnit(t));
        },
        Err(InvalidReminderArguments::OffsetOverflow) => {
            return Err(SubmitError::OffsetOverflow);
        },
    };
    match Reminder::create_reminder_at(now, args.0, author, args.1) {
        Ok((due, x)) => {
            let payload = x.serialize();
            queue.insert(payload, due);
            Ok(due)
        },
        Err(_) => Err(SubmitError::OffsetOverflow),
    }
}

/// Submits a reminder made now, by the clock: `quantity` units of the word
/// `unit` from now, `message` goes to `author`. Gives the due time. The unit
/// word and the offset are checked before the clock is read.
pub fn submit(queue: &mut ReminderQueue, quantity: u64, unit: String, author: u64, message: String) -> (r:
    Result<u64, SubmitError>)
    requires
        old(queue).wf(),
    ensures
        final(queue).wf(),
        match offset_of(quantity as nat, unit@) {
            None => (r matches Err(SubmitError::InvalidTimeUnit(t)) && t@ == unit@
                && final(queue)@ == old(queue)@),
            Some(off) => if off > u64::MAX {
                r matches Err(SubmitError::OffsetOverflow) && final(queue)@ == old(queue)@
            } else {
                (r matches Err(SubmitError::ClockError) && final(queue)@ == old(queue)@)
                    || exists|now: u64|
                    #[trigger] submitted_at(old(queue)@, final(queue)@, r, now, off, author, message@)
            },
        },
{
    match resolve(quantity, &unit) {
        Ok(_) => {},
        Err(InvalidReminderArguments::InvalidTimeUnit(t)) => {
            return Err(SubmitError::InvalidTimeUnit(t));
        },
        Err(InvalidReminderArguments::OffsetOverflow) => {
            return Err(SubmitError::OffsetOverflow);
        },
    }
    match unix_now() {
        None => Err(SubmitError::ClockError),
        Some(now) => submit_at(queue, now, quantity, unit, author, message),
    }
}

} // verus!
