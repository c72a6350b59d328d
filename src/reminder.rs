//! The reminder record, its creation from the clock, and its payload bytes.

use vstd::prelude::*;
use vstd::slice::{slice_subrange, slice_to_vec};
use crate::codec::{
    decimal, decimal_at, has_label_at, label_at, lemma_decimal_at, read_decimal,
    write_decimal, write_label,
};

verus! {

/// The JSON string literal that serde_json writes for a string.
pub uninterp spec fn json_quoted(m: Seq<char>) -> Seq<u8>;

/// The string that serde_json reads from bytes holding one JSON string
/// literal, or `None` where they hold none.
pub uninterp spec fn json_string_value(b: Seq<u8>) -> Option<Seq<char>>;

/// Relies on `serde_json::to_vec` for a `str`: the JSON string literal for
/// it, quotes and escapes included, which `serde_json::from_slice` reads back
/// as the same string. Writing into a `Vec` cannot fail.
#[verifier::external_body]
fn json_quote(m: &str) -> (r: Vec<u8>)
    ensures
        r@ == json_quoted(m@),
        json_string_value(r@) == Some(m@),
{
    match serde_json::to_vec(m) {
        Ok(v) => v,
        Err(_) => Vec::new(),
    }
}

/// Relies on `serde_json::from_slice::<String>`: it reads one JSON string
/// literal.
#[verifier::external_body]
fn json_unquote(b: &[u8]) -> (r: Option<String>)
    ensures
        r is None <==> json_string_value(b@) is None,
        r matches Some(v) ==> json_string_value(b@) == Some(v@),
{
    serde_json::from_slice::<String>(b).ok()
}

#[verifier::external_type_specification]
#[verifier::external_body]
pub struct ExSystemTime(std::time::SystemTime);

/// Relies on `SystemTime::now`: the time the system clock reads.
#[verifier::external_body]
fn system_now() -> (r: std::time::SystemTime) {
    std::time::SystemTime::now()
}

/// Relies on `SystemTime::duration_since` with `UNIX_EPOCH`: how long after
/// the epoch `t` lies, or `None` where it lies before it.
#[verifier::external_body]
fn since_epoch(t: &std::time::SystemTime) -> (r: Option<std::time::Duration>) {
    t.duration_since(std::time::UNIX_EPOCH).ok()
}

/// Relies on `Duration::as_secs`: the whole seconds of a duration.
#[verifier::external_body]
fn whole_seconds(d: &std::time::Duration) -> (r: u64) {
    d.as_secs()
}

/// Seconds since the epoch by the system clock, or `None` when the clock
/// reads a time before it.
pub fn unix_now() -> (r: Option<u64>) {
    let t = system_now();
    match since_epoch(&t) {
        Some(d) => Some(whole_seconds(&d)),
        None => None,
    }
}

/// A message to be delivered to a user later on.
#[derive(Debug)]
pub struct Reminder {
    /// When it was made, in seconds since the epoch.
    pub created_at: u64,
    /// The user to remind.
    pub author: u64,
    /// What to remind them of.
    pub message: String,
}

/// Why a reminder could not be made.
#[derive(Debug, PartialEq, Eq, Structural)]
pub enum ReminderError {
    /// The clock reads a time before the epoch.
    ClockError,
    /// The due time does not fit in 64 bits.
    OffsetOverflow,
}

/// The payload bytes do not hold a reminder.
#[derive(Debug, PartialEq, Eq, Structural)]
pub struct CorruptPayloadError;

/// `{"created_at":`
pub open spec fn created_label() -> Seq<u8> {
    seq![123u8, 34, 99, 114, 101, 97, 116, 101, 100, 95, 97, 116, 34, 58]
}

/// `,"author":`
pub open spec fn author_label() -> Seq<u8> {
    seq![44u8, 34, 97, 117, 116, 104, 111, 114, 34, 58]
}

/// `,"message":`
pub open spec fn message_label() -> Seq<u8> {
    seq![44u8, 34, 109, 101, 115, 115, 97, 103, 101, 34, 58]
}

fn created_label_bytes() -> (r: Vec<u8>)
    ensures
        r@ == created_label(),
{
    let r: Vec<u8> = vec![123u8, 34, 99, 114, 101, 97, 116, 101, 100, 95, 97, 116, 34, 58];
    assert(r@ == created_label());
    r
}

fn author_label_bytes() -> (r: Vec<u8>)
    ensures
        r@ == author_label(),
{
    let r: Vec<u8> = vec![44u8, 34, 97, 117, 116, 104, 111, 114, 34, 58];
    assert(r@ == author_label());
    r
}

fn message_label_bytes() -> (r: Vec<u8>)
    ensures
        r@ == message_label(),
{
    let r: Vec<u8> = vec![44u8, 34, 109, 101, 115, 115, 97, 103, 101, 34, 58];
    assert(r@ == message_label());
    r
}

/// The payload of a reminder: a JSON object with the creation time, the
/// author and the message, in that order.
pub open spec fn encoded(created_at: u64, author: u64, message: Seq<char>) -> Seq<u8> {
    created_label() + decimal(created_at as nat) + author_label() + decimal(author as nat)
        + message_label() + json_quoted(message) + seq![125u8]
}

/// The frame of a payload: both numbers and the bytes of the message literal.
pub open spec fn frame(s: Seq<u8>) -> Option<(u64, u64, Seq<u8>)> {
    if !label_at(s, 0, created_label()) {
        None
    } else {
        match decimal_at(s, created_label().len() as int) {
            None => None,
            Some((c, e1)) => if !label_at(s, e1, author_label()) {
                None
            } else {
                match decimal_at(s, (e1 + author_label().len()) as int) {
                    None => None,
                    Some((a, e2)) => {
                        let q = e2 + message_label().len();
                        if label_at(s, e2, message_label()) && q < s.len() && s.last() == 125 {
                            Some((c, a, s.subrange(q, s.len() - 1)))
                        } else {
                            None
                        }
                    },
                }
            },
        }
    }
}

/// What a payload reads as: creation time, author and message.
pub open spec fn decoded(s: Seq<u8>) -> Option<(u64, u64, Seq<char>)> {
    match frame(s) {
        Some((c, a, q)) => match json_string_value(q) {
            Some(m) => Some((c, a, m)),
            None => None,
        },
        None => None,
    }
}

/// The frame of an encoded reminder gives back its numbers and the literal
/// written for its message.
pub proof fn lemma_frame_of_encoded(c: u64, a: u64, m: Seq<char>)
    ensures
        frame(encoded(c, a, m)) == Some((c, a, json_quoted(m))),
{
    let dc = decimal(c as nat);
    let da = decimal(a as nat);
    let tail_a = author_label() + da + message_label() + json_quoted(m) + seq![125u8];
    let tail_m = message_label() + json_quoted(m) + seq![125u8];
    let s = encoded(c, a, m);
    let p1 = created_label();
    let p2 = p1 + dc + author_label();
    assert(s == p1 + dc + tail_a);
    assert(tail_a[0] == 44u8);
    lemma_decimal_at(p1, c, tail_a);
    assert(s.subrange(0, p1.len() as int) == p1);
    let e1 = p1.len() + dc.len();
    assert(s.subrange(e1 as int, (e1 + author_label().len()) as int) == author_label());
    assert(s == p2 + da + tail_m);
    assert(tail_m[0] == 44u8);
    lemma_decimal_at(p2, a, tail_m);
    let e2 = p2.len() + da.len();
    assert(s.subrange(e2 as int, (e2 + message_label().len()) as int) == message_label());
    let q = e2 + message_label().len();
    assert(s.subrange(q as int, s.len() - 1) == json_quoted(m));
}

impl Reminder {
    /// A reminder made at time `now`, due `time_offset` seconds later; gives
    /// the due time with it.
    pub fn create_reminder_at(now: u64, time_offset: u64, author: u64, message: String) -> (r:
        Result<(u64, Reminder), ReminderError>)
        ensures
            now + time_offset <= u64::MAX ==> (r matches Ok((due, x)) && due == now + time_offset
                && x.created_at == now && x.author == author && x.message == message),
            now + time_offset > u64::MAX ==> r == Err::<(u64, Reminder), ReminderError>(
                ReminderError::OffsetOverflow,
            ),
    {
        match now.checked_add(time_offset) {
            Some(due) => Ok((due, Reminder { created_at: now, author, message })),
            None => Err(ReminderError::OffsetOverflow),
        }
    }

    /// A reminder made now, due `time_offset` seconds later; gives the due
    /// time with it.
    pub fn create_reminder(time_offset: u64, author: u64, message: String) -> (r: Result<
        (u64, Reminder),
        ReminderError,
    >)
        ensures
            r matches Ok((due, x)) ==> due == x.created_at + time_offset && x.author == author
                && x.message == message,
            r matches Err(ReminderError::OffsetOverflow) ==> time_offset > 0,
    {
        match unix_now() {
            None => Err(ReminderError::ClockError),
            Some(now) => Reminder::create_reminder_at(now, time_offset, author, message),
        }
    }

    /// The payload bytes of this reminder.
    pub fn serialize(&self) -> (r: Vec<u8>)
        ensures
            r@ == encoded(self.created_at, self.author, self.message@),
            decoded(r@) == Some((self.created_at, self.author, self.message@)),
    {
        let mut out: Vec<u8> = Vec::new();
        let l1 = created_label_bytes();
        let l2 = author_label_bytes();
        let l3 = message_label_bytes();
        write_label(&mut out, l1.as_slice());
        write_decimal(&mut out, self.created_at);
        write_label(&mut out, l2.as_slice());
        write_decimal(&mut out, self.author);
        write_label(&mut out, l3.as_slice());
        let mut quoted = json_quote(self.message.as_str());
        out.append(&mut quoted);
        out.push(125u8);
        assert(out@ == encoded(self.created_at, self.author, self.message@));
        proof {
            lemma_frame_of_encoded(self.created_at, self.author, self.message@);
        }
        out
    }

    /// Reads a reminder back from payload bytes.
    pub fn deserialize(s: &Vec<u8>) -> (r: Result<Reminder, CorruptPayloadError>)
        ensures
            match decoded(s@) {
                Some((c, a, m)) => (r matches Ok(x) && x.created_at == c && x.author == a
                    && x.message@ == m),
                None => r == Err::<Reminder, CorruptPayloadError>(CorruptPayloadError),
            },
    {
        match Reminder::read_frame(s) {
            None => Err(CorruptPayloadError),
            Some((c, a, q)) => match json_unquote(q.as_slice()) {
                Some(message) => Ok(Reminder { created_at: c, author: a, message }),
                None => Err(CorruptPayloadError),
            },
        }
    }

    /// A reminder made now, due `time_offset` seconds later, as payload bytes;
    /// gives the due time with them.
    pub fn create_serialized_reminder(time_offset: u64, author: u64, message: String) -> (r: Result<
        (u64, Vec<u8>),
        ReminderError,
    >)
        ensures
            r matches Ok((due, p)) ==> exists|c: u64|
                due == c + time_offset && p@ == #[trigger] encoded(c, author, message@)
                    && decoded(p@) == Some((c, author, message@)),
            r matches Err(ReminderError::OffsetOverflow) ==> time_offset > 0,
    {
        match Reminder::create_reminder(time_offset, author, message) {
            Ok((due, x)) => {
                let p = x.serialize();
                Ok((due, p))
            },
            Err(e) => Err(e),
        }
    }

    fn read_frame(s: &Vec<u8>) -> (r: Option<(u64, u64, Vec<u8>)>)
        ensures
            match frame(s@) {
                Some((c, a, q)) => (r matches Some((rc, ra, rq)) && rc == c && ra == a && rq@ == q),
                None => r is None,
            },
    {
        let l1 = created_label_bytes();
        let l2 = author_label_bytes();
        let l3 = message_label_bytes();
        let n: usize = s.len();
        if !has_label_at(s, 0, l1.as_slice()) {
            return None;
        }
        let (c, e1) = match read_decimal(s, l1.len()) {
            Some(p) => p,
            None => return None,
        };
        assert(decimal_at(s@, created_label().len() as int) == Some((c, e1 as int)));
        if !has_label_at(s, e1, l2.as_slice()) {
            return None;
        }
        let (a, e2) = match read_decimal(s, e1 + l2.len()) {
            Some(p) => p,
            None => return None,
        };
        assert(decimal_at(s@, e1 + author_label().len()) == Some((a, e2 as int)));
        if !has_label_at(s, e2, l3.as_slice()) {
            return None;
        }
        let q = e2 + l3.len();
        if q >= n || s[n - 1] != 125u8 {
            return None;
        }
        let body = slice_subrange(s.as_slice(), q, n - 1);
        Some((c, a, slice_to_vec(body)))
    }
}

} // verus!
