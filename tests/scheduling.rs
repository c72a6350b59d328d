use remindme::dispatch::{decide, dispatch_cycle, open_payload, submit, submit_at, CycleOutcome, DispatchStep, SubmitError};
use remindme::queue::ReminderQueue;
use remindme::reminder::{CorruptPayloadError, Reminder, ReminderError};
use remindme::units::{parse_reminder_arguments, resolve, InvalidReminderArguments, TimeUnit};

fn s(x: &str) -> String {
    x.to_string()
}

fn reminder(created_at: u64, author: u64, message: &str) -> Reminder {
    Reminder { created_at, author, message: s(message) }
}

#[test]
fn resolve_every_unit_word() {
    let cases: Vec<(&str, u64)> = vec![
        ("second", 1),
        ("seconds", 1),
        ("minute", 60),
        ("minutes", 60),
        ("hour", 3600),
        ("hours", 3600),
        ("day", 86400),
        ("days", 86400),
        ("week", 604800),
        ("weeks", 604800),
    ];
    for (word, secs) in cases {
        assert_eq!(resolve(3, &s(word)).unwrap(), 3 * secs);
        assert_eq!(resolve(0, &s(word)).unwrap(), 0);
    }
}

#[test]
fn resolve_two_hours() {
    assert_eq!(resolve(2, &s("hours")).unwrap(), 7200);
}

#[test]
fn resolve_rejects_unknown_words() {
    for word in ["fortnight", "", "Hours", "hrs", "seconds "] {
        match resolve(1, &s(word)) {
            Err(InvalidReminderArguments::InvalidTimeUnit(t)) => assert_eq!(t, word),
            other => panic!("unexpected {:?}", other),
        }
    }
}

#[test]
fn resolve_detects_overflow() {
    assert_eq!(resolve(u64::MAX, &s("second")).unwrap(), u64::MAX);
    assert!(matches!(resolve(u64::MAX, &s("minutes")), Err(InvalidReminderArguments::OffsetOverflow)));
    assert!(matches!(resolve(u64::MAX / 604800 + 1, &s("week")), Err(InvalidReminderArguments::OffsetOverflow)));
    assert_eq!(resolve(u64::MAX / 604800, &s("week")).unwrap(), (u64::MAX / 604800) * 604800);
}

#[test]
fn time_unit_words_and_seconds() {
    assert_eq!(TimeUnit::from_token(&s("day")), Some(TimeUnit::Day));
    assert_eq!(TimeUnit::from_token(&s("weeks")), Some(TimeUnit::Week));
    assert_eq!(TimeUnit::from_token(&s("fortnight")), None);
    assert_eq!(TimeUnit::Minute.seconds(), 60);
    assert_eq!(TimeUnit::Week.seconds(), 604800);
}

#[test]
fn invalid_arguments_describe_themselves() {
    assert_eq!(
        InvalidReminderArguments::InvalidTimeUnit(s("fortnight")).to_string(),
        "fortnight is an invalid time unit"
    );
    assert_eq!(InvalidReminderArguments::OffsetOverflow.to_string(), "the requested delay is too long");
}

#[test]
fn parse_arguments_keeps_what_was_given() {
    let a = parse_reminder_arguments(5, s("minutes"), s("tea is ready")).ok().unwrap();
    assert_eq!(a.0, 300);
    assert_eq!(a.1, "tea is ready");
    assert_eq!(a.2, "minutes");
    assert_eq!(a.3, 5);
    assert!(matches!(
        parse_reminder_arguments(5, s("fortnight"), s("x")),
        Err(InvalidReminderArguments::InvalidTimeUnit(_))
    ));
}

#[test]
fn create_at_adds_the_offset() {
    let (due, r) = Reminder::create_reminder_at(1000, 7200, 7, s("call mom")).unwrap();
    assert_eq!(due, 8200);
    assert_eq!(r.created_at, 1000);
    assert_eq!(r.author, 7);
    assert_eq!(r.message, "call mom");
    assert_eq!(
        Reminder::create_reminder_at(u64::MAX - 1, 2, 7, s("x")).err(),
        Some(ReminderError::OffsetOverflow)
    );
    assert_eq!(Reminder::create_reminder_at(u64::MAX - 2, 2, 7, s("x")).unwrap().0, u64::MAX);
}

#[test]
fn create_uses_the_clock() {
    let (due, r) = Reminder::create_reminder(60, 9, s("stretch")).unwrap();
    assert!(r.created_at > 1_600_000_000);
    assert_eq!(due, r.created_at + 60);
    assert_eq!(r.author, 9);
    assert_eq!(r.message, "stretch");
    assert_eq!(
        Reminder::create_reminder(u64::MAX, 9, s("x")).err(),
        Some(ReminderError::OffsetOverflow)
    );
}

#[test]
fn serialize_writes_the_json_object() {
    let p = reminder(10, 42, "hi").serialize();
    assert_eq!(String::from_utf8(p).unwrap(), r#"{"created_at":10,"author":42,"message":"hi"}"#);
}

#[test]
fn serialize_escapes_the_message() {
    let p = reminder(0, 1, "say \"hi\"\n\\").serialize();
    assert_eq!(
        String::from_utf8(p).unwrap(),
        r#"{"created_at":0,"author":1,"message":"say \"hi\"\n\\"}"#
    );
}

#[test]
fn round_trip_keeps_every_field() {
    let cases = vec![
        reminder(1_700_000_000, 123456789, "call mom"),
        reminder(0, 0, ""),
        reminder(u64::MAX, u64::MAX, "ünïcødé \u{1F600} \"quoted\" \\ back\tslash"),
        reminder(5, 18446744073709551615, "}{,\"author\":1"),
    ];
    for r in cases {
        let back = Reminder::deserialize(&r.serialize()).unwrap();
        assert_eq!(back.created_at, r.created_at);
        assert_eq!(back.author, r.author);
        assert_eq!(back.message, r.message);
    }
}

#[test]
fn deserialize_reads_json_escapes() {
    let p = br#"{"created_at":3,"author":4,"message":"\u0041b\n"}"#.to_vec();
    let r = Reminder::deserialize(&p).unwrap();
    assert_eq!((r.created_at, r.author), (3, 4));
    assert_eq!(r.message, "Ab\n");
}

#[test]
fn deserialize_reads_a_lone_zero() {
    let r = Reminder::deserialize(&br#"{"created_at":0,"author":0,"message":""}"#.to_vec()).unwrap();
    assert_eq!((r.created_at, r.author, r.message.as_str()), (0, 0, ""));
    let r = Reminder::deserialize(&br#"{"created_at":10,"author":100,"message":"x"}"#.to_vec()).unwrap();
    assert_eq!((r.created_at, r.author), (10, 100));
}

#[test]
fn deserialize_rejects_corrupt_payloads() {
    let bad: Vec<&[u8]> = vec![
        b"",
        b"garbage",
        br#"{"created_at":,"author":4,"message":"x"}"#,
        br#"{"created_at":1,"author":4,"message":"x""#,
        br#"{"created_at":1,"author":4,"message":x}"#,
        br#"{"created_at":1,"author":4,"message":"x"}}"#,
        br#"{"created_at":18446744073709551616,"author":4,"message":"x"}"#,
        br#"{"author":4,"created_at":1,"message":"x"}"#,
        b"\xff\xfe",
        br#"{"created_at":01,"author":4,"message":"x"}"#,
        br#"{"created_at":1,"author":04,"message":"x"}"#,
        br#"{"created_at":00,"author":4,"message":"x"}"#,
        br#"{"created_at":1,"author":-4,"message":"x"}"#,
    ];
    for p in bad {
        assert_eq!(Reminder::deserialize(&p.to_vec()).err(), Some(CorruptPayloadError));
    }
}

#[test]
fn serialized_reminder_from_the_clock() {
    let (due, p) = Reminder::create_serialized_reminder(3600, 77, s("lunch")).unwrap();
    let r = Reminder::deserialize(&p).unwrap();
    assert_eq!(due, r.created_at + 3600);
    assert_eq!(r.author, 77);
    assert_eq!(r.message, "lunch");
}

#[test]
fn queue_peeks_the_minimum() {
    let mut q = ReminderQueue::new();
    assert!(q.peek_earliest().is_none());
    q.insert(b"c".to_vec(), 30);
    q.insert(b"a".to_vec(), 10);
    q.insert(b"b".to_vec(), 20);
    assert_eq!(q.peek_earliest(), Some((b"a".to_vec(), 10)));
    q.remove(&b"a".to_vec());
    assert_eq!(q.peek_earliest(), Some((b"b".to_vec(), 20)));
    q.insert(b"d".to_vec(), 5);
    assert_eq!(q.peek_earliest(), Some((b"d".to_vec(), 5)));
    q.remove(&b"d".to_vec());
    q.remove(&b"b".to_vec());
    assert_eq!(q.peek_earliest(), Some((b"c".to_vec(), 30)));
    q.remove(&b"c".to_vec());
    assert!(q.peek_earliest().is_none());
}

#[test]
fn queue_ties_give_either_entry() {
    let mut q = ReminderQueue::new();
    q.insert(b"x".to_vec(), 7);
    q.insert(b"y".to_vec(), 7);
    q.insert(b"z".to_vec(), 9);
    let (p, d) = q.peek_earliest().unwrap();
    assert_eq!(d, 7);
    assert!(p == b"x".to_vec() || p == b"y".to_vec());
}

#[test]
fn queue_same_payload_is_one_entry() {
    let mut q = ReminderQueue::new();
    q.insert(b"p".to_vec(), 50);
    q.insert(b"p".to_vec(), 40);
    assert_eq!(q.peek_earliest(), Some((b"p".to_vec(), 40)));
    q.remove(&b"p".to_vec());
    assert!(q.peek_earliest().is_none());
}

#[test]
fn queue_remove_absent_is_a_no_op() {
    let mut q = ReminderQueue::new();
    q.remove(&b"nothing".to_vec());
    assert!(q.peek_earliest().is_none());
    q.insert(b"k".to_vec(), 1);
    q.remove(&b"other".to_vec());
    q.remove(&b"k".to_vec());
    q.remove(&b"k".to_vec());
    assert!(q.peek_earliest().is_none());
}

#[test]
fn decide_takes_only_due_entries() {
    assert!(matches!(decide(None, 100), DispatchStep::Wait));
    assert!(matches!(decide(Some((b"p".to_vec(), 101)), 100), DispatchStep::Wait));
    match decide(Some((b"p".to_vec(), 100)), 100) {
        DispatchStep::Take(p) => assert_eq!(p, b"p".to_vec()),
        DispatchStep::Wait => panic!("due entry not taken"),
    }
    assert!(matches!(decide(Some((b"p".to_vec(), 0)), 100), DispatchStep::Take(_)));
}

#[test]
fn open_payload_gives_recipient_and_body() {
    match open_payload(&reminder(1, 2, "body").serialize()) {
        CycleOutcome::Deliver { recipient, body } => {
            assert_eq!(recipient, 2);
            assert_eq!(body, "body");
        }
        other => panic!("unexpected {:?}", other),
    }
    assert!(matches!(open_payload(&b"{}".to_vec()), CycleOutcome::Corrupt));
}

#[test]
fn scenario_two_hours_is_delivered_once() {
    let t: u64 = 1_700_000_000;
    let mut q = ReminderQueue::new();
    let due = submit_at(&mut q, t, 2, s("hours"), 555, s("call mom")).ok().unwrap();
    assert_eq!(due, t + 7200);
    let (p, d) = q.peek_earliest().unwrap();
    assert_eq!(d, t + 7200);
    assert_eq!(p, reminder(t, 555, "call mom").serialize());
    assert!(matches!(dispatch_cycle(&mut q, t), CycleOutcome::Idle));
    assert!(matches!(dispatch_cycle(&mut q, t + 7199), CycleOutcome::Idle));
    assert!(q.peek_earliest().is_some());
    match dispatch_cycle(&mut q, t + 7200) {
        CycleOutcome::Deliver { recipient, body } => {
            assert_eq!(recipient, 555);
            assert_eq!(body, "call mom");
        }
        other => panic!("unexpected {:?}", other),
    }
    assert!(q.peek_earliest().is_none());
    assert!(matches!(dispatch_cycle(&mut q, t + 9000), CycleOutcome::Idle));
}

#[test]
fn scenario_unknown_unit_is_refused() {
    let mut q = ReminderQueue::new();
    q.insert(b"existing".to_vec(), 3);
    match submit_at(&mut q, 100, 1, s("fortnight"), 1, s("x")) {
        Err(SubmitError::InvalidTimeUnit(t)) => assert_eq!(t, "fortnight"),
        other => panic!("unexpected {:?}", other),
    }
    assert_eq!(q.peek_earliest(), Some((b"existing".to_vec(), 3)));
    q.remove(&b"existing".to_vec());
    assert!(q.peek_earliest().is_none());
}

#[test]
fn scenario_identical_submissions_deliver_at_most_once() {
    let mut q = ReminderQueue::new();
    let d1 = submit_at(&mut q, 500, 10, s("seconds"), 8, s("same")).ok().unwrap();
    let d2 = submit_at(&mut q, 500, 10, s("seconds"), 8, s("same")).ok().unwrap();
    assert_eq!(d1, 510);
    assert_eq!(d2, 510);
    let mut delivered = 0;
    for _ in 0..4 {
        match dispatch_cycle(&mut q, 600) {
            CycleOutcome::Deliver { recipient, body } => {
                assert_eq!((recipient, body.as_str()), (8, "same"));
                delivered += 1;
            }
            CycleOutcome::Idle => {}
            CycleOutcome::Corrupt => panic!("corrupt entry"),
        }
    }
    assert_eq!(delivered, 1);
}

#[test]
fn scenario_corrupt_entry_is_dropped() {
    let mut q = ReminderQueue::new();
    q.insert(b"{\"created_at\":1,\"author\":2,\"message\":\"unterminated}".to_vec(), 50);
    submit_at(&mut q, 40, 20, s("seconds"), 3, s("next")).ok().unwrap();
    assert!(matches!(dispatch_cycle(&mut q, 50), CycleOutcome::Corrupt));
    assert!(matches!(dispatch_cycle(&mut q, 50), CycleOutcome::Idle));
    match dispatch_cycle(&mut q, 60) {
        CycleOutcome::Deliver { recipient, body } => {
            assert_eq!(recipient, 3);
            assert_eq!(body, "next");
        }
        other => panic!("unexpected {:?}", other),
    }
}

#[test]
fn submit_overflow_leaves_queue_alone() {
    let mut q = ReminderQueue::new();
    assert!(matches!(submit_at(&mut q, u64::MAX - 10, 11, s("seconds"), 1, s("x")), Err(SubmitError::OffsetOverflow)));
    assert!(matches!(submit_at(&mut q, 0, u64::MAX, s("days"), 1, s("x")), Err(SubmitError::OffsetOverflow)));
    assert!(q.peek_earliest().is_none());
    assert_eq!(submit_at(&mut q, u64::MAX - 10, 10, s("seconds"), 1, s("x")).ok(), Some(u64::MAX));
}

#[test]
fn submit_with_the_clock() {
    let mut q = ReminderQueue::new();
    let due = submit(&mut q, 1, s("minute"), 4, s("soon")).ok().unwrap();
    let (p, d) = q.peek_earliest().unwrap();
    assert_eq!(d, due);
    let r = Reminder::deserialize(&p).unwrap();
    assert_eq!(due, r.created_at + 60);
    assert_eq!((r.author, r.message.as_str()), (4, "soon"));
    assert!(matches!(submit(&mut q, 1, s("fortnight"), 4, s("x")), Err(SubmitError::InvalidTimeUnit(_))));
    assert!(matches!(submit(&mut q, u64::MAX, s("minutes"), 4, s("x")), Err(SubmitError::OffsetOverflow)));
    assert!(matches!(submit(&mut q, u64::MAX, s("seconds"), 4, s("x")), Err(SubmitError::OffsetOverflow)));
    assert_eq!(q.peek_earliest(), Some((p, d)));
}
