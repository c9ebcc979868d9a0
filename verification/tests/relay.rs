use tcp_server::bus::Bus;
use tcp_server::bus::RecvOutcome;
use tcp_server::directory::InMemoryDB;
use tcp_server::message::format_activity;
use tcp_server::message::format_user_list;
use tcp_server::session::greeting_line;
use tcp_server::session::session_step;
use tcp_server::session::SessionAction;
use tcp_server::session::SessionEvent;
use tcp_server::session::SessionState;
use tcp_server::text::is_blank_line;
use tcp_server::text::trim_line;
use tcp_server::types::Activity;
use tcp_server::types::User;
use tcp_server::user::create_user;

fn mk_user(id: &str, name: &str) -> User {
    User { id: id.to_string(), screen_name: name.to_string(), uuid: id.to_string() }
}

fn expect_activity(r: RecvOutcome) -> Activity {
    match r {
        RecvOutcome::Activity(a) => a,
        RecvOutcome::Lagged(n) => panic!("expected an activity, got a lag of {}", n),
        RecvOutcome::Pending => panic!("expected an activity, got pending"),
        RecvOutcome::Closed => panic!("expected an activity, got closed"),
    }
}

fn expect_pending(r: RecvOutcome) {
    assert!(matches!(r, RecvOutcome::Pending));
}

#[test]
fn bus_delivers_in_publish_order() {
    let mut bus = Bus::new(10);
    let mut sub = bus.subscribe();
    bus.publish(Activity::Join(mk_user("1", "Alice")));
    bus.publish(Activity::Message("Alice".to_string(), "hi".to_string()));
    bus.publish(Activity::Leave(mk_user("1", "Alice")));

    let a1 = expect_activity(bus.receive(&mut sub));
    assert_eq!(format_activity(&a1).as_str(), "JOIN: Alice");
    let a2 = expect_activity(bus.receive(&mut sub));
    assert_eq!(format_activity(&a2).as_str(), "MESSAGE: Alice hi");
    let a3 = expect_activity(bus.receive(&mut sub));
    assert_eq!(format_activity(&a3).as_str(), "LEAVE: Alice");
    expect_pending(bus.receive(&mut sub));
}

#[test]
fn late_subscriber_misses_earlier_activities() {
    let mut bus = Bus::new(10);
    bus.publish(Activity::Join(mk_user("1", "Alice")));
    bus.publish(Activity::Join(mk_user("2", "Bob")));
    let mut sub = bus.subscribe();
    expect_pending(bus.receive(&mut sub));
    bus.publish(Activity::Message("Bob".to_string(), "late".to_string()));
    let a = expect_activity(bus.receive(&mut sub));
    assert_eq!(format_activity(&a).as_str(), "MESSAGE: Bob late");
    expect_pending(bus.receive(&mut sub));
}

#[test]
fn lag_signal_counts_dropped_and_resumes_after_drop() {
    let mut bus = Bus::new(2);
    let mut sub = bus.subscribe();
    for i in 1..=5 {
        bus.publish(Activity::Message("n".to_string(), format!("m{}", i)));
    }
    // Five published, two retained: the first receive reports the three
    // dropped entries, the next yields the first entry after the drop.
    match bus.receive(&mut sub) {
        RecvOutcome::Lagged(n) => assert_eq!(n, 3),
        _ => panic!("expected a lag signal"),
    }
    let a = expect_activity(bus.receive(&mut sub));
    assert_eq!(format_activity(&a).as_str(), "MESSAGE: n m4");
    let a = expect_activity(bus.receive(&mut sub));
    assert_eq!(format_activity(&a).as_str(), "MESSAGE: n m5");
    expect_pending(bus.receive(&mut sub));
}

#[test]
fn publish_counts_subscribers_and_zero_is_fine() {
    let mut bus = Bus::new(4);
    assert_eq!(bus.publish(Activity::Join(mk_user("1", "A"))), 0);
    let _s1 = bus.subscribe();
    let _s2 = bus.subscribe();
    assert_eq!(bus.publish(Activity::Join(mk_user("2", "B"))), 2);
    bus.unsubscribe();
    assert_eq!(bus.publish(Activity::Join(mk_user("3", "C"))), 1);
}

#[test]
fn closed_bus_drains_then_reports_closed() {
    let mut bus = Bus::new(4);
    let mut sub = bus.subscribe();
    bus.publish(Activity::Join(mk_user("1", "Alice")));
    bus.close();
    let a = expect_activity(bus.receive(&mut sub));
    assert_eq!(format_activity(&a).as_str(), "JOIN: Alice");
    assert!(matches!(bus.receive(&mut sub), RecvOutcome::Closed));
}

#[test]
fn snapshot_excludes_only_the_given_identifier() {
    let bus = Bus::new(16);
    let mut db = InMemoryDB::new(bus);
    db.on_user_join(mk_user("1", "Alice"));
    db.on_user_join(mk_user("2", "Bob"));
    db.on_user_join(mk_user("3", "Carol"));

    let ex = "2".to_string();
    let snap = db.snapshot_roster(&ex);
    let names: Vec<&str> = snap.iter().map(|u| u.screen_name.as_str()).collect();
    assert_eq!(names, vec!["Alice", "Carol"]);

    let absent = "nobody".to_string();
    let all = db.snapshot_roster(&absent);
    let names: Vec<&str> = all.iter().map(|u| u.screen_name.as_str()).collect();
    assert_eq!(names, vec!["Alice", "Bob", "Carol"]);
}

#[test]
fn get_all_users_reflects_joins_and_leaves() {
    let bus = Bus::new(16);
    let mut db = InMemoryDB::new(bus);
    db.on_user_join(mk_user("1", "Alice"));
    db.on_user_join(mk_user("2", "Bob"));
    let users = db.get_all_users();
    assert_eq!(users.len(), 2);
    db.on_user_leave(mk_user("1", "Alice"));
    let users = db.get_all_users();
    assert_eq!(users.len(), 1);
    assert_eq!(users[0].screen_name.as_str(), "Bob");
}

#[test]
fn leave_of_absent_user_keeps_roster_but_still_announces() {
    let bus = Bus::new(16);
    let mut db = InMemoryDB::new(bus);
    db.on_user_join(mk_user("1", "Alice"));
    let mut sub = db.subscribe();
    db.on_user_leave(mk_user("9", "Ghost"));
    assert_eq!(db.get_all_users().len(), 1);
    let a = expect_activity(db.receive(&mut sub));
    assert_eq!(format_activity(&a).as_str(), "LEAVE: Ghost");
}

#[test]
fn two_clients_full_exchange() {
    let bus = Bus::new(100);
    let mut db = InMemoryDB::new(bus);

    // User A connects: joined, then subscribed, then greeted.
    let a = mk_user("a", "Alice");
    db.on_user_join(a.clone());
    let mut sub_a = db.subscribe();
    assert_eq!(greeting_line(&db, &a.uuid).as_str(), "USERS: No other users connected");

    // User B connects the same way; its greeting lists only A.
    let b = mk_user("b", "Bob");
    db.on_user_join(b.clone());
    let mut sub_b = db.subscribe();
    assert_eq!(greeting_line(&db, &b.uuid).as_str(), "USERS: Alice");

    // A sees B's join as a broadcast; B does not see its own join.
    let ev = expect_activity(db.receive(&mut sub_a));
    assert_eq!(format_activity(&ev).as_str(), "JOIN: Bob");
    expect_pending(db.receive(&mut sub_b));

    // B sends a line; the session trims and submits it, and A receives
    // the formatted message.
    let (state, action) = session_step(
        SessionState::Active,
        SessionEvent::LineRead("hello\n".to_string()),
    );
    assert_eq!(state, SessionState::Active);
    match action {
        SessionAction::Submit(text) => {
            assert_eq!(text.as_str(), "hello");
            db.send_message(b.clone(), text, 1_700_000_000);
        }
        other => panic!("expected a submit action, got {:?}", other),
    }
    let ev = expect_activity(db.receive(&mut sub_a));
    assert_eq!(format_activity(&ev).as_str(), "MESSAGE: Bob hello");

    // B also receives the message it sent.
    let ev = expect_activity(db.receive(&mut sub_b));
    assert_eq!(format_activity(&ev).as_str(), "MESSAGE: Bob hello");

    // B disconnects; A is told.
    db.on_user_leave(b.clone());
    db.unsubscribe();
    let ev = expect_activity(db.receive(&mut sub_a));
    assert_eq!(format_activity(&ev).as_str(), "LEAVE: Bob");
    expect_pending(db.receive(&mut sub_a));
}

#[test]
fn blank_line_produces_no_activity() {
    let bus = Bus::new(16);
    let mut db = InMemoryDB::new(bus);
    let a = mk_user("a", "Alice");
    db.on_user_join(a.clone());
    let mut sub = db.subscribe();

    // The session discards a bare newline without submitting anything.
    let (state, action) = session_step(
        SessionState::Active,
        SessionEvent::LineRead("\n".to_string()),
    );
    assert_eq!(state, SessionState::Active);
    assert!(matches!(action, SessionAction::Nothing));

    // And even a direct blank submission is a no-op in the directory.
    db.send_message(a.clone(), " \t \r\n".to_string(), 5);
    expect_pending(db.receive(&mut sub));
}

#[test]
fn overflowed_idle_subscriber_wakes_to_a_lag_signal() {
    let bus = Bus::new(3);
    let mut db = InMemoryDB::new(bus);
    let a = mk_user("a", "Alice");
    db.on_user_join(a.clone());
    let mut sub = db.subscribe();
    // The subscriber does not drain while plenty is published.
    for i in 0..9 {
        db.send_message(a.clone(), format!("line {}", i), i);
    }
    // On resuming, the first thing it sees is a positive lag count, not
    // a stale message.
    match db.receive(&mut sub) {
        RecvOutcome::Lagged(n) => assert!(n > 0),
        other => panic!("expected a lag signal first, got {:?}", format_activity_or_tag(other)),
    }
}

fn format_activity_or_tag(r: RecvOutcome) -> String {
    match r {
        RecvOutcome::Activity(a) => format_activity(&a),
        RecvOutcome::Lagged(n) => format!("lagged {}", n),
        RecvOutcome::Pending => "pending".to_string(),
        RecvOutcome::Closed => "closed".to_string(),
    }
}

#[test]
fn session_trims_input_before_submitting() {
    let (_, action) = session_step(
        SessionState::Active,
        SessionEvent::LineRead("  hi there \t\r\n".to_string()),
    );
    match action {
        SessionAction::Submit(text) => assert_eq!(text.as_str(), "hi there"),
        other => panic!("expected a submit action, got {:?}", other),
    }
}

#[test]
fn session_formats_received_activity() {
    let (state, action) = session_step(
        SessionState::Active,
        SessionEvent::Bus(RecvOutcome::Activity(Activity::Join(mk_user("1", "Alice")))),
    );
    assert_eq!(state, SessionState::Active);
    match action {
        SessionAction::WriteLine(line) => assert_eq!(line.as_str(), "JOIN: Alice"),
        other => panic!("expected a write action, got {:?}", other),
    }
}

#[test]
fn session_survives_lag_and_stops_on_failures() {
    let (state, action) = session_step(
        SessionState::Active,
        SessionEvent::Bus(RecvOutcome::Lagged(7)),
    );
    assert_eq!(state, SessionState::Active);
    assert!(matches!(action, SessionAction::Nothing));

    for ev in [
        SessionEvent::InputEnded,
        SessionEvent::ReadFailed,
        SessionEvent::WriteFailed,
        SessionEvent::Bus(RecvOutcome::Closed),
    ] {
        let (state, action) = session_step(SessionState::Active, ev);
        assert_eq!(state, SessionState::Closing);
        assert!(matches!(action, SessionAction::Stop));
    }

    let (state, action) = session_step(
        SessionState::Closing,
        SessionEvent::LineRead("too late".to_string()),
    );
    assert_eq!(state, SessionState::Terminated);
    assert!(matches!(action, SessionAction::Stop));
}

#[test]
fn formatter_exact_lines() {
    assert_eq!(
        format_activity(&Activity::Join(mk_user("1", "Alice"))).as_str(),
        "JOIN: Alice"
    );
    assert_eq!(
        format_activity(&Activity::Leave(mk_user("1", "Alice"))).as_str(),
        "LEAVE: Alice"
    );
    assert_eq!(
        format_activity(&Activity::Message("Alice".to_string(), "hi you".to_string())).as_str(),
        "MESSAGE: Alice hi you"
    );
    assert_eq!(
        format_user_list(&Vec::new()).as_str(),
        "USERS: No other users connected"
    );
    let users = vec![mk_user("1", "Alice"), mk_user("2", "Bob"), mk_user("3", "Carol")];
    assert_eq!(format_user_list(&users).as_str(), "USERS: Alice, Bob, Carol");
}

#[test]
fn trim_and_blank_helpers() {
    assert_eq!(trim_line("  a b \r\n").as_str(), "a b");
    assert_eq!(trim_line("").as_str(), "");
    assert_eq!(trim_line(" \t\r\n").as_str(), "");
    assert_eq!(trim_line("  héllo wörld ✨ \n").as_str(), "héllo wörld ✨");
    assert!(is_blank_line(""));
    assert!(is_blank_line(" \t\r\n"));
    assert!(!is_blank_line(" x "));
}

#[test]
fn greeting_state_already_relays() {
    let (state, action) = session_step(
        SessionState::Greeting,
        SessionEvent::Bus(RecvOutcome::Activity(Activity::Join(mk_user("1", "Alice")))),
    );
    assert_eq!(state, SessionState::Active);
    match action {
        SessionAction::WriteLine(line) => assert_eq!(line.as_str(), "JOIN: Alice"),
        other => panic!("expected a write action, got {:?}", other),
    }
}

#[test]
fn created_identities_are_keyed_and_fresh() {
    let u1 = create_user();
    let u2 = create_user();
    assert_eq!(u1.id, u1.uuid);
    assert_eq!(u1.id.chars().count(), 36);
    assert_ne!(u1.id, u2.id);
    assert!(!u1.screen_name.is_empty());
}
