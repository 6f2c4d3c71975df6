use matrix_commander_ng::dm_rooms::{
    dm_partner, joined_dm_rooms, print_dm_room, wants_user, DmPartner, RoomMembers,
};
use matrix_commander_ng::listen::{
    are_room_ids, augment_event_json, handle_event, listen_all, listen_tail, listen_tail_raw,
    print_event_at, print_event_line, skips, tail_limit, tail_rooms, EventBody, ListenContext,
    RawLine, ReceivedEvent, RoomMessages, Tail, TailFound,
};
use matrix_commander_ng::permission::{
    find_level, has_permission, level_of_user, needed_level, needed_level_for, permission_queries,
    print_permission, query_room_valid, PermissionQuery,
};
use matrix_commander_ng::room_info::{Member, PowerLevels};
use matrix_commander_ng::{Error, Output};

fn list(parts: &[&str]) -> Vec<String> {
    parts.iter().map(|p| p.to_string()).collect()
}

fn levels() -> PowerLevels {
    PowerLevels {
        ban: 51,
        invite: 0,
        kick: 52,
        redact: 53,
        state_default: 54,
        events_default: 5,
        users_default: 6,
        notifications_room: 55,
        users: vec![("@admin:s".to_string(), 100)],
        events: vec![("m.room.name".to_string(), 56)],
    }
}

#[test]
fn levels_are_looked_up() {
    let pl = levels();
    assert_eq!(find_level(&pl.users, "@admin:s"), Some(100));
    assert_eq!(find_level(&pl.users, "@u:s"), None);
    assert_eq!(level_of_user(&pl, "@admin:s"), 100);
    assert_eq!(level_of_user(&pl, "@u:s"), 6);
    for (what, level) in [
        ("ban", 51),
        ("invite", 0),
        ("kick", 52),
        ("redact", 53),
        ("notifications", 55),
        ("events_default", 5),
        ("state_default", 54),
        ("users_default", 6),
        ("m.room.name", 56),
        ("m.room.topic", 5),
        ("org.example.custom", 5),
    ] {
        assert_eq!(needed_level(&pl, what), level, "{what}");
    }
    assert_eq!(needed_level_for(&pl, "x", "m.room.name"), 56);
    assert_eq!(needed_level_for(&pl, "ban", "m.room.name"), 51);
}

#[test]
fn types_of_events_have_one_name() {
    let mut pl = levels();
    pl.events.push(("m.room.topic".to_string(), 7));
    pl.events.push(("m.call.answer".to_string(), 8));
    assert_eq!(needed_level(&pl, "m.room.topic"), 7);
    assert_eq!(needed_level(&pl, "m.call.answer"), 8);
    // The stable name of an event is looked for where the unstable one is given.
    pl.events.push(("m.call.sdp_stream_metadata_changed".to_string(), 9));
    pl.events.push(("org.matrix.call.sdp_stream_metadata_changed".to_string(), 10));
    assert_eq!(needed_level(&pl, "org.matrix.call.sdp_stream_metadata_changed"), 9);
}

#[test]
fn queries_come_in_pairs() {
    let q = permission_queries(&list(&["\\!r:s", " ban ", "x", "kick"])).unwrap();
    assert_eq!(q.len(), 2);
    assert_eq!((q[0].room_id.as_str(), q[0].permission.as_str()), ("!r:s", "ban"));
    assert!(query_room_valid(&q[0]));
    assert!(!query_room_valid(&q[1]));
    assert!(matches!(permission_queries(&list(&["!r:s"])), Err(Error::HasPermissionFailed)));
}

fn query(what: &str) -> PermissionQuery {
    PermissionQuery { room_id: "!r:s".to_string(), permission: what.to_string() }
}

#[test]
fn permissions_are_printed() {
    let pl = Some(levels());
    assert_eq!(
        print_permission(&query("ban"), "@u:s", &pl, Output::Text, "|"),
        "False|@u:s|!r:s|ban\n"
    );
    assert_eq!(
        print_permission(&query("ban"), "@admin:s", &pl, Output::Text, "|"),
        "True|@admin:s|!r:s|ban\n"
    );
    assert_eq!(
        print_permission(&query("ban"), "@u:s", &pl, Output::JsonSpec, "|"),
        "{\"has_permission\":false,\"user_id\":\"@u:s\",\"room_id\":\"!r:s\",\
         \"permission_type\":\"ban\",\"user_power_level\":6,\"required_power_level\":51}\n"
    );
    assert_eq!(
        print_permission(&query("ban"), "@u:s", &None, Output::Text, "|"),
        "Error|@u:s|!r:s|ban\n"
    );
    assert_eq!(print_permission(&query("ban"), "@u:s", &None, Output::Json, "|"), "");
}

#[test]
fn permissions_of_a_user() {
    let queries = vec![query("invite"), query("ban")];
    let (out, r) =
        has_permission(&queries, "@u:s", &vec![Some(levels()), Some(levels())], Output::Text, "|");
    assert_eq!(out, "True|@u:s|!r:s|invite\nFalse|@u:s|!r:s|ban\n");
    assert!(r.is_ok());
    let (out, r) = has_permission(&queries, "@u:s", &vec![None, Some(levels())], Output::Text, "|");
    assert_eq!(out, "Error|@u:s|!r:s|invite\nFalse|@u:s|!r:s|ban\n");
    assert!(matches!(r, Err(Error::HasPermissionFailed)));
}

fn member(id: &str, name: &str) -> Member {
    Member {
        user_id: id.to_string(),
        display_name: Some(name.to_string()),
        avatar_url: None,
        power_level: None,
    }
}

fn dm(id: &str, a: &str, b: &str) -> RoomMembers {
    RoomMembers { room_id: id.to_string(), members: Some(vec![member(a, "A"), member(b, "B")]) }
}

#[test]
fn partners_in_direct_rooms() {
    assert!(matches!(dm_partner(&dm("!1:s", "@me:s", "@u:s"), "@me:s"), DmPartner::With(u) if u == "@u:s"));
    assert!(matches!(dm_partner(&dm("!1:s", "@u:s", "@me:s"), "@me:s"), DmPartner::With(u) if u == "@u:s"));
    assert!(matches!(dm_partner(&dm("!1:s", "@u:s", "@v:s"), "@me:s"), DmPartner::Unknown));
    let none = RoomMembers { room_id: "!1:s".to_string(), members: None };
    assert!(matches!(dm_partner(&none, "@me:s"), DmPartner::Unknown));
    let alone = RoomMembers { room_id: "!1:s".to_string(), members: Some(vec![]) };
    assert!(matches!(dm_partner(&alone, "@me:s"), DmPartner::Other));
    assert!(wants_user(&list(&[" * "]), "@u:s"));
    assert!(wants_user(&list(&["x", " @u:s"]), "@u:s"));
    assert!(!wants_user(&list(&[]), "@u:s"));
}

#[test]
fn direct_rooms_in_the_order_of_users() {
    let rooms = vec![
        dm("!1:s", "@me:s", "@z:s"),
        dm("!2:s", "@a:s", "@me:s"),
        dm("!3:s", "@me:s", "@z:s"),
        RoomMembers { room_id: "!4:s".to_string(), members: Some(vec![member("@me:s", "A")]) },
    ];
    let (out, r) = joined_dm_rooms(&list(&["*"]), &rooms, "@me:s", Output::Text, "|");
    assert_eq!(
        out,
        "@a:s|!2:s|@a:s|A||@me:s|B|\n@z:s|!1:s|@me:s|A||@z:s|B|\n@z:s|!3:s|@me:s|A||@z:s|B|\n"
    );
    assert!(r.is_ok());
    let (out, _) = joined_dm_rooms(&list(&["@a:s"]), &rooms, "@me:s", Output::Json, "|");
    assert_eq!(
        out,
        "{\"user_id\":\"@a:s\",\"room_id\":\"!2:s\",\"members\":[\
         {\"user_id\":\"@a:s\",\"display_name\":\"A\",\"avatar_url\":\"\"},\
         {\"user_id\":\"@me:s\",\"display_name\":\"B\",\"avatar_url\":\"\"}]}\n"
    );
    let broken = vec![RoomMembers { room_id: "!1:s".to_string(), members: None }];
    let (out, r) = joined_dm_rooms(&list(&["*"]), &broken, "@me:s", Output::Text, "|");
    assert_eq!(out, "");
    assert!(matches!(r, Err(Error::JoinedDmRoomsFailed)));
    // White space at the end of a line is not printed.
    assert_eq!(
        print_dm_room("@u:s", "!1:s", &vec![member("@u:s", "")], Output::Text, " "),
        "@u:s !1:s @u:s\n"
    );
}

fn context(listen_self: bool, output: Output) -> ListenContext {
    ListenContext { whoami: "@me:s".to_string(), listen_self, output, print_event_id: false }
}

fn event(sender: &str, body: EventBody) -> ReceivedEvent {
    ReceivedEvent {
        room_id: "!r:s".to_string(),
        room_nick: "Room".to_string(),
        sender: sender.to_string(),
        sender_nick: "Nick".to_string(),
        timestamp: 1_700_000_000_000,
        event_id: "$e".to_string(),
        body,
        content: "{\"body\":\"Hi\"}".to_string(),
    }
}

fn message(sender: &str) -> ReceivedEvent {
    event(sender, EventBody::Message("Hi".to_string()))
}

#[test]
fn own_events_are_skipped() {
    assert!(skips("@me:s", &context(false, Output::Text)));
    assert!(!skips("@me:s", &context(true, Output::Text)));
    assert!(!skips("@u:s", &context(false, Output::Text)));
    assert_eq!(handle_event(&message("@me:s"), &context(false, Output::Text)), "");
    assert_eq!(handle_event(&message("@me:s"), &context(false, Output::Json)), "");
    assert_ne!(handle_event(&message("@me:s"), &context(true, Output::Text)), "");
}

#[test]
fn events_as_lines() {
    let head = "Message received for room Room [!r:s] | sender Nick [@u:s] | now";
    assert_eq!(print_event_line(&message("@u:s"), "now", false), format!("{head} | Hi\n"));
    assert_eq!(print_event_line(&message("@u:s"), "now", true), format!("{head} | $e | Hi\n"));
    assert_eq!(
        print_event_line(&event("@u:s", EventBody::RedactedMessage), "now", false),
        format!("{head} | Received redacted event: sender: @u:s\n")
    );
    assert_eq!(
        print_event_line(&event("@u:s", EventBody::Redaction), "now", false),
        format!("{head} | Received redaction event: sender: @u:s\n")
    );
    assert_eq!(
        print_event_line(&event("@u:s", EventBody::Undecryptable), "now", false),
        format!("{head} | Encrypted message could not be decrypted\n")
    );
}

#[test]
fn events_as_json() {
    assert_eq!(
        augment_event_json("{\"a\":1}", "$e", "@u:s", 7, "!r:s"),
        "{\"event_id\":\"$e\",\"sender\":\"@u:s\",\"origin_server_ts\":7,\"room_id\":\"!r:s\",\
         \"a\":1}"
    );
    for (content, end) in [("{}", "}"), ("{ }", " }")] {
        assert_eq!(
            augment_event_json(content, "$e", "@a:s", 1, "!r:s"),
            format!(
                "{{\"event_id\":\"$e\",\"sender\":\"@a:s\",\"origin_server_ts\":1,\
                 \"room_id\":\"!r:s\"{end}"
            )
        );
    }
    assert_eq!(augment_event_json("[1]", "$e", "@u:s", 7, "!r:s"), "[1]");
    let line = "{\"event_id\":\"$e\",\"sender\":\"@u:s\",\"origin_server_ts\":1700000000000,\
                \"room_id\":\"!r:s\",\"body\":\"Hi\"}\n";
    assert_eq!(print_event_at(&message("@u:s"), &context(false, Output::Json), "now"), line);
    assert_eq!(handle_event(&message("@u:s"), &context(false, Output::JsonMax)), line);
}

#[test]
fn the_tail_of_a_room_is_in_order_of_time() {
    // Events come with the newest first.
    let events = vec![
        event("@u:s", EventBody::Message("new".to_string())),
        message("@me:s"),
        event("@v:s", EventBody::Message("old".to_string())),
    ];
    let out = listen_tail(&events, &context(false, Output::Text));
    let lines: Vec<&str> = out.lines().collect();
    assert_eq!(lines.len(), 2);
    assert!(lines[0].ends_with("| old"));
    assert!(lines[1].ends_with("| new"));
    // A redacted message is shown whoever sent it.
    let events = vec![event("@me:s", EventBody::RedactedMessage)];
    assert_eq!(listen_tail(&events, &context(false, Output::Text)).lines().count(), 1);
    let raw = vec![
        RawLine { json: "{\"n\":3}".to_string(), sender: Some("@u:s".to_string()) },
        RawLine { json: "{\"n\":2}".to_string(), sender: Some("@me:s".to_string()) },
        RawLine { json: "{\"n\":1}".to_string(), sender: None },
    ];
    assert_eq!(listen_tail_raw(&raw, &context(false, Output::Json)), "{\"n\":1}\n{\"n\":3}\n");
    // The same messages are printed alike once more.
    assert_eq!(
        listen_tail(&events, &context(false, Output::Text)),
        listen_tail(&events, &context(false, Output::Text))
    );
}

fn found(texts: &[&str]) -> TailFound {
    let events = texts.iter().map(|t| event("@u:s", EventBody::Message(t.to_string()))).collect();
    let raw = texts
        .iter()
        .map(|t| RawLine { json: format!("\"{t}\""), sender: Some("@u:s".to_string()) })
        .collect();
    TailFound::Messages(RoomMessages { events, raw })
}

#[test]
fn the_tails_of_all_rooms_are_shown() {
    let rooms = list(&["!a:s", "bad", "!b:s"]);
    let call = || {
        let ctx = context(false, Output::Json);
        let mut tail = Tail::start(&rooms, 2).ok().unwrap();
        assert_eq!(tail.next_room(), Some(("!a:s".to_string(), 2)));
        let mut out = tail.report(&found(&["2", "1"]), &ctx);
        assert_eq!(tail.next_room(), Some(("!b:s".to_string(), 2)));
        out.push_str(&tail.report(&found(&["3"]), &ctx));
        assert_eq!(tail.next_room(), None);
        assert_eq!(tail.report(&found(&["4"]), &ctx), "");
        assert!(tail.finish().is_ok());
        out
    };
    assert_eq!(call(), "\"1\"\n\"2\"\n\"3\"\n");
    assert_eq!(call(), call());
    let ctx = context(false, Output::Text);
    let mut tail = Tail::start(&rooms, 2).ok().unwrap();
    let out = tail.report(&found(&["new", "old"]), &ctx);
    let lines: Vec<&str> = out.lines().collect();
    assert!(lines.len() == 2 && lines[0].ends_with("| old") && lines[1].ends_with("| new"));
}

#[test]
fn the_first_room_without_messages_ends_the_tail() {
    let ctx = context(false, Output::Text);
    for (found, failed) in [(TailFound::UnknownRoom, false), (TailFound::Failed, true)] {
        let mut tail = Tail::start(&list(&["!a:s", "!b:s"]), 2).ok().unwrap();
        assert_eq!(tail.report(&found, &ctx), "");
        assert_eq!(tail.next_room(), None);
        match tail.finish() {
            Err(Error::ListenFailed) => assert!(failed),
            Err(Error::InvalidRoom) => assert!(!failed),
            _ => panic!(),
        }
    }
    assert!(matches!(Tail::start(&list(&[]), 2), Err(Error::MissingRoom)));
    let none = Tail::start(&list(&["bad"]), u64::MAX).ok().unwrap();
    assert!(none.next_room().is_none() && none.finish().is_ok());
    let many = Tail::start(&list(&["!a:s"]), u64::MAX).ok().unwrap();
    assert!(many.next_room().is_none());
    assert!(matches!(many.finish(), Err(Error::InvalidRoom)));
}

#[test]
fn rooms_to_listen_to() {
    assert_eq!(tail_rooms(&list(&["!a:s", "bad", "!b:s"])).unwrap(), list(&["!a:s", "!b:s"]));
    assert_eq!(tail_rooms(&list(&["bad"])).unwrap(), list(&[]));
    assert!(matches!(tail_rooms(&list(&[])), Err(Error::MissingRoom)));
    assert!(are_room_ids(&list(&["!a:s"])));
    assert!(!are_room_ids(&list(&["!a:s", "bad"])));
    assert_eq!(listen_all(&list(&["!a:s"])).unwrap(), list(&["!a:s"]));
    assert!(matches!(listen_all(&list(&[])), Err(Error::MissingRoom)));
    assert_eq!(tail_limit(10).unwrap(), 10);
    assert!(matches!(tail_limit(u64::MAX), Err(Error::InvalidRoom)));
}
