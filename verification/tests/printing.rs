use matrix_commander_ng::account::{
    address_of, devices, get_avatar_url, get_display_name, get_profile, mxc_address, obfuscate,
    print_avatar_url, print_device, print_masterkey, print_profile, print_set_avatar, show_millis,
    show_millis_as, split_millis, text_or_none, to_opt, Device,
};
use matrix_commander_ng::json::{
    array_of, array_of_texts, json_nonempty, json_opt_string, json_opt_text, print_json,
    print_line, Fields, Json,
};
use matrix_commander_ng::room_info::{
    comes_before, display_name, get_room_info, print_room_info, rooms_to_show, Member, PowerLevels,
    RoomInfo,
};
use matrix_commander_ng::rooms::{
    dedup, list_contains, print_resolved_alias, print_room_members, print_room_state,
    print_room_visibility, print_rooms, RoomState,
};
use matrix_commander_ng::{Error, Output};

const SEP: &str = "    ";

fn list(parts: &[&str]) -> Vec<String> {
    parts.iter().map(|p| p.to_string()).collect()
}

fn some(t: &str) -> Option<String> {
    Some(t.to_string())
}

fn sample() -> Json {
    let mut inner = Fields::new();
    inner.put_text("k", "v");
    let mut f = Fields::new();
    f.put_text("name", "a \"b\"");
    f.put("none", Json::Null);
    f.put("yes", Json::Bool(true));
    f.put("neg", Json::Int(-3));
    f.put("big", Json::Uint(u64::MAX));
    f.put("list", array_of(vec![Json::Text("x".to_string()), Json::Int(2)]));
    f.put("inner", inner.object());
    f.object()
}

#[test]
fn json_is_one_line() {
    let line = "{\"name\":\"a \\\"b\\\"\",\"none\":null,\"yes\":true,\"neg\":-3,\
                \"big\":18446744073709551615,\"list\":[\"x\",2],\"inner\":{\"k\":\"v\"}}\n";
    assert_eq!(print_json(&sample(), Output::Json), line);
    assert_eq!(print_json(&sample(), Output::JsonMax), line);
    assert_eq!(print_line(&sample()), line);
    assert_eq!(print_json(&sample(), Output::JsonSpec), "");
    assert_eq!(print_json(&Json::Bool(true), Output::Json), "true\n");
}

#[test]
fn json_as_plain_text() {
    assert_eq!(
        print_json(&sample(), Output::Text),
        "name:    a \"b\"    none:        yes:    true    neg:    -3    \
         big:    18446744073709551615    list:    [x, 2]    inner:k:    v\n\n"
    );
    assert_eq!(print_json(&Json::Bool(true), Output::Text), "");
    assert_eq!(print_json(&Fields::new().object(), Output::Text), "\n");
}

#[test]
fn json_members() {
    let doc = sample();
    assert_eq!(doc.get_text("name"), Some("a \"b\""));
    assert_eq!(doc.get_text("yes"), None);
    assert_eq!(doc.get_text("missing"), None);
    assert!(matches!(doc.get("neg"), Some(Json::Int(-3))));
    assert!(doc.text().is_none());
    assert!(Json::Null.get("x").is_none());
    assert_eq!(print_line(&array_of_texts(&list(&["a", "b"]))), "[\"a\",\"b\"]\n");
    assert_eq!(print_line(&json_opt_text(Some("a"))), "\"a\"\n");
    assert_eq!(print_line(&json_opt_text(None)), "null\n");
    assert_eq!(print_line(&json_opt_string(&some("a"))), "\"a\"\n");
    assert_eq!(print_line(&json_opt_string(&None)), "null\n");
    assert_eq!(print_line(&json_nonempty("")), "null\n");
    assert_eq!(print_line(&json_nonempty("a")), "\"a\"\n");
}

#[test]
fn times_are_split_into_seconds_and_nanoseconds() {
    assert_eq!(split_millis(1_700_000_000_123), (1_700_000_000, 123_000_000));
    assert_eq!(split_millis(999), (0, 999_000_000));
    assert_eq!(show_millis_as(5, some("then")), "then");
    assert_eq!(show_millis_as(5, None), "5");
}

#[test]
fn times_are_shown_in_the_local_zone() {
    // 2023-11-14 22:13:20 UTC, and the same instant at most a day away elsewhere.
    let shown = show_millis(1_700_000_000_000);
    assert_eq!(shown.len(), 19);
    assert!(shown.starts_with("2023-11-1"));
    assert_eq!(&shown[10..11], " ");
    assert!(shown.ends_with(":20"));
    let local = chrono::DateTime::from_timestamp(1_700_000_000, 0).unwrap();
    let local = local.with_timezone(&chrono::Local);
    assert_eq!(shown, local.format("%Y-%m-%d %H:%M:%S").to_string());
    assert_eq!(show_millis(8_210_266_876_799_999).len(), 22);
    assert_eq!(show_millis(8_210_266_876_800_000), "8210266876800000");
    assert_eq!(show_millis(u64::MAX), u64::MAX.to_string());
}

fn device() -> Device {
    Device {
        device_id: "DEV".to_string(),
        display_name: some("phone"),
        last_seen_ip: None,
        last_seen_ts: None,
    }
}

#[test]
fn devices_one_by_one() {
    assert_eq!(print_device(&device(), "now", Output::Text, SEP), "DEV    phone        now\n");
    assert_eq!(
        print_device(&device(), "now", Output::Json, SEP),
        "{\"device_id\":\"DEV\",\"display_name\":\"phone\",\"last_seen_ip\":\"\",\
         \"last_seen_ts\":\"now\"}\n"
    );
    assert_eq!(
        devices(&vec![device(), device()], Output::Text, "|"),
        "DEV|phone||\nDEV|phone||\n"
    );
    assert_eq!(devices(&vec![], Output::Text, "|"), "");
    let mut seen = device();
    seen.last_seen_ts = Some(1_700_000_000_000);
    assert!(devices(&vec![seen], Output::Text, "|").starts_with("DEV|phone||2023-11-1"));
}

#[test]
fn avatars_have_an_address() {
    let http = "https://s.org/_matrix/media/r0/download/s.org/key";
    assert_eq!(mxc_address("mxc://s.org/key", "https://matrix.s.org"), http);
    assert_eq!(mxc_address("key", "https://matrix.s.org"), "");
    assert_eq!(
        address_of(&Some(("s".to_string(), "m".to_string())), "http://h:8008/"),
        "http://s/_matrix/media/r0/download/s/m"
    );
    assert_eq!(address_of(&None, "http://h"), "");
    assert_eq!(
        get_avatar_url("mxc://s.org/key", "https://matrix.s.org", Output::Text, SEP),
        format!("mxc://s.org/key    {http}\n")
    );
    assert_eq!(
        print_avatar_url("m", "h", Output::Json, SEP),
        "{\"avatar_url\":\"m\",\"avatar_http\":\"h\"}\n"
    );
}

#[test]
fn account_answers() {
    assert_eq!(get_display_name("@u:s", "Joe", Output::Text, SEP), "@u:s    Joe\n");
    assert_eq!(
        get_display_name("@u:s", "Joe", Output::Json, SEP),
        "{\"displayname\":\"Joe\",\"user\":\"@u:s\"}\n"
    );
    assert_eq!(print_masterkey("KEY", Output::Text), "masterkey:    KEY\n");
    assert_eq!(print_masterkey("KEY", Output::JsonSpec), "");
    assert_eq!(
        print_set_avatar(Some("a.png"), "m", Output::Json),
        "{\"filename\":\"a.png\",\"avatar_mxc_uri\":\"m\"}\n"
    );
    assert_eq!(obfuscate("secret", 3), "sec****");
    assert_eq!(obfuscate("é", 3), "é****");
    assert_eq!(to_opt(""), None);
    assert_eq!(to_opt("a"), Some("a"));
    assert_eq!(text_or_none(""), "None");
    assert_eq!(text_or_none("a"), "a");
}

#[test]
fn profiles() {
    let mut f = Fields::new();
    f.put_text("displayname", "Joe");
    f.put_text("avatar_url", "mxc://s.org/key");
    f.put_text("m.tz", "Europe/Vienna");
    assert_eq!(
        get_profile(f.object(), "https://s.org", Output::Text, "|"),
        "Joe|mxc://s.org/key|https://s.org/_matrix/media/r0/download/s.org/key|\
         {\"m.tz\":\"Europe/Vienna\"}\n"
    );
    assert_eq!(
        get_profile(Fields::new().object(), "https://s.org", Output::Text, "|"),
        "None|None|None|\n"
    );
    assert_eq!(
        get_profile(Fields::new().object(), "https://s.org", Output::Json, "|"),
        "{\"displayname\":null,\"avatar_url\":null,\"avatar_http\":null,\"other_info\":{}}\n"
    );
    assert_eq!(
        print_profile("J", "", "", Fields::new().object(), Output::Text, "|"),
        "J|None|None|\n"
    );
}

fn member(id: &str, name: Option<&str>) -> Member {
    Member {
        user_id: id.to_string(),
        display_name: name.map(|n| n.to_string()),
        avatar_url: None,
        power_level: None,
    }
}

fn room() -> RoomInfo {
    RoomInfo {
        room_id: "!r:s".to_string(),
        own_user_id: "@me:s".to_string(),
        name: some("Room"),
        canonical_alias: some("#alias:s"),
        computed_name: "Computed".to_string(),
        topic: None,
        avatar_url: None,
        encrypted: true,
        join_rule: None,
        versions: vec![],
        guest_access: vec![],
        history_visibility: vec![],
        members: vec![],
        power_levels: vec![],
        unread_notifications: 4,
        unread_highlights: 5,
    }
}

#[test]
fn rooms_have_a_display_name() {
    let mut r = room();
    assert_eq!(display_name(&r), "Room");
    r.name = some("");
    assert_eq!(display_name(&r), "#alias:s");
    r.canonical_alias = None;
    assert_eq!(display_name(&r), "Computed");
}

#[test]
fn room_info_in_text() {
    assert_eq!(
        print_room_info(&room(), "invite", Output::Text, "|"),
        "!r:s|Room|#alias:s|None|True\n"
    );
    assert_eq!(
        get_room_info(Some(&room()), Output::Text, "|").unwrap(),
        "!r:s|Room|#alias:s|None|True\n"
    );
    let e = get_room_info(None, Output::Text, "|").unwrap_err();
    assert!(matches!(e, Error::InvalidRoom));
}

#[test]
fn room_info_in_json() {
    let mut r = room();
    r.topic = some("Topic");
    r.join_rule = some("Knock");
    r.versions = list(&["9", "10"]);
    r.members = vec![
        member("@b:s", Some("Zoe")),
        member("@c:s", Some("Ann")),
        member("@a:s", Some("Zoe")),
        member("@d:s", None),
    ];
    r.members[0].power_level = Some(50);
    r.power_levels = vec![PowerLevels {
        ban: 1,
        invite: 2,
        kick: 3,
        redact: 4,
        state_default: 5,
        events_default: 6,
        users_default: 7,
        notifications_room: 8,
        users: vec![("@a:s".to_string(), 9)],
        events: vec![("m.room.name".to_string(), 10)],
    }];
    let line = get_room_info(Some(&r), Output::Json, SEP).unwrap();
    let rest = "\"invited\":false,\"presence\":\"offline\",\"last_active_ago\":null,\
                \"currently_active\":null,\"status_msg\":null}";
    let expected = format!(
        "{{\"room_id\":\"!r:s\",\"own_user_id\":\"@me:s\",\"federate\":true,\
         \"room_version\":\"10\",\"room_type\":\"\",\"guest_access\":\"forbidden\",\
         \"join_rule\":\"knock\",\"history_visibility\":\"shared\",\
         \"canonical_alias\":\"#alias:s\",\"topic\":\"Topic\",\"name\":\"Room\",\
         \"parents\":{{\"set\":\"set()\"}},\"children\":{{\"set\":\"set()\"}},\
         \"users\":{{\
         \"@b:s\":{{\"user_id\":\"@b:s\",\"display_name\":\"Zoe\",\"avatar_url\":null,\
         \"power_level\":50,{rest},\
         \"@c:s\":{{\"user_id\":\"@c:s\",\"display_name\":\"Ann\",\"avatar_url\":null,\
         \"power_level\":100,{rest},\
         \"@a:s\":{{\"user_id\":\"@a:s\",\"display_name\":\"Zoe\",\"avatar_url\":null,\
         \"power_level\":100,{rest},\
         \"@d:s\":{{\"user_id\":\"@d:s\",\"display_name\":null,\"avatar_url\":null,\
         \"power_level\":100,{rest}}},\
         \"invited_users\":{{}},\
         \"names\":{{\"Ann\":[\"@c:s\"],\"Zoe\":[\"@b:s\",\"@a:s\"]}},\"encrypted\":true,\
         \"power_levels\":{{\"defaults\":{{\"ban\":1,\"invite\":2,\"kick\":3,\"redact\":4,\
         \"state_default\":5,\"events_default\":6,\"users_default\":7,\
         \"notifications\":{{\"room\":8}}}},\"users\":{{\"@a:s\":9}},\
         \"events\":{{\"m.room.name\":10}}}},\
         \"typing_users\":[],\"read_receipts\":{{}},\"threaded_read_receipts\":{{}},\
         \"summary\":{{\"invited_member_count\":null,\"joined_member_count\":null,\
         \"heroes\":null}},\
         \"room_avatar_url\":null,\"fully_read_marker\":null,\"tags\":{{}},\
         \"unread_notifications\":4,\"unread_highlights\":5,\"members_synced\":false,\
         \"replacement_room\":null,\"display_name\":\"Room\",\"alias\":\"#alias:s\"}}\n"
    );
    assert_eq!(line, expected);
}

#[test]
fn names_are_in_the_order_of_std() {
    let words = ["", "a", "ab", "b", "Z", "é", "z", "\u{10000}", "\u{ffff}"];
    for x in words {
        for y in words {
            assert_eq!(comes_before(x, y), x < y, "{x} {y}");
        }
    }
}

#[test]
fn lists_of_rooms_hold_each_once() {
    let rooms = list(&["!b:s", "!a:s", "!b:s"]);
    assert_eq!(dedup(&rooms), list(&["!b:s", "!a:s"]));
    assert_eq!(dedup(&dedup(&rooms)), dedup(&rooms));
    assert!(list_contains(&rooms, "!a:s"));
    assert!(!list_contains(&rooms, "!c:s"));
    assert_eq!(print_rooms(&rooms, Output::Text), "!b:s\n!a:s\n");
    assert_eq!(print_rooms(&rooms, Output::Json), "{\"rooms\":[\"!b:s\",\"!a:s\"]}\n");
}

#[test]
fn visibility_of_rooms() {
    assert_eq!(print_room_visibility("!r:s", Some(true), Output::Text, SEP), "public    !r:s\n");
    assert_eq!(print_room_visibility("!r:s", Some(false), Output::Text, SEP), "private    !r:s\n");
    assert_eq!(print_room_visibility("!r:s", None, Output::Text, SEP), "private    !r:s\n");
    assert_eq!(
        print_room_visibility("!r:s", Some(true), Output::Json, SEP),
        "{\"room_id\":\"!r:s\",\"visibility\":\"public\"}\n"
    );
}

#[test]
fn members_of_rooms() {
    let members = vec![member("@a:s", Some("Ann")), member("@b:s", None)];
    assert_eq!(
        print_room_members("!r:s", &members, Output::Text, "|"),
        "!r:s\n|@a:s|Ann|\n|@b:s||\n"
    );
    assert_eq!(
        print_room_members("!r:s", &members, Output::Json, "|"),
        "{\"room_id\":\"!r:s\",\"members\":[\
         {\"user_id\":\"@a:s\",\"display_name\":\"Ann\",\"avatar_url\":null},\
         {\"user_id\":\"@b:s\",\"display_name\":null,\"avatar_url\":null}]}\n"
    );
}

#[test]
fn state_of_rooms() {
    let state = RoomState {
        member: list(&["{\"b\": 1, \"a\": 2}", "broken"]),
        power_levels: vec![],
        name: list(&["{}"]),
        topic: vec![],
    };
    assert_eq!(
        print_room_state("!r:s", &state, Output::Text, SEP),
        "[{\"b\":1,\"a\":2},{}]    !r:s\n"
    );
    assert_eq!(
        print_room_state("!r:s", &state, Output::Json, SEP),
        "{\"room_id\":\"!r:s\",\"room_member_event_content\":[{\"b\": 1, \"a\": 2},broken],\
         \"room_power_levels_event_content\":[],\"room_name_event_content\":[{}],\
         \"room_topic_event_content\":[]}\n"
    );
}

#[test]
fn resolved_aliases() {
    let servers = list(&["s", "t"]);
    assert_eq!(
        print_resolved_alias("#a:s", "!r:s", &servers, Output::Text, "|"),
        "#a:s|!r:s|['s', 't']\n"
    );
    assert_eq!(
        print_resolved_alias("#a:s", "!r:s", &servers, Output::Json, "|"),
        "{\"room_alias\":\"#a:s\",\"room_id\":\"!r:s\",\"servers\":[\"s\",\"t\"]}\n"
    );
}

#[test]
fn rooms_that_are_shown() {
    let texts = vec!["!a:s".to_string(), "bad".to_string(), "\\!b:s".to_string()];
    assert_eq!(rooms_to_show(&texts), vec![some("!a:s"), None, some("!b:s")]);
}
