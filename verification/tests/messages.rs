use matrix_commander_ng::message::{
    apply_split, collect_events, collect_messages, decode_split_separator, emojize_message,
    event_from_stdin, event_of, format_message, formatted_body, formatted_with, keep_nonempty,
    message_source, prepare_messages, print_sent, read_event, show_code, show_shortcode, split_messages, strip_line_end,
    MessageFormat, MessageKind, MessageSource,
};
use matrix_commander_ng::json::{print_line, Fields, Json};
use matrix_commander_ng::room_create::{
    entry, find_dm, find_existing_dm, print_created_room, print_room_id, room_create,
    room_dm_create, room_request, should_encrypt, CreatedRoom, JoinedRoom, RoomPreset, Visibility,
};
use matrix_commander_ng::Output;

fn list(parts: &[&str]) -> Vec<String> {
    parts.iter().map(|p| p.to_string()).collect()
}

fn some(t: &str) -> Option<String> {
    Some(t.to_string())
}

#[test]
fn arguments_of_messages() {
    let shown = |arg: &str| match message_source(arg) {
        MessageSource::Skip => "skip".to_string(),
        MessageSource::Stdin => "stdin".to_string(),
        MessageSource::Stream => "stream".to_string(),
        MessageSource::Text(t) => format!("text {t}"),
    };
    assert_eq!(shown(""), "skip");
    assert_eq!(shown("--"), "skip");
    assert_eq!(shown("-"), "stdin");
    assert_eq!(shown("_"), "stream");
    assert_eq!(shown("\\-"), "text -");
    assert_eq!(shown("\\_"), "text _");
    assert_eq!(shown("\\-\\-"), "text --");
    assert_eq!(shown("\\-\\-\\-"), "text ---");
    assert_eq!(shown("---"), "text ---");
    assert_eq!(shown("Hello"), "text Hello");
}

#[test]
fn messages_are_collected() {
    let args = list(&["Hello", "-", "", "-", "\\-"]);
    let read = vec![None, some("from stdin\n"), None, some("\n"), None];
    assert_eq!(collect_messages(&args, &read), list(&["Hello", "from stdin", "-"]));
}

#[test]
fn events_are_collected() {
    assert!(event_from_stdin("-"));
    assert!(!event_from_stdin("\\-"));
    let args = list(&["{}", "-", ""]);
    let read = vec![None, some("{\"a\":1}\r\n"), None];
    assert_eq!(collect_events(&args, &read), list(&["{}", "{\"a\":1}"]));
}

#[test]
fn one_line_end_is_stripped() {
    assert_eq!(strip_line_end("a\n"), "a");
    assert_eq!(strip_line_end("a\r\n"), "a");
    assert_eq!(strip_line_end("a\n\n"), "a\n");
    assert_eq!(strip_line_end("a"), "a");
    assert_eq!(strip_line_end("a\r"), "a\r");
}

#[test]
fn messages_are_split() {
    assert_eq!(decode_split_separator("\\n\\t\\\\"), "\n\t\\");
    assert_eq!(decode_split_separator("ab"), "ab");
    assert_eq!(keep_nonempty(&list(&["", "a", "", " "])), list(&["a", " "]));
    assert_eq!(
        split_messages(&list(&["a\n\nb\n", "c"]), "\n"),
        list(&["a", "b", "c"])
    );
    assert_eq!(apply_split(&list(&["a|b"]), &some("|")), list(&["a", "b"]));
    assert_eq!(apply_split(&list(&["a|b"]), &None), list(&["a|b"]));
    assert_eq!(
        prepare_messages(&list(&["a\n:dog:"]), &some("\\n"), true),
        list(&["a", "🐶"])
    );
    assert_eq!(prepare_messages(&list(&[":dog:"]), &None, false), list(&[":dog:"]));
}

#[test]
fn shortcodes_become_emojis() {
    assert_eq!(emojize_message(":rocket: to the :moon:!"), "🚀 to the 🌔!");
    assert_eq!(emojize_message(":+1::-1:"), "👍👎");
    assert_eq!(emojize_message(":no_such_emoji:"), ":no_such_emoji:");
    assert_eq!(emojize_message("12:30:45"), "12:30:45");
    assert_eq!(emojize_message("::rocket:"), ":🚀");
    assert_eq!(emojize_message("no colon"), "no colon");
    assert_eq!(show_shortcode("rocket"), "🚀");
    assert_eq!(show_shortcode("nothing"), ":nothing:");
    assert_eq!(show_code("x", some("!")), "!");
    assert_eq!(show_code("x", None), ":x:");
}

#[test]
fn formats_of_messages() {
    let m = format_message("Hi", false, false, false, false, false);
    assert_eq!((m.kind, m.format, m.body.as_str()), (MessageKind::Text, MessageFormat::Plain, "Hi"));
    let m = format_message("Hi", false, true, true, false, true);
    assert_eq!((m.kind, m.format), (MessageKind::Notice, MessageFormat::Markdown));
    let m = format_message("Hi", false, false, false, true, true);
    assert_eq!((m.kind, m.format), (MessageKind::Emote, MessageFormat::Html));
    let m = format_message("Hi", false, false, true, true, false);
    assert_eq!(m.kind, MessageKind::Notice);
    let m = format_message("fn", true, false, false, false, true);
    assert_eq!((m.format, m.body.as_str()), (MessageFormat::Markdown, "```\nfn\n```"));
    let m = format_message("fn\n", true, false, false, false, false);
    assert_eq!(m.body, "```\nfn\n```");
    let m = format_message("", true, false, false, false, false);
    assert_eq!(m.body, "```\n```");
}

#[test]
fn sent_messages_are_reported_on_demand() {
    assert_eq!(print_sent("$e", "!r:s", "Hi", false, Output::Text, "|"), "");
    assert_eq!(print_sent("$e", "!r:s", "Hi", true, Output::Text, "|"), "$e|!r:s|Hi\n");
    assert_eq!(
        print_sent("$e", "!r:s", "Hi", true, Output::Json, "|"),
        "{\"event_id\":\"$e\",\"room_id\":\"!r:s\",\"message\":\"Hi\"}\n"
    );
}

#[test]
fn events_have_a_type_and_a_content() {
    let e = read_event("{\"type\":\"m.reaction\",\"content\":{\"b\":1,\"a\":[true]}}").unwrap();
    assert_eq!(e.event_type, "m.reaction");
    assert_eq!(e.content, "{\"b\":1,\"a\":[true]}");
    assert!(read_event("{\"type\":\"m.reaction\"}").is_none());
    assert!(read_event("{\"type\":1,\"content\":{}}").is_none());
    assert!(read_event("not json").is_none());
    assert!(read_event("[]").is_none());
    let mut f = Fields::new();
    f.put_text("type", "t");
    f.put("content", Json::Null);
    let doc = f.object();
    let (kind, content) = event_of(&doc).unwrap();
    assert_eq!(kind, "t");
    assert_eq!(print_line(content), "null\n");
}

#[test]
fn encryption_of_new_rooms() {
    assert!(should_encrypt(&Visibility::Private, None));
    assert!(!should_encrypt(&Visibility::Public, None));
    assert!(!should_encrypt(&Visibility::Private, Some(true)));
    assert!(should_encrypt(&Visibility::Public, Some(false)));
}

#[test]
fn rooms_to_create() {
    let aliases = list(&["#a:s", ""]);
    let names = list(&["Name"]);
    let topics = vec![];
    let r = room_create(false, true, &vec![], &aliases, &names, &topics, &Visibility::Public);
    assert_eq!(r.len(), 2);
    let first = r[0].as_ref().unwrap();
    assert!(first.encrypted && !first.is_direct);
    assert_eq!(first.alias, some("a"));
    assert_eq!(first.name, "Name");
    assert_eq!(first.topic, "");
    assert_eq!(first.invite, None);
    assert_eq!(first.preset, Some(RoomPreset::PublicChat));
    assert!(matches!(first.visibility, Visibility::Public));
    let second = r[1].as_ref().unwrap();
    assert_eq!(second.alias, None);
    assert_eq!(second.name, "");
    assert_eq!(entry(&names, 0), "Name");
    assert_eq!(entry(&names, 1), "");
}

#[test]
fn direct_rooms_to_create() {
    let users = list(&["\\@u:s", "bad"]);
    let none = vec![];
    let r = room_create(true, false, &users, &none, &none, &none, &Visibility::Public);
    assert_eq!(r.len(), 2);
    let first = r[0].as_ref().unwrap();
    assert!(first.is_direct && !first.encrypted);
    assert_eq!(first.invite, some("@u:s"));
    assert_eq!(first.preset, Some(RoomPreset::PrivateChat));
    assert!(matches!(first.visibility, Visibility::Public));
    assert!(r[1].is_none());
    let custom = Visibility::Custom("x".to_string());
    let r = room_request(false, true, &none, &list(&["a"]), &none, &none, &custom, 0).unwrap();
    assert_eq!(r.preset, None);
    assert!(matches!(r.visibility, Visibility::Custom(word) if word == "x"));
}

#[test]
fn created_rooms_are_printed() {
    let none = vec![];
    let aliases = list(&["a"]);
    let names = list(&["Name"]);
    let request =
        room_request(false, false, &none, &aliases, &names, &none, &Visibility::Private, 0)
            .unwrap();
    let room = CreatedRoom {
        room_id: "!r:s".to_string(),
        canonical_alias: some("#a:s"),
        encrypted: true,
    };
    assert_eq!(
        print_created_room(&room, &request, "s", Output::Text, "|"),
        "!r:s|a|#a:s|Name||True\n"
    );
    assert_eq!(
        print_created_room(&room, &request, "s", Output::Json, "|"),
        "{\"room_id\":\"!r:s\",\"alias\":\"a\",\"alias_full\":\"#a:s\",\"name\":\"Name\",\
         \"topic\":null,\"encrypted\":true}\n"
    );
}

fn joined(id: &str, direct: bool, members: &[&str]) -> JoinedRoom {
    JoinedRoom { room_id: id.to_string(), is_direct: direct, members: Some(list(members)) }
}

#[test]
fn existing_direct_rooms_are_found() {
    let rooms = vec![
        joined("!1:s", false, &["@me:s", "@u:s"]),
        joined("!2:s", true, &["@me:s", "@u:s", "@v:s"]),
        JoinedRoom { room_id: "!3:s".to_string(), is_direct: true, members: None },
        joined("!4:s", true, &["@u:s", "@me:s"]),
        joined("!5:s", true, &["@u:s", "@me:s"]),
    ];
    assert_eq!(find_dm(&rooms, "@u:s"), Some(3));
    assert_eq!(find_existing_dm(&rooms, "@u:s"), some("!4:s"));
    assert_eq!(find_existing_dm(&rooms, "@v:s"), None);
    assert_eq!(find_existing_dm(&rooms, "u"), None);
    let users = list(&["@v:s", "@u:s"]);
    let (left, out) = room_dm_create(&users, &rooms, false, Output::Text);
    assert_eq!(left, list(&["@v:s"]));
    assert_eq!(out, "!4:s\n");
    let (left, out) = room_dm_create(&users, &rooms, false, Output::Json);
    assert_eq!(left, list(&["@v:s"]));
    assert_eq!(out, "{\"room_id\": \"!4:s\"}\n");
    let (left, out) = room_dm_create(&users, &rooms, true, Output::Text);
    assert_eq!(left, users);
    assert_eq!(out, "");
    // Asking again for those who are left finds no room for any of them.
    let (again, out) = room_dm_create(&list(&["@v:s"]), &rooms, false, Output::Text);
    assert_eq!(again, list(&["@v:s"]));
    assert_eq!(out, "");
    assert_eq!(print_room_id("!r:s", Output::JsonSpec), "");
}

#[test]
fn markdown_and_html_are_sent_along() {
    let m = format_message("**bold**", false, true, false, false, false);
    assert_eq!(formatted_body(&m), some("<strong>bold</strong>"));
    let m = format_message("plain", false, true, false, false, false);
    assert_eq!(formatted_body(&m), None);
    let m = format_message("x < y", true, false, true, false, false);
    assert_eq!(m.kind, MessageKind::Notice);
    assert_eq!(formatted_body(&m), some("<pre><code>x &lt; y\n</code></pre>\n"));
    let m = format_message("<b>x</b>", false, false, false, false, true);
    assert_eq!(formatted_body(&m), some("<b>x</b>"));
    let m = format_message("**bold**", false, false, false, true, false);
    assert_eq!(formatted_body(&m), None);
    assert_eq!(formatted_with(&m, some("html")), None);
    let m = format_message("a", false, true, false, false, false);
    assert_eq!(formatted_with(&m, some("html")), some("html"));
}
