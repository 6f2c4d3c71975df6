use matrix_commander_ng::batch::parse_user_id;
use matrix_commander_ng::ids::{
    begins_with, complete_room, convert_to_full_alias_id, convert_to_full_alias_ids,
    convert_to_full_mxc_uri, convert_to_full_mxc_uris, convert_to_full_room_alias,
    convert_to_full_room_aliases, convert_to_full_room_id, convert_to_full_room_ids,
    convert_to_full_user_id, convert_to_full_user_ids, convert_to_short_canonical_alias_id,
    convert_to_short_canonical_alias_ids, drop_blank, is_mxc_short, is_valid_room_name,
    is_valid_username, plan_room, replace_minus_with_default_room, replace_star_with_rooms,
    settle_room, settle_rooms, RoomStep,
};
use matrix_commander_ng::media::is_mxc;
use matrix_commander_ng::room_info::parse_room_id;
use matrix_commander_ng::rooms::{parse_alias, parse_aliases};
use matrix_commander_ng::server::room_redact;

const HOST: &str = "matrix.server.com";

fn list(parts: &[&str]) -> Vec<String> {
    parts.iter().map(|p| p.to_string()).collect()
}

fn shown(step: &RoomStep) -> String {
    match step {
        RoomStep::Done(id) => format!("done {id}"),
        RoomStep::Resolve(alias) => format!("resolve {alias}"),
    }
}

#[test]
fn short_room_names_become_aliases() {
    let full = "#john:matrix.server.com";
    assert_eq!(convert_to_full_room_alias("john", HOST), full);
    assert_eq!(convert_to_full_room_alias("#john", HOST), full);
    assert_eq!(convert_to_full_room_alias(" # john :matrix.server.com", HOST), full);
    assert_eq!(convert_to_full_room_alias("!room", HOST), "!room");
    assert_eq!(convert_to_full_room_alias("@john", HOST), "#@john:matrix.server.com");
    let mut aliases = list(&["john", " ", "#a:b", "!r"]);
    convert_to_full_room_aliases(&mut aliases, HOST);
    assert_eq!(aliases, list(&[full, "#a:b", "!r"]));
}

#[test]
fn short_user_names_become_user_ids() {
    let full = "@john:matrix.server.com";
    assert_eq!(convert_to_full_user_id("john", HOST), full);
    assert_eq!(convert_to_full_user_id("@john", HOST), full);
    assert_eq!(convert_to_full_user_id(full, HOST), full);
    assert_eq!(convert_to_full_user_id("!john", HOST), "!john");
    assert_eq!(convert_to_full_user_id("#john", HOST), "#john");
    let mut users = list(&["", "john", "@a:b"]);
    convert_to_full_user_ids(&mut users, HOST);
    assert_eq!(users, list(&[full, "@a:b"]));
}

#[test]
fn short_aliases_become_alias_ids() {
    let full = "#john:matrix.server.com";
    assert_eq!(convert_to_full_alias_id("john", HOST), full);
    assert_eq!(convert_to_full_alias_id("#john", HOST), full);
    assert_eq!(convert_to_full_alias_id("@john", HOST), "@john");
    assert_eq!(convert_to_full_alias_id("!john", HOST), "!john");
    let mut aliases = list(&["\t", "#john", "@x"]);
    convert_to_full_alias_ids(&mut aliases, HOST);
    assert_eq!(aliases, list(&[full, "@x"]));
}

#[test]
fn completing_twice_changes_nothing() {
    for el in ["john", "#john", "@john", "!john", " j o h n ", "", ":", "#:x"] {
        let once = convert_to_full_room_alias(el, HOST);
        assert_eq!(convert_to_full_room_alias(&once, HOST), once);
        let once = convert_to_full_user_id(el, HOST);
        assert_eq!(convert_to_full_user_id(&once, HOST), once);
        let once = convert_to_full_alias_id(el, HOST);
        assert_eq!(convert_to_full_alias_id(&once, HOST), once);
        let once = convert_to_full_mxc_uri(el, HOST);
        assert_eq!(convert_to_full_mxc_uri(&once, HOST), once);
    }
    // A host with white space in it would lose it the second time.
    let once = convert_to_full_user_id("john", "a b");
    assert_eq!(once, "@john:a b");
    assert_eq!(convert_to_full_user_id(&once, "a b"), "@john:ab");
}

#[test]
fn aliases_are_cut_to_their_local_part() {
    assert_eq!(convert_to_short_canonical_alias_id("#john:matrix.server.com"), "john");
    assert_eq!(convert_to_short_canonical_alias_id("#john"), "john");
    assert_eq!(convert_to_short_canonical_alias_id("john"), "john");
    assert_eq!(convert_to_short_canonical_alias_id("!a:b"), "!a:b");
    let mut aliases = list(&["#a:b", "", " c "]);
    convert_to_short_canonical_alias_ids(&mut aliases);
    assert_eq!(aliases, list(&["a", "", "c"]));
    for el in ["john", "#john:x", "@j:y", "!z", ""] {
        let full = convert_to_full_alias_id(el, HOST);
        assert_eq!(
            convert_to_short_canonical_alias_id(&full),
            convert_to_short_canonical_alias_id(el)
        );
    }
}

#[test]
fn media_keys_become_uris() {
    assert_eq!(
        convert_to_full_mxc_uri("SomeStrangeUriKey", "matrix.server.org"),
        "mxc://matrix.server.org/SomeStrangeUriKey"
    );
    assert_eq!(convert_to_full_mxc_uri(" mxc://a/b", HOST), " mxc://a/b");
    assert_eq!(convert_to_full_mxc_uri("a/b", HOST), "a/b");
    assert_eq!(convert_to_full_mxc_uri("a:b", HOST), "a:b");
    let mut uris = list(&["", "key", "mxc://a/b"]);
    convert_to_full_mxc_uris(&mut uris, HOST);
    assert_eq!(uris, list(&["mxc://matrix.server.com/key", "mxc://a/b"]));
}

#[test]
fn rooms_are_completed_and_resolved() {
    let step = convert_to_full_room_id("!irywieryiwre", HOST);
    assert_eq!(shown(&step), "done !irywieryiwre:matrix.server.com");
    for name in ["john", "#john", "#john:matrix.server.com", " # john "] {
        let step = convert_to_full_room_id(name, HOST);
        assert_eq!(shown(&step), "resolve #john:matrix.server.com");
        assert_eq!(settle_room(&step, Some("!x:y")), "!x:y");
        assert_eq!(settle_room(&step, None), "");
    }
    assert_eq!(shown(&convert_to_full_room_id("@john", HOST)), "done @john");
    // No server name, no alias.
    assert_eq!(shown(&convert_to_full_room_id("#john:", HOST)), "done ");
    assert_eq!(complete_room(" john", HOST), "#john:matrix.server.com");
    // A backslash before a hash is taken out of the alias that is asked for.
    assert_eq!(
        shown(&convert_to_full_room_id("\\#john", HOST)),
        "resolve ##john:matrix.server.com"
    );
    assert_eq!(
        shown(&convert_to_full_room_id("\\!abc", HOST)),
        "resolve #\\!abc:matrix.server.com"
    );
}

#[test]
fn a_room_is_planned_by_its_first_character() {
    let t = |s: &str| s.to_string();
    assert_eq!(shown(&plan_room(t("!a:b"), t("x"), true)), "done !a:b");
    assert_eq!(shown(&plan_room(t("@a"), t("x"), true)), "done @a");
    assert_eq!(shown(&plan_room(t("#a:b"), t("#a:b"), true)), "resolve #a:b");
    assert_eq!(shown(&plan_room(t("#a:b"), t("#a:b"), false)), "done ");
}

#[test]
fn lists_of_rooms_keep_what_could_be_resolved() {
    let steps = convert_to_full_room_ids(&list(&["!a:b", " ", "john", "tom", "#x:"]), HOST);
    assert_eq!(steps.len(), 4);
    let answers = vec![None, Some("!j:s".to_string()), None, None];
    assert_eq!(settle_rooms(&steps, &answers), list(&["!a:b", "!j:s"]));
}

#[test]
fn a_minus_stands_for_the_default_room() {
    let mut rooms = list(&["!a:b", " - ", "-"]);
    replace_minus_with_default_room(&mut rooms, "!d:b");
    assert_eq!(rooms, list(&["!a:b", "!d:b"]));
    let mut rooms = list(&["!a:b", ""]);
    replace_minus_with_default_room(&mut rooms, "!d:b");
    assert_eq!(rooms, list(&["!a:b", ""]));
}

#[test]
fn a_star_stands_for_all_rooms() {
    let known = list(&["!1:b", "!2:b"]);
    let mut rooms = list(&["*", "!a:b"]);
    replace_star_with_rooms(&mut rooms, &known);
    assert_eq!(rooms, list(&["!a:b", "!1:b", "!2:b"]));
    let mut rooms = list(&["!a:b"]);
    replace_star_with_rooms(&mut rooms, &known);
    assert_eq!(rooms, list(&["!a:b"]));
}

#[test]
fn forms_of_names() {
    assert!(is_valid_username("@john:server"));
    assert!(!is_valid_username("john:server"));
    assert!(!is_valid_username("@john"));
    assert!(is_valid_room_name("!abc:server"));
    assert!(!is_valid_room_name("!abc"));
    assert!(!is_valid_room_name("!abc:server:8448"));
    assert!(!is_valid_room_name("#abc:server"));
    assert!(begins_with("#a", '#'));
    assert!(!begins_with("", '#'));
    let mut l = list(&["a", " ", "", "b"]);
    drop_blank(&mut l);
    assert_eq!(l, list(&["a", "b"]));
}

#[test]
fn room_ids_begin_with_an_exclamation_mark() {
    assert_eq!(parse_room_id("!abc:server"), Some("!abc:server".to_string()));
    assert_eq!(parse_room_id("\\!abc:server"), Some("!abc:server".to_string()));
    assert_eq!(parse_room_id("!abc"), Some("!abc".to_string()));
    assert_eq!(parse_room_id("#abc:server"), None);
    assert_eq!(parse_room_id(""), None);
    assert_eq!(parse_room_id("!a\0b"), None);
}

#[test]
fn user_ids_have_a_server() {
    assert_eq!(parse_user_id("@john:server", "@"), Some("@john:server".to_string()));
    assert_eq!(parse_user_id("@john", "@"), None);
    assert_eq!(parse_user_id("john:server", "@"), None);
}

#[test]
fn alias_ids_have_a_server() {
    assert_eq!(parse_alias("#john:server"), Some("#john:server".to_string()));
    assert_eq!(parse_alias("\\#john:server"), Some("#john:server".to_string()));
    assert_eq!(parse_alias("#john"), None);
    assert_eq!(parse_alias("john:server"), None);
    assert_eq!(
        parse_aliases(&list(&["#a:b", "!c:d", "#e:f"])),
        list(&["#a:b", "#e:f"])
    );
}

#[test]
fn event_ids_begin_with_a_dollar_sign() {
    let r = room_redact(&list(&["!a:b", "$e", "why"])).unwrap();
    assert_eq!(r.len(), 1);
    assert!(r[0].is_some());
    let r = room_redact(&list(&["!a:b", "e", "why"])).unwrap();
    assert!(r[0].is_none());
    let r = room_redact(&list(&["!a:b", "$e:!", "why"])).unwrap();
    assert!(r[0].is_none());
}

#[test]
fn media_uris() {
    assert!(is_mxc("mxc://server/key"));
    assert!(!is_mxc("http://server/key"));
    assert!(!is_mxc("mxc://server"));
    assert!(is_mxc_short("mxc://server/key"));
    assert!(is_mxc_short("nothing"));
    let long = format!("mxc://{}/key", "a".repeat(300));
    assert!(!is_mxc_short(&long));
}
