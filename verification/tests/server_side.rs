use matrix_commander_ng::credentials::readable_by_all;
use matrix_commander_ng::json::print_line;
use matrix_commander_ng::server::{
    build_delete_media_url, checked_aliases, content_repository_config, delete_mxc_answer,
    delete_mxc_before, delete_mxc_before_on, discovery_info, get_client_info, get_openid_token, get_presence, login_info,
    parse_timestamp, print_invite, read_invite_mode, room_invites, room_redact, room_set_alias,
    to_millis, trim_slash, trim_slashes, truth, Answer, Discovery, OpenIdToken, PresenceInfo,
};
use matrix_commander_ng::rest::{
    build_call, fill, read_method, rest, rest_answer, rest_values, rest_values_on, RestMethod, RestValues,
};
use matrix_commander_ng::tokens::{count_bytes, display_token, parse_number, redact_token};
use matrix_commander_ng::{Credentials, Error, Output};

fn list(parts: &[&str]) -> Vec<String> {
    parts.iter().map(|p| p.to_string()).collect()
}

fn some(t: &str) -> Option<String> {
    Some(t.to_string())
}

fn credentials(refresh: Option<String>) -> Credentials {
    Credentials::new(
        "https://s.org/".to_string(),
        "@me:s.org".to_string(),
        "token-0123456789".to_string(),
        "DEV".to_string(),
        "!r:s.org".to_string(),
        refresh,
    )
}

#[test]
fn credentials_are_stored() {
    assert_eq!(
        credentials(None).save(),
        "{\n  \"homeserver\": \"https://s.org\",\n  \"device_id\": \"DEV\",\n  \
         \"user_id\": \"@me:s.org\",\n  \"room_id\": \"!r:s.org\",\n  \
         \"access_token\": \"token-0123456789\"\n}"
    );
    let with = credentials(some("again"));
    assert!(with.save().ends_with(",\n  \"refresh_token\": \"again\"\n}"));
    let doc = with.stored();
    assert_eq!(doc.get_text("homeserver"), Some("https://s.org"));
    assert_eq!(doc.get_text("user_id"), Some("@me:s.org"));
    assert_eq!(doc.get_text("access_token"), Some("token-0123456789"));
    assert_eq!(doc.get_text("device_id"), Some("DEV"));
    assert_eq!(doc.get_text("room_id"), Some("!r:s.org"));
    assert_eq!(doc.get_text("refresh_token"), Some("again"));
    assert!(credentials(None).stored().get("refresh_token").is_none());
    assert!(readable_by_all(0o644));
    assert!(!readable_by_all(0o640));
}

#[test]
fn tokens_are_hidden() {
    assert_eq!(redact_token("0123456789abc"), "0123...9abc");
    assert_eq!(redact_token("0123456789ab"), "0123...89ab");
    assert_eq!(redact_token("0123456789a"), "0123...");
    assert_eq!(redact_token("01234"), "0123...");
    assert_eq!(redact_token("0123"), "0123...");
    assert_eq!(redact_token("01"), "01...");
    assert_eq!(display_token("012345678"), "0123...5678");
    assert_eq!(display_token("01234567"), "***");
    assert_eq!(count_bytes(&vec!['a', 'é', '€', '😀'], 4), 10);
    assert_eq!(redact_token("éé456789ééé€"), "éé45...ééé€");
    assert_eq!(redact_token("éé456789éé"), "éé45...");
}

#[test]
fn numbers_are_read_as_std_does() {
    for t in [
        "0", "7", "007", "+5", "18446744073709551615", "18446744073709551616", "", "+", "-1",
        " 1", "1 ", "1a", "+-1", "99999999999999999999999",
    ] {
        assert_eq!(parse_number(t), t.parse::<u64>().ok(), "{t}");
    }
}

#[test]
fn openid_tokens() {
    let token = OpenIdToken {
        access_token: "tok".to_string(),
        expires_in: 3600,
        matrix_server_name: "s.org".to_string(),
        token_type: "Bearer".to_string(),
    };
    assert_eq!(
        get_openid_token("@me:s.org", &token, Output::Json, "|"),
        "{\"user_id\":\"@me:s.org\",\"access_token\":\"tok\",\"expires_in\":3600,\
         \"matrix_server_name\":\"s.org\",\"token_type\":\"Bearer\"}\n"
    );
    assert_eq!(
        get_openid_token("@me:s.org", &token, Output::Text, "|"),
        "@me:s.org|tok|3600|s.org|Bearer\n"
    );
}

#[test]
fn presence_of_users() {
    let p = PresenceInfo {
        presence: "online".to_string(),
        status_msg: None,
        last_active_ago: Some(12),
        currently_active: Some(true),
    };
    assert_eq!(
        get_presence("@u:s", &p, Output::Text, "|"),
        "@u:s|online|12|True|\n"
    );
    assert_eq!(truth(true), "True");
    assert_eq!(truth(false), "False");
}

#[test]
fn slashes_at_the_end() {
    assert_eq!(trim_slashes("https://s//"), "https://s");
    assert_eq!(trim_slash("https://s//"), "https://s/");
    assert_eq!(trim_slash("https://s"), "https://s");
    assert_eq!(trim_slash(""), "");
    assert_eq!(trim_slashes("//"), "");
}

#[test]
fn discovery() {
    let found = Some(Discovery {
        homeserver: "https://s.org/".to_string(),
        identity_server: some("https://id.org//"),
    });
    assert_eq!(
        discovery_info(&found, "https://x/", Output::Text, "|"),
        "https://s.org|https://id.org\n"
    );
    assert_eq!(discovery_info(&None, "https://x/", Output::Text, "|"), "https://x|None\n");
    assert_eq!(
        discovery_info(&None, "https://x/", Output::Json, "|"),
        "{\"homeserver_url\":\"https://x\",\"identity_server_url\":null}\n"
    );
}

#[test]
fn flows_and_limits() {
    let flows = list(&["m.login.password", "m.login.sso"]);
    assert_eq!(login_info(&flows, Output::Text), "m.login.password\nm.login.sso\n");
    assert_eq!(content_repository_config(50, Output::Text), "50\n");
}

#[test]
fn times_before_which_media_is_deleted() {
    assert_eq!(parse_timestamp("1700000000000"), Some(1_700_000_000_000));
    assert_eq!(parse_timestamp("14.11.2023 22:13:20"), Some(1_700_000_000_000));
    assert_eq!(parse_timestamp("2023-11-14T22:13:20"), Some(1_700_000_000_000));
    assert_eq!(parse_timestamp("2023-11-14 22:13:20"), None);
    assert_eq!(parse_timestamp("31.02.2023 00:00:00"), None);
    assert_eq!(to_millis(5), 5000);
    assert_eq!(to_millis(-1), 0);
    assert_eq!(parse_timestamp("31.12.1969 23:59:59"), Some(0));
    assert_eq!(parse_timestamp("1969-12-31T23:59:59"), Some(0));
}

#[test]
fn requests_to_delete_media() {
    let url = "https://s.org/_synapse/admin/v1/media/s.org/delete?before_ts=7&size_gt=9";
    assert_eq!(build_delete_media_url("https://s.org/", Some("s.org"), 7, 9), url);
    assert_eq!(delete_mxc_before(&list(&["7", "9"]), "https://s.org/").unwrap(), url);
    assert_eq!(
        delete_mxc_before(&list(&["31.12.1969 23:59:59"]), "https://s.org:8448/").unwrap(),
        "https://s.org:8448/_synapse/admin/v1/media/s.org/delete?before_ts=0&size_gt=0"
    );
    assert_eq!(
        delete_mxc_before_on(&list(&["7"]), "https://s.org", None).unwrap(),
        "https://s.org/_synapse/admin/v1/media/localhost/delete?before_ts=7&size_gt=0"
    );
    assert_eq!(
        delete_mxc_before_on(&list(&["7", "many"]), "https://s.org", None).unwrap(),
        "https://s.org/_synapse/admin/v1/media/localhost/delete?before_ts=7&size_gt=0"
    );
    for bad in [list(&[]), list(&["1", "2", "3"])] {
        assert!(matches!(
            delete_mxc_before(&bad, "https://s.org"),
            Err(Error::MissingCliParameter)
        ));
    }
    assert!(matches!(
        delete_mxc_before(&list(&["never"]), "https://s.org"),
        Err(Error::DeleteMxcBeforeFailed)
    ));
}

#[test]
fn answers_to_deletions() {
    let answer = |success: bool, body: &str| {
        Some(Answer { success, status: "403 Forbidden".to_string(), body: body.to_string() })
    };
    let (_, r) = delete_mxc_answer(&None, Output::Text);
    assert!(matches!(r, Err(Error::DeleteMxcBeforeFailed)));
    let (out, r) = delete_mxc_answer(&answer(false, "{}"), Output::Text);
    assert_eq!(out, "Error: 403 Forbidden {}\n");
    assert!(matches!(r, Err(Error::DeleteMxcBeforeFailed)));
    let (out, r) = delete_mxc_answer(&answer(true, "{\"total\": 1}"), Output::Json);
    assert!(r.is_ok());
    assert_eq!(out, "{\"total\": 1}\n");
    let (out, _) = delete_mxc_answer(&answer(true, "{}"), Output::JsonSpec);
    assert_eq!(out, "");
}

#[test]
fn information_on_the_client() {
    let out = get_client_info(&credentials(None), &list(&["!r:s.org"]));
    assert_eq!(
        out,
        "{\n  \"user_id\": \"@me:s.org\",\n  \"device_id\": \"DEV\",\n  \
         \"homeserver\": \"https://s.org\",\n  \"room_id\": \"!r:s.org\",\n  \
         \"access_token\": \"toke...6789\",\n  \"rooms\": [\n    \"!r:s.org\"\n  ]\n}\n"
    );
}

#[test]
fn invitations() {
    let m = read_invite_mode("list").unwrap();
    assert!(m.list && !m.join);
    let m = read_invite_mode("join").unwrap();
    assert!(!m.list && m.join);
    let m = read_invite_mode("list+join").unwrap();
    assert!(m.list && m.join);
    assert!(read_invite_mode("join+list").is_none());
    let e = room_invites("other").unwrap_err();
    assert_eq!(
        e.message(),
        "Unsupported CLI parameter: Invalid --room-invites argument. \
         Use list, join, or list+join."
    );
    assert_eq!(print_invite("!r:s", room_invites("join").unwrap(), Output::Text, "|"), "");
    let list = room_invites("LIST").unwrap();
    assert_eq!(print_invite("!r:s", list, Output::Text, "|"), "!r:s|m.room.member|invite\n");
    assert_eq!(
        print_invite("!r:s", list, Output::Json, "|"),
        "{\"room_id\": \"!r:s\", \"event\": \"m.room.member\", \"membership\": \"invite\"}\n"
    );
    assert_eq!(print_invite("!r:s", list, Output::JsonSpec, "|"), "");
}

#[test]
fn redactions() {
    let r = room_redact(&list(&["!a:s", "$e", " why ", "!b:s", "$f", " "])).unwrap();
    assert_eq!(r.len(), 2);
    let first = r[0].as_ref().unwrap();
    assert_eq!((first.room_id.as_str(), first.event_id.as_str()), ("!a:s", "$e"));
    assert_eq!(first.reason, some("why"));
    assert_eq!(r[1].as_ref().unwrap().reason, None);
    let r = room_redact(&list(&["!a:s", "$e"])).unwrap();
    assert_eq!(r[0].as_ref().unwrap().reason, None);
    for bad in [list(&["!a:s"]), list(&["a", "b", "c", "d"]), list(&["a", "b", "c", "d", "e"])] {
        assert!(matches!(room_redact(&bad), Err(Error::RoomRedactFailed)));
    }
}

#[test]
fn aliases_of_rooms() {
    assert_eq!(checked_aliases(&list(&["#a:s", "a"])), vec![some("#a:s"), None]);
    assert_eq!(room_set_alias(&list(&["!r:s"]), &list(&["#a:s"])).unwrap(), "!r:s");
    assert!(matches!(
        room_set_alias(&list(&[]), &list(&["#a:s"])),
        Err(Error::MissingCliParameter)
    ));
    assert!(matches!(
        room_set_alias(&list(&["!r:s"]), &list(&[])),
        Err(Error::MissingCliParameter)
    ));
    assert!(matches!(
        room_set_alias(&list(&["r"]), &list(&["#a:s"])),
        Err(Error::InvalidRoom)
    ));
}

fn values() -> RestValues {
    rest_values_on(&credentials(None), "host", None)
}

#[test]
fn placeholders_are_filled() {
    let v = values();
    assert_eq!(
        fill("__homeserver__ __hostname__ __user_id__ __device_id__ __room_id__", &v),
        "https://s.org host @me:s.org DEV %21r%3As.org"
    );
    assert_eq!(fill("__access_token__", &v), "token-0123456789");
    let v = rest_values(&credentials(None), Some("other"));
    assert_eq!(v.hostname, "s.org");
    assert_eq!(fill("__access_token__", &v), "other");
}

#[test]
fn calls_of_the_server() {
    assert_eq!(read_method("GET"), Some(RestMethod::Get));
    assert_eq!(read_method("PATCH"), None);
    let v = values();
    let r = rest(&list(&["get", "", " __homeserver__/x "]), &v).unwrap();
    let call = r[0].as_ref().unwrap();
    assert_eq!(call.method, RestMethod::Get);
    assert_eq!(call.url, "https://s.org/x");
    assert_eq!(call.data, "");
    let r = rest(&list(&["GET", "{}", "u", "put", "{}", "u", "zzz", "", "u"]), &v).unwrap();
    assert!(r[0].is_none());
    assert_eq!(r[1].as_ref().unwrap().method, RestMethod::Put);
    assert!(r[2].is_none());
    assert!(matches!(rest(&list(&["GET"]), &v), Err(Error::RestFailed)));
    assert!(build_call(Some(RestMethod::Post), "", " ", &v).is_none());
}

#[test]
fn answers_of_the_server() {
    let (out, ok) = rest_answer(200, "{\"a\": 1}", Output::Json);
    assert_eq!(out, "{\"a\":1}\n");
    assert!(ok);
    let (out, ok) = rest_answer(404, "gone", Output::Json);
    assert_eq!(out, "");
    assert!(!ok);
    let (out, ok) = rest_answer(200, "fine", Output::JsonSpec);
    assert_eq!(out, "{\"response\":\"fine\"}\n");
    assert!(ok);
    let (out, _) = rest_answer(200, "{\"a\": 1}", Output::Text);
    assert_eq!(out, "{\"a\": 1}\n");
    assert_eq!(print_line(&credentials(None).stored()).lines().count(), 1);
}
