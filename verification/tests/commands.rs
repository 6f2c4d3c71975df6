use matrix_commander_ng::args::{
    assume_piped_message, checked_proxy, complete_lists, decode_separator, has_actions,
    key_file_args, listen_mode, log_filter, needs_sync, nth_action, plan, prepare_rooms,
    print_whoami, set_rooms, set_users, whoami, Action, LogFilter, RunState,
};
use matrix_commander_ng::ids::RoomStep;
use matrix_commander_ng::room_create::Visibility;
use matrix_commander_ng::{
    Args, Credentials, Error, Listen, LogLevel, Login, Logout, Output, Sync, Verify,
};

fn list(parts: &[&str]) -> Vec<String> {
    parts.iter().map(|p| p.to_string()).collect()
}

fn some(t: &str) -> Option<String> {
    Some(t.to_string())
}

fn args() -> Args {
    Args {
        debug: 0,
        log_level: None,
        version: None,
        contribute: false,
        usage: false,
        help: false,
        manual: false,
        readme: false,
        output: Output::Text,
        separator: String::new(),
        no_ssl: false,
        ssl_certificate: None,
        proxy: None,
        timeout: 0,
        sync: Sync::Full,
        credentials: String::new(),
        store: String::new(),
        creds: None,
        login: Login::Unset,
        homeserver: None,
        user_login: None,
        password: None,
        access_token: None,
        device: None,
        room_default: None,
        room: vec![],
        user: vec![],
        name: vec![],
        topic: vec![],
        alias: vec![],
        visibility: Visibility::Private,
        plain: None,
        room_dm_create_allow_duplicates: false,
        code: false,
        markdown: false,
        notice: false,
        emote: false,
        html: false,
        print_event_id: false,
        split: None,
        emojize: false,
        file_name: vec![],
        mime: vec![],
        key_dict: vec![],
        listen_self: false,
        tail: 0,
        bootstrap: false,
        verify: Verify::Unset,
        devices: false,
        get_room_info: vec![],
        rooms: false,
        invited_rooms: false,
        joined_rooms: false,
        left_rooms: false,
        room_get_visibility: vec![],
        room_get_state: vec![],
        joined_members: vec![],
        room_resolve_alias: vec![],
        get_avatar: None,
        get_avatar_url: false,
        get_display_name: false,
        get_profile: false,
        get_masterkey: false,
        media_download: vec![],
        get_openid_token: false,
        get_presence: false,
        discovery_info: false,
        login_info: false,
        content_repository_config: false,
        get_client_info: false,
        room_invites: None,
        has_permission: vec![],
        joined_dm_rooms: vec![],
        rest: vec![],
        room_create: vec![],
        room_dm_create: vec![],
        room_leave: vec![],
        room_forget: vec![],
        room_invite: vec![],
        room_join: vec![],
        room_ban: vec![],
        room_unban: vec![],
        room_kick: vec![],
        delete_device: vec![],
        set_avatar: None,
        set_avatar_url: None,
        unset_avatar_url: false,
        set_display_name: None,
        room_enable_encryption: vec![],
        media_upload: vec![],
        media_delete: vec![],
        import_keys: vec![],
        export_keys: vec![],
        set_device_name: None,
        set_presence: None,
        room_set_alias: vec![],
        room_delete_alias: vec![],
        delete_mxc_before: vec![],
        room_redact: vec![],
        message: vec![],
        file: vec![],
        image: vec![],
        audio: vec![],
        event: vec![],
        listen: Listen::Never,
        logout: Logout::Unset,
        whoami: false,
        media_mxc_to_http: vec![],
    }
}

fn credentials() -> Option<Credentials> {
    Some(Credentials::new(
        "https://s.org/".to_string(),
        "@me:s.org".to_string(),
        "token".to_string(),
        "DEV".to_string(),
        "!r:s.org".to_string(),
        None,
    ))
}

#[test]
fn nothing_is_asked_for() {
    assert_eq!(plan(&args()), vec![]);
    assert!(!has_actions(&args()));
    assert!(!needs_sync(&args()));
}

#[test]
fn actions_come_in_a_fixed_order() {
    let mut ap = args();
    ap.logout = Logout::Me;
    ap.message = list(&["Hi"]);
    ap.devices = true;
    ap.room_create = list(&["a"]);
    ap.get_avatar = some("file");
    ap.verify = Verify::Emoji;
    ap.listen = Listen::Once;
    assert_eq!(
        plan(&ap),
        vec![
            Action::Verify,
            Action::Devices,
            Action::GetAvatar,
            Action::RoomCreate,
            Action::Message,
            Action::ListenOnce,
            Action::Logout,
        ]
    );
    assert!(has_actions(&ap));
    assert!(needs_sync(&ap));
    assert_eq!(nth_action(0), Action::Bootstrap);
    for a in plan(&ap) {
        assert!(a.wanted(&ap));
        assert!(!a.wanted(&args()));
    }
}

#[test]
fn each_kind_of_listening_is_an_action() {
    for (listen, action) in [
        (Listen::Once, Action::ListenOnce),
        (Listen::Forever, Action::ListenForever),
        (Listen::Tail, Action::ListenTail),
        (Listen::All, Action::ListenAll),
    ] {
        let mut ap = args();
        ap.listen = listen;
        assert_eq!(plan(&ap), vec![action]);
    }
    assert_eq!(listen_mode(Listen::Once, 3), Listen::Tail);
    assert_eq!(listen_mode(Listen::Once, 0), Listen::Once);
}

#[test]
fn some_actions_need_no_sync() {
    let mut ap = args();
    ap.devices = true;
    ap.get_profile = true;
    ap.rest = list(&["GET", "", "u"]);
    assert!(has_actions(&ap));
    assert!(!needs_sync(&ap));
    ap.rooms = true;
    assert!(needs_sync(&ap));
    let mut ap = args();
    ap.tail = 1;
    assert!(has_actions(&ap) && needs_sync(&ap));
    let mut ap = args();
    ap.login = Login::Sso;
    assert!(has_actions(&ap) && !needs_sync(&ap));
}

#[test]
fn lists_are_completed() {
    let mut ap = args();
    ap.room_resolve_alias = list(&["a", " "]);
    ap.room_set_alias = list(&["#b"]);
    ap.room_delete_alias = list(&["c:x"]);
    ap.room_dm_create = list(&["u", ""]);
    ap.alias = list(&["d"]);
    ap.media_download = list(&["key"]);
    ap.media_delete = list(&["mxc://x/y"]);
    ap.message = list(&["stays"]);
    ap.tail = 5;
    complete_lists(&mut ap, "s.org");
    assert_eq!(ap.room_resolve_alias, list(&["#a:s.org"]));
    assert_eq!(ap.room_set_alias, list(&["#b:s.org"]));
    assert_eq!(ap.room_delete_alias, list(&["#c:x"]));
    assert_eq!(ap.room_dm_create, list(&["@u:s.org"]));
    assert_eq!(ap.alias, list(&["#d:s.org"]));
    assert_eq!(ap.media_download, list(&["mxc://s.org/key"]));
    assert_eq!(ap.media_delete, list(&["mxc://x/y"]));
    assert_eq!(ap.message, list(&["stays"]));
    assert_eq!(ap.listen, Listen::Tail);
}

#[test]
fn rooms_are_prepared() {
    let known = list(&["!k:s"]);
    let steps = prepare_rooms(&list(&["-", "*", "name"]), "!d:s", Some(&known), "s");
    let shown: Vec<String> = steps
        .iter()
        .map(|s| match s {
            RoomStep::Done(id) => format!("done {id}"),
            RoomStep::Resolve(alias) => format!("resolve {alias}"),
        })
        .collect();
    assert_eq!(shown, list(&["resolve #name:s", "done !d:s", "done !k:s"]));
    let steps = prepare_rooms(&list(&["*"]), "!d:s", None, "s");
    assert!(matches!(&steps[0], RoomStep::Resolve(alias) if alias == "#*:s"));
}

fn filter(debug: u8, levels: Option<Vec<LogLevel>>, env: bool) -> String {
    match log_filter(debug, &levels, env) {
        Ok(LogFilter::Environment) => "environment".to_string(),
        Ok(LogFilter::Filter(f)) => f,
        Err(e) => e.message(),
    }
}

#[test]
fn what_is_logged() {
    assert_eq!(filter(0, None, true), "environment");
    assert_eq!(filter(0, None, false), "error,matrix_commander_ng=info");
    assert_eq!(filter(0, Some(vec![LogLevel::Warn]), true), "matrix_commander_ng=Warn");
    assert_eq!(
        filter(0, Some(vec![LogLevel::Warn, LogLevel::Error]), true),
        "Error,matrix_commander_ng=Warn"
    );
    assert_eq!(filter(1, None, true), "matrix_commander_ng=Debug");
    assert_eq!(filter(2, None, true), "Debug,matrix_commander_ng=Debug");
    assert_eq!(
        filter(0, Some(vec![LogLevel::Unset]), true),
        "Unsupported CLI parameter: Value 'none' not allowed for --log-level argument"
    );
}

#[test]
fn proxies() {
    assert_eq!(checked_proxy(false, false, &None).unwrap(), None);
    assert_eq!(checked_proxy(false, false, &some("")).unwrap(), None);
    for p in ["http://p:1", "socks4://p", "socks5://p"] {
        assert_eq!(checked_proxy(true, false, &some(p)).unwrap(), some(p));
    }
    let e = checked_proxy(false, false, &some("ftp://p")).unwrap_err();
    assert_eq!(
        e.message(),
        "Unsupported CLI parameter: Invalid proxy URL. \
         Must start with http://, socks4://, or socks5://."
    );
    assert!(matches!(
        checked_proxy(true, true, &None),
        Err(Error::UnsupportedCliParameter(_))
    ));
}

#[test]
fn separators() {
    assert_eq!(decode_separator("\\t|\\n|\\\\"), "\t|\n|\\");
    assert_eq!(decode_separator("    "), "    ");
}

#[test]
fn piped_messages_and_default_rooms() {
    let mut m = list(&[]);
    assume_piped_message(&mut m, true);
    assert!(m.is_empty());
    assume_piped_message(&mut m, false);
    assert_eq!(m, list(&["-"]));
    let mut m = list(&["Hi"]);
    assume_piped_message(&mut m, false);
    assert_eq!(m, list(&["Hi"]));
    let mut r = list(&[]);
    set_rooms(&mut r, "!d:s");
    assert_eq!(r, list(&["!d:s"]));
    set_rooms(&mut r, "!e:s");
    assert_eq!(r, list(&["!d:s"]));
}

#[test]
fn the_user_of_the_credentials() {
    assert_eq!(whoami(&credentials()).unwrap(), "@me:s.org");
    assert!(matches!(whoami(&None), Err(Error::NotLoggedIn)));
    let mut u = list(&[]);
    assert!(matches!(set_users(&mut u, &None), Err(Error::NotLoggedIn)));
    set_users(&mut u, &credentials()).unwrap();
    assert_eq!(u, list(&["@me:s.org"]));
    let mut u = list(&["@u:s"]);
    set_users(&mut u, &None).unwrap();
    assert_eq!(u, list(&["@u:s"]));
    assert_eq!(print_whoami("@me:s", Output::Text), "@me:s\n");
    assert_eq!(print_whoami("@me:s", Output::Json), "{\"user_id\": \"@me:s\"}\n");
    assert_eq!(print_whoami("@me:s", Output::JsonSpec), "");
}

#[test]
fn key_files() {
    let (file, phrase) = key_file_args(&list(&["f", "p"])).unwrap();
    assert_eq!((file.as_str(), phrase.as_str()), ("f", "p"));
    assert!(matches!(key_file_args(&list(&["f"])), Err(Error::MissingCliParameter)));
}

#[test]
fn the_last_error_is_the_result() {
    let mut s = RunState::new();
    assert!(!s.has_errors());
    s.note(Ok(()));
    assert_eq!(s.summary(), "Encountered 0 errors.");
    s.note(Err(Error::SendFailed));
    assert_eq!(s.summary(), "Encountered 1 error.");
    s.note(Err(Error::RestFailed));
    s.note(Ok(()));
    assert_eq!(s.summary(), "Encountered 2 errors.");
    assert!(s.has_errors());
    assert!(matches!(s.finish(), Err(Error::RestFailed)));
    assert!(RunState::new().finish().is_ok());
}
