use matrix_commander_ng::session::{
    accept_answer, accept_with_url, asks_for_all, delete_credentials, devices_to_delete,
    host_of, login_prompts, logout, required_argument, resolve_device, resolve_devices, sync_timeout,
    verify, verify_succeeded, Prompt, VerifyOutcome, VerifyPlan,
};
use matrix_commander_ng::{Error, Listen, Login, Logout, Sync, Verify};

fn list(parts: &[&str]) -> Vec<String> {
    parts.iter().map(|p| p.to_string()).collect()
}

fn some(t: &str) -> Option<String> {
    Some(t.to_string())
}

#[test]
fn questions_at_login() {
    assert_eq!(
        login_prompts(Login::Password, false).unwrap(),
        vec![
            Prompt::Homeserver,
            Prompt::UserLogin,
            Prompt::Password,
            Prompt::Device,
            Prompt::RoomDefault,
        ]
    );
    assert_eq!(
        login_prompts(Login::AccessToken, false).unwrap(),
        vec![Prompt::Homeserver, Prompt::UserLogin, Prompt::AccessToken, Prompt::RoomDefault]
    );
    assert_eq!(
        login_prompts(Login::Sso, false).unwrap(),
        vec![Prompt::Homeserver, Prompt::Device, Prompt::RoomDefault]
    );
    assert!(matches!(login_prompts(Login::Sso, true), Err(Error::LoginUnnecessary)));
    let e = login_prompts(Login::Unset, true).unwrap_err();
    assert_eq!(e.message(), "Unsupported CLI parameter: --login cannot be empty");
}

#[test]
fn answers_at_login() {
    assert_eq!(accept_answer(Prompt::Homeserver, " https://s.org \n"), some("https://s.org/"));
    assert_eq!(accept_answer(Prompt::Homeserver, "s.org"), None);
    assert_eq!(accept_answer(Prompt::Homeserver, "\n"), None);
    assert_eq!(accept_answer(Prompt::UserLogin, " @me:s\n"), some("@me:s"));
    assert_eq!(accept_answer(Prompt::UserLogin, "me"), None);
    assert_eq!(accept_answer(Prompt::Password, " secret "), some(" secret "));
    assert_eq!(accept_answer(Prompt::Password, "  "), None);
    assert_eq!(accept_answer(Prompt::Device, " dev \n"), some("dev"));
    assert_eq!(accept_answer(Prompt::RoomDefault, "!r:s"), some("!r:s"));
    assert_eq!(accept_answer(Prompt::RoomDefault, "#r:s"), None);
    assert_eq!(accept_answer(Prompt::AccessToken, "token"), None);
    assert_eq!(accept_with_url(Prompt::Homeserver, "x", some("u")), some("u"));
    assert_eq!(accept_with_url(Prompt::Homeserver, "x", None), None);
    assert_eq!(required_argument(&some("a")).unwrap(), "a");
    assert!(matches!(required_argument(&None), Err(Error::MissingCliParameter)));
}

#[test]
fn when_to_sync() {
    let t = |listen, fresh, needed, sync, secs| sync_timeout(listen, fresh, needed, sync, secs);
    assert_eq!(t(Listen::Never, true, false, Sync::Full, 60), Some(30));
    assert_eq!(t(Listen::Never, false, true, Sync::Full, 20), Some(20));
    assert_eq!(t(Listen::Never, false, false, Sync::Full, 20), None);
    assert_eq!(t(Listen::Never, true, true, Sync::Off, 20), None);
    assert_eq!(t(Listen::Once, true, true, Sync::Full, 20), None);
}

#[test]
fn verification() {
    let users = list(&["@u:s", "bad"]);
    match verify(Verify::ManualUser, &users, &None).unwrap() {
        VerifyPlan::Users(list) => assert_eq!(list, vec![some("@u:s"), None]),
        _ => panic!("users expected"),
    }
    assert!(matches!(
        verify(Verify::ManualDevice, &users, &None).unwrap(),
        VerifyPlan::Devices
    ));
    assert!(matches!(
        verify(Verify::Emoji, &users, &None).unwrap(),
        VerifyPlan::WaitForEmojis
    ));
    assert!(matches!(
        verify(Verify::EmojiReq, &users, &some("D")).unwrap(),
        VerifyPlan::Nothing
    ));
    match verify(Verify::EmojiReq, &list(&["@u:s"]), &some("D")).unwrap() {
        VerifyPlan::RequestEmojis(user, device) => {
            assert_eq!((user.as_str(), device.as_str()), ("@u:s", "D"));
        }
        _ => panic!("a request expected"),
    }
    let e = verify(Verify::Unset, &users, &None).unwrap_err();
    assert_eq!(e.message(), "Unsupported CLI parameter: Argument --verify cannot be empty");
}

#[test]
fn devices_that_are_meant() {
    assert_eq!(resolve_device("Me", "me", "OWN"), "OWN");
    assert_eq!(resolve_device("X", "x", "OWN"), "X");
    assert_eq!(resolve_devices(&list(&["ME", "X"]), "OWN"), list(&["OWN", "X"]));
    assert!(asks_for_all(&list(&["X", "*"])));
    assert!(!asks_for_all(&list(&["X"])));
    let all = list(&["A", "B"]);
    assert_eq!(devices_to_delete(&list(&["X"]), &all), list(&["X"]));
    assert_eq!(devices_to_delete(&list(&["X", "*"]), &all), list(&["X", "A", "B"]));
}

#[test]
fn what_deleting_devices_needs() {
    let (user, password) = delete_credentials(&list(&["@u:s", "@v:s"]), &some("pw")).unwrap();
    assert_eq!((user.as_str(), password.as_str()), ("@u:s", "pw"));
    assert!(matches!(delete_credentials(&list(&[]), &some("pw")), Err(Error::MissingUser)));
    assert!(matches!(
        delete_credentials(&list(&["@u:s"]), &None),
        Err(Error::MissingPassword)
    ));
}

#[test]
fn logging_out() {
    let p = logout(Logout::Me);
    assert!(!p.delete_all_devices && p.end_session && p.remove_credentials);
    let p = logout(Logout::All);
    assert!(p.delete_all_devices && !p.end_session && p.remove_credentials);
    let p = logout(Logout::Unset);
    assert!(!p.delete_all_devices && !p.end_session && !p.remove_credentials);
}

#[test]
fn the_host_of_a_homeserver() {
    assert_eq!(host_of("https://matrix.s.org:8448/path"), some("matrix.s.org"));
    assert_eq!(host_of("HTTPS://S.ORG"), some("s.org"));
    assert_eq!(host_of("mailto:me"), None);
    assert_eq!(host_of("s.org"), None);
}

#[test]
fn unknown_devices_are_no_failures() {
    assert!(verify_succeeded(VerifyOutcome::Verified));
    assert!(verify_succeeded(VerifyOutcome::Unknown));
    assert!(!verify_succeeded(VerifyOutcome::Failed));
}
