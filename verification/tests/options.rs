use matrix_commander_ng::{
    DownloadMediaName, Error, Listen, LogLevel, Login, Logout, Output, Presence, Sync, Verify,
    Version,
};

#[test]
fn login_words() {
    assert_eq!(Login::from_text("none"), Ok(Login::Unset));
    assert_eq!(Login::from_text("Password"), Ok(Login::Password));
    assert_eq!(Login::from_text("access_token"), Ok(Login::AccessToken));
    assert_eq!(Login::from_text("access-token"), Ok(Login::AccessToken));
    assert_eq!(Login::from_text(" AccessToken\n"), Ok(Login::AccessToken));
    assert_eq!(Login::from_text("SSO"), Ok(Login::Sso));
    assert_eq!(Login::from_text("sso!"), Err(()));
    assert_eq!(Login::from_text(""), Err(()));
    assert_eq!("sso".parse::<Login>(), Ok(Login::Sso));
}

#[test]
fn login_is_exactly_one_of_its_kinds() {
    assert!(Login::Password.is_password());
    assert!(!Login::Sso.is_password());
    assert!(Login::AccessToken.is_access_token());
    assert!(!Login::Password.is_access_token());
    assert!(Login::Unset.is_none());
    assert!(!Login::Sso.is_none());
    assert_eq!(Login::default(), Login::Unset);
}

#[test]
fn login_reads_back() {
    for l in [Login::Unset, Login::Password, Login::AccessToken, Login::Sso] {
        assert_eq!(Login::from_text(&l.display()), Ok(l));
    }
    assert_eq!(Login::Unset.display(), "None");
    assert_eq!(Login::AccessToken.display(), "AccessToken");
    assert_eq!(" \taCCESStOKEN\r\n".parse::<Login>(), Ok(Login::AccessToken));
    assert_eq!("\u{3000}sSo\u{a0}".parse::<Login>(), Ok(Login::Sso));
    assert_eq!("\u{2003}json-MAX\u{85}".parse::<Output>(), Ok(Output::JsonMax));
    assert_eq!(" jSON\n".parse::<Output>(), Ok(Output::Json));
}

#[test]
fn sync_words() {
    assert_eq!(Sync::from_text("OFF"), Ok(Sync::Off));
    assert_eq!(Sync::from_text("full"), Ok(Sync::Full));
    assert_eq!(Sync::from_text("on"), Err(()));
    assert_eq!("off".parse::<Sync>(), Ok(Sync::Off));
    assert!(Sync::Off.is_off() && !Sync::Full.is_off());
    assert!(Sync::Full.is_full() && !Sync::Off.is_full());
    assert_eq!(Sync::default(), Sync::Full);
    for s in [Sync::Off, Sync::Full] {
        assert_eq!(Sync::from_text(&s.display()), Ok(s));
    }
}

#[test]
fn version_words() {
    assert_eq!(Version::from_text("Check"), Ok(Version::Check));
    assert_eq!(Version::from_text("checks"), Err(()));
    assert_eq!("check".parse::<Version>(), Ok(Version::Check));
    assert_eq!(Version::default(), Version::Check);
    assert_eq!(Version::from_text(&Version::Check.display()), Ok(Version::Check));
}

#[test]
fn verify_words() {
    assert_eq!(Verify::from_text("none"), Ok(Verify::Unset));
    assert_eq!(Verify::from_text("manual-device"), Ok(Verify::ManualDevice));
    assert_eq!(Verify::from_text("MANUAL-USER"), Ok(Verify::ManualUser));
    assert_eq!(Verify::from_text("emoji"), Ok(Verify::Emoji));
    assert_eq!(Verify::from_text("emoji-req"), Ok(Verify::EmojiReq));
    assert_eq!(Verify::from_text("emoji_req"), Err(()));
    assert_eq!("emoji".parse::<Verify>(), Ok(Verify::Emoji));
    assert!(Verify::Unset.is_none() && !Verify::Emoji.is_none());
    assert!(Verify::ManualDevice.is_manual_device() && !Verify::ManualUser.is_manual_device());
    assert!(Verify::ManualUser.is_manual_user() && !Verify::ManualDevice.is_manual_user());
    assert!(Verify::Emoji.is_emoji() && !Verify::EmojiReq.is_emoji());
    assert!(Verify::EmojiReq.is_emoji_req() && !Verify::Emoji.is_emoji_req());
    assert_eq!(Verify::default(), Verify::Unset);
}

#[test]
fn only_two_kinds_of_verification_read_back() {
    assert_eq!(Verify::from_text(&Verify::Unset.display()), Ok(Verify::Unset));
    assert_eq!(Verify::from_text(&Verify::Emoji.display()), Ok(Verify::Emoji));
    assert_eq!(Verify::ManualDevice.display(), "ManualDevice");
    assert_eq!(Verify::from_text("ManualDevice"), Err(()));
    assert_eq!(Verify::from_text(&Verify::ManualUser.display()), Err(()));
    assert_eq!(Verify::from_text(&Verify::EmojiReq.display()), Err(()));
}

#[test]
fn logout_words() {
    assert_eq!(Logout::from_text("Me "), Ok(Logout::Me));
    assert_eq!(Logout::from_text("all"), Ok(Logout::All));
    assert_eq!(Logout::from_text("none"), Ok(Logout::Unset));
    assert_eq!(Logout::from_text("you"), Err(()));
    assert_eq!("me".parse::<Logout>(), Ok(Logout::Me));
    assert!(Logout::Unset.is_none() && !Logout::Me.is_none());
    assert!(Logout::Me.is_me() && !Logout::All.is_me());
    assert!(Logout::All.is_all() && !Logout::Me.is_all());
    assert_eq!(Logout::default(), Logout::Unset);
    for l in [Logout::Unset, Logout::Me, Logout::All] {
        assert_eq!(Logout::from_text(&l.display()), Ok(l));
    }
}

#[test]
fn listen_words() {
    let all = [Listen::Never, Listen::Once, Listen::Forever, Listen::Tail, Listen::All];
    for l in all {
        assert_eq!(Listen::from_text(&l.display()), Ok(l));
        assert_eq!(l.is_never(), l == Listen::Never);
        assert_eq!(l.is_once(), l == Listen::Once);
        assert_eq!(l.is_forever(), l == Listen::Forever);
        assert_eq!(l.is_tail(), l == Listen::Tail);
        assert_eq!(l.is_all(), l == Listen::All);
    }
    assert_eq!(Listen::from_text("\tFOREVER"), Ok(Listen::Forever));
    assert_eq!(Listen::from_text("for ever"), Err(()));
    assert_eq!("tail".parse::<Listen>(), Ok(Listen::Tail));
    assert_eq!(Listen::default(), Listen::Never);
}

#[test]
fn log_levels() {
    assert!(LogLevel::Unset.is_none());
    assert!(!LogLevel::Trace.is_none());
    assert_eq!(LogLevel::default(), LogLevel::Unset);
    assert_eq!(LogLevel::Unset.display(), "None");
    assert_eq!(LogLevel::Warn.display(), "Warn");
}

#[test]
fn output_words() {
    assert_eq!(Output::from_text("text"), Ok(Output::Text));
    assert_eq!(Output::from_text("JSON"), Ok(Output::Json));
    assert_eq!(Output::from_text("json-max"), Ok(Output::JsonMax));
    assert_eq!(Output::from_text("json_max"), Ok(Output::JsonMax));
    assert_eq!(Output::from_text("jsonmax"), Ok(Output::JsonMax));
    assert_eq!(Output::from_text("Json-Spec"), Ok(Output::JsonSpec));
    assert_eq!(Output::from_text("jsonspec"), Ok(Output::JsonSpec));
    assert_eq!(Output::from_text("json spec"), Err(()));
    assert_eq!("json".parse::<Output>(), Ok(Output::Json));
    assert!(Output::Text.is_text() && !Output::Json.is_text());
    assert_eq!(Output::default(), Output::Text);
    for o in [Output::Text, Output::Json, Output::JsonMax, Output::JsonSpec] {
        assert_eq!(Output::from_text(&o.display()), Ok(o));
    }
}

#[test]
fn letters_outside_ascii_are_lowered_too() {
    // The capital dotted I becomes two characters, the Kelvin sign a plain k.
    assert_eq!(Version::from_text("chec\u{212A}"), Ok(Version::Check));
    assert_eq!(Logout::from_text("\u{0130}"), Err(()));
}

#[test]
fn presence_and_download_names() {
    assert_eq!(Presence::default(), Presence::Online);
    assert_eq!(Presence::Online.display(), "online");
    assert_eq!(Presence::Offline.display(), "offline");
    assert_eq!(Presence::Unavailable.display(), "unavailable");
    assert_eq!(DownloadMediaName::default(), DownloadMediaName::Clean);
}

#[test]
fn error_texts() {
    assert_eq!(Error::Custom("Some text").message(), "Some text");
    let r: Result<u8, Error> = Error::custom("Oops");
    assert_eq!(r.unwrap_err().message(), "Oops");
    assert_eq!(Error::Matrix("M".to_string()).message(), "M");
}

#[test]
fn every_error_has_its_text() {
    let table = vec![
        (Error::NoHomeDirectory, "No valid home directory path"),
        (Error::NotLoggedIn, "Not logged in"),
        (Error::InvalidRoom, "Invalid Room"),
        (Error::HomeserverNotSet, "Homeserver Not Set"),
        (Error::InvalidFile, "Invalid File"),
        (Error::LoginFailed, "Login Failed"),
        (Error::VerifyFailed, "Verify Failed or Partially Failed"),
        (Error::BootstrapFailed, "Bootstrap Failed"),
        (Error::LoginUnnecessary, "Already logged in"),
        (Error::SendFailed, "Send Failed"),
        (Error::ListenFailed, "Listen Failed"),
        (Error::CreateRoomFailed, "Create Room Failed"),
        (Error::LeaveRoomFailed, "Leave Room Failed"),
        (Error::ForgetRoomFailed, "Forget Room Failed"),
        (Error::InviteRoomFailed, "Invite Room Failed"),
        (Error::JoinRoomFailed, "Join Room Failed"),
        (Error::BanRoomFailed, "Ban Room Failed"),
        (Error::UnbanRoomFailed, "Unban Room Failed"),
        (Error::KickRoomFailed, "Kick Room Failed"),
        (Error::ResolveRoomAliasFailed, "Resolve Room Alias Failed"),
        (Error::EnableEncryptionFailed, "Enable Encryption Failed"),
        (Error::RoomGetVisibilityFailed, "Room Get Visibility Failed"),
        (Error::RoomGetStateFailed, "Room Get State Failed"),
        (Error::JoinedMembersFailed, "JoinedMembersFailed"),
        (Error::DeleteDeviceFailed, "Delete Device Failed"),
        (Error::GetAvatarFailed, "Get Avatar Failed"),
        (Error::SetAvatarFailed, "Set Avatar Failed"),
        (Error::GetAvatarUrlFailed, "Get Avatar URL Failed"),
        (Error::SetAvatarUrlFailed, "Set Avatar URL Failed"),
        (Error::UnsetAvatarUrlFailed, "Unset Avatar URL Failed"),
        (Error::GetDisplaynameFailed, "Get Displayname Failed"),
        (Error::SetDisplaynameFailed, "Set Displayname Failed"),
        (Error::GetProfileFailed, "Get Profile Failed"),
        (Error::GetMasterkeyFailed, "Get Masterkey Failed"),
        (Error::RestoreLoginFailed, "Restoring Login Failed"),
        (Error::MediaUploadFailed, "Media Upload Failed"),
        (Error::MediaDownloadFailed, "Media Download Failed"),
        (Error::MediaDeleteFailed, "Media Delete Failed"),
        (Error::MediaMxcToHttpFailed, "MXC TO HTTP Failed"),
        (Error::EventSendFailed, "Event Send Failed"),
        (Error::ImportKeysFailed, "Import Keys Failed"),
        (Error::ExportKeysFailed, "Export Keys Failed"),
        (Error::GetOpenIdTokenFailed, "Get OpenID Token Failed"),
        (Error::SetDeviceNameFailed, "Set Device Name Failed"),
        (Error::SetPresenceFailed, "Set Presence Failed"),
        (Error::GetPresenceFailed, "Get Presence Failed"),
        (Error::RoomSetAliasFailed, "Room Set Alias Failed"),
        (Error::RoomDeleteAliasFailed, "Room Delete Alias Failed"),
        (Error::DiscoveryInfoFailed, "Discovery Info Failed"),
        (Error::LoginInfoFailed, "Login Info Failed"),
        (Error::ContentRepositoryConfigFailed, "Content Repository Config Failed"),
        (Error::DeleteMxcBeforeFailed, "Delete MXC Before Failed"),
        (Error::GetClientInfoFailed, "Get Client Info Failed"),
        (Error::RoomInvitesFailed, "Room Invites Failed"),
        (Error::RoomRedactFailed, "Room Redact Failed"),
        (Error::HasPermissionFailed, "Has Permission Failed"),
        (Error::JoinedDmRoomsFailed, "Joined DM Rooms Failed"),
        (Error::RestFailed, "REST API Call Failed"),
        (Error::InvalidClientConnection, "Invalid Client Connection"),
        (Error::UnknownCliParameter, "Unknown CLI parameter"),
        (Error::UnsupportedCliParameter("--x"), "Unsupported CLI parameter: --x"),
        (Error::MissingRoom, "Missing Room"),
        (Error::MissingUser, "Missing User"),
        (Error::MissingPassword, "Missing Password"),
        (Error::MissingCliParameter, "Missing CLI parameter"),
        (Error::NotImplementedYet, "Not Implemented Yet"),
        (Error::NoCredentialsFound, "No Credentials Found"),
    ];
    for (e, text) in table {
        assert_eq!(e.message(), text);
    }
}
