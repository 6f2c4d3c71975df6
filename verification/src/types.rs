//! The values of the command line options, the errors and the credentials.

use vstd::prelude::*;

use crate::text::{
    all_ascii, all_white, ascii_lower, ascii_lower_char, is_white, lemma_replaced_absent,
    lemma_trimmed_around, lemma_trimmed_same, lower_text, replace_text, replaced, same_text,
    to_lower, trim, trimmed,
};

verus! {

/// Success with the value, or a failure that says nothing more.
pub open spec fn ok_or_unit<T>(v: Option<T>) -> Result<T, ()> {
    match v {
        Some(x) => Ok(x),
        None => Err(()),
    }
}

/// The enumerator for errors.
#[derive(Debug)]
pub enum Error {
    /// A message of its own.
    Custom(&'static str),
    /// No valid home directory path.
    NoHomeDirectory,
    /// Not logged in.
    NotLoggedIn,
    /// Invalid Room.
    InvalidRoom,
    /// Homeserver Not Set.
    HomeserverNotSet,
    /// Invalid File.
    InvalidFile,
    /// Login Failed.
    LoginFailed,
    /// Verify Failed or Partially Failed.
    VerifyFailed,
    /// Bootstrap Failed.
    BootstrapFailed,
    /// Already logged in.
    LoginUnnecessary,
    /// Send Failed.
    SendFailed,
    /// Listen Failed.
    ListenFailed,
    /// Create Room Failed.
    CreateRoomFailed,
    /// Leave Room Failed.
    LeaveRoomFailed,
    /// Forget Room Failed.
    ForgetRoomFailed,
    /// Invite Room Failed.
    InviteRoomFailed,
    /// Join Room Failed.
    JoinRoomFailed,
    /// Ban Room Failed.
    BanRoomFailed,
    /// Unban Room Failed.
    UnbanRoomFailed,
    /// Kick Room Failed.
    KickRoomFailed,
    /// Resolve Room Alias Failed.
    ResolveRoomAliasFailed,
    /// Enable Encryption Failed.
    EnableEncryptionFailed,
    /// Room Get Visibility Failed.
    RoomGetVisibilityFailed,
    /// Room Get State Failed.
    RoomGetStateFailed,
    /// JoinedMembersFailed.
    JoinedMembersFailed,
    /// Delete Device Failed.
    DeleteDeviceFailed,
    /// Get Avatar Failed.
    GetAvatarFailed,
    /// Set Avatar Failed.
    SetAvatarFailed,
    /// Get Avatar URL Failed.
    GetAvatarUrlFailed,
    /// Set Avatar URL Failed.
    SetAvatarUrlFailed,
    /// Unset Avatar URL Failed.
    UnsetAvatarUrlFailed,
    /// Get Displayname Failed.
    GetDisplaynameFailed,
    /// Set Displayname Failed.
    SetDisplaynameFailed,
    /// Get Profile Failed.
    GetProfileFailed,
    /// Get Masterkey Failed.
    GetMasterkeyFailed,
    /// Restoring Login Failed.
    RestoreLoginFailed,
    /// Media Upload Failed.
    MediaUploadFailed,
    /// Media Download Failed.
    MediaDownloadFailed,
    /// Media Delete Failed.
    MediaDeleteFailed,
    /// MXC TO HTTP Failed.
    MediaMxcToHttpFailed,
    /// Event Send Failed.
    EventSendFailed,
    /// Import Keys Failed.
    ImportKeysFailed,
    /// Export Keys Failed.
    ExportKeysFailed,
    /// Get OpenID Token Failed.
    GetOpenIdTokenFailed,
    /// Set Device Name Failed.
    SetDeviceNameFailed,
    /// Set Presence Failed.
    SetPresenceFailed,
    /// Get Presence Failed.
    GetPresenceFailed,
    /// Room Set Alias Failed.
    RoomSetAliasFailed,
    /// Room Delete Alias Failed.
    RoomDeleteAliasFailed,
    /// Discovery Info Failed.
    DiscoveryInfoFailed,
    /// Login Info Failed.
    LoginInfoFailed,
    /// Content Repository Config Failed.
    ContentRepositoryConfigFailed,
    /// Delete MXC Before Failed.
    DeleteMxcBeforeFailed,
    /// Get Client Info Failed.
    GetClientInfoFailed,
    /// Room Invites Failed.
    RoomInvitesFailed,
    /// Room Redact Failed.
    RoomRedactFailed,
    /// Has Permission Failed.
    HasPermissionFailed,
    /// Joined DM Rooms Failed.
    JoinedDmRoomsFailed,
    /// REST API Call Failed.
    RestFailed,
    /// Invalid Client Connection.
    InvalidClientConnection,
    /// Unknown CLI parameter.
    UnknownCliParameter,
    /// Unsupported CLI parameter.
    UnsupportedCliParameter(&'static str),
    /// Missing Room.
    MissingRoom,
    /// Missing User.
    MissingUser,
    /// Missing Password.
    MissingPassword,
    /// Missing CLI parameter.
    MissingCliParameter,
    /// Not Implemented Yet.
    NotImplementedYet,
    /// No Credentials Found.
    NoCredentialsFound,
    /// The error that an input or output operation reported.
    IO(String),
    /// The error that the Matrix client library reported.
    Matrix(String),
    /// The error that reading or writing JSON reported.
    Json(String),
    /// The error that a request to the server reported.
    Http(String),
}

impl Error {
    /// The message of the error.
    pub open spec fn text(self) -> Seq<char> {
        match self {
            Error::Custom(message) => message@,
            Error::NoHomeDirectory => "No valid home directory path"@,
            Error::NotLoggedIn => "Not logged in"@,
            Error::InvalidRoom => "Invalid Room"@,
            Error::HomeserverNotSet => "Homeserver Not Set"@,
            Error::InvalidFile => "Invalid File"@,
            Error::LoginFailed => "Login Failed"@,
            Error::VerifyFailed => "Verify Failed or Partially Failed"@,
            Error::BootstrapFailed => "Bootstrap Failed"@,
            Error::LoginUnnecessary => "Already logged in"@,
            Error::SendFailed => "Send Failed"@,
            Error::ListenFailed => "Listen Failed"@,
            Error::CreateRoomFailed => "Create Room Failed"@,
            Error::LeaveRoomFailed => "Leave Room Failed"@,
            Error::ForgetRoomFailed => "Forget Room Failed"@,
            Error::InviteRoomFailed => "Invite Room Failed"@,
            Error::JoinRoomFailed => "Join Room Failed"@,
            Error::BanRoomFailed => "Ban Room Failed"@,
            Error::UnbanRoomFailed => "Unban Room Failed"@,
            Error::KickRoomFailed => "Kick Room Failed"@,
            Error::ResolveRoomAliasFailed => "Resolve Room Alias Failed"@,
            Error::EnableEncryptionFailed => "Enable Encryption Failed"@,
            Error::RoomGetVisibilityFailed => "Room Get Visibility Failed"@,
            Error::RoomGetStateFailed => "Room Get State Failed"@,
            Error::JoinedMembersFailed => "JoinedMembersFailed"@,
            Error::DeleteDeviceFailed => "Delete Device Failed"@,
            Error::GetAvatarFailed => "Get Avatar Failed"@,
            Error::SetAvatarFailed => "Set Avatar Failed"@,
            Error::GetAvatarUrlFailed => "Get Avatar URL Failed"@,
            Error::SetAvatarUrlFailed => "Set Avatar URL Failed"@,
            Error::UnsetAvatarUrlFailed => "Unset Avatar URL Failed"@,
            Error::GetDisplaynameFailed => "Get Displayname Failed"@,
            Error::SetDisplaynameFailed => "Set Displayname Failed"@,
            Error::GetProfileFailed => "Get Profile Failed"@,
            Error::GetMasterkeyFailed => "Get Masterkey Failed"@,
            Error::RestoreLoginFailed => "Restoring Login Failed"@,
            Error::MediaUploadFailed => "Media Upload Failed"@,
            Error::MediaDownloadFailed => "Media Download Failed"@,
            Error::MediaDeleteFailed => "Media Delete Failed"@,
            Error::MediaMxcToHttpFailed => "MXC TO HTTP Failed"@,
            Error::EventSendFailed => "Event Send Failed"@,
            Error::ImportKeysFailed => "Import Keys Failed"@,
            Error::ExportKeysFailed => "Export Keys Failed"@,
            Error::GetOpenIdTokenFailed => "Get OpenID Token Failed"@,
            Error::SetDeviceNameFailed => "Set Device Name Failed"@,
            Error::SetPresenceFailed => "Set Presence Failed"@,
            Error::GetPresenceFailed => "Get Presence Failed"@,
            Error::RoomSetAliasFailed => "Room Set Alias Failed"@,
            Error::RoomDeleteAliasFailed => "Room Delete Alias Failed"@,
            Error::DiscoveryInfoFailed => "Discovery Info Failed"@,
            Error::LoginInfoFailed => "Login Info Failed"@,
            Error::ContentRepositoryConfigFailed => "Content Repository Config Failed"@,
            Error::DeleteMxcBeforeFailed => "Delete MXC Before Failed"@,
            Error::GetClientInfoFailed => "Get Client Info Failed"@,
            Error::RoomInvitesFailed => "Room Invites Failed"@,
            Error::RoomRedactFailed => "Room Redact Failed"@,
            Error::HasPermissionFailed => "Has Permission Failed"@,
            Error::JoinedDmRoomsFailed => "Joined DM Rooms Failed"@,
            Error::RestFailed => "REST API Call Failed"@,
            Error::InvalidClientConnection => "Invalid Client Connection"@,
            Error::UnknownCliParameter => "Unknown CLI parameter"@,
            Error::UnsupportedCliParameter(what) => "Unsupported CLI parameter: "@ + what@,
            Error::MissingRoom => "Missing Room"@,
            Error::MissingUser => "Missing User"@,
            Error::MissingPassword => "Missing Password"@,
            Error::MissingCliParameter => "Missing CLI parameter"@,
            Error::NotImplementedYet => "Not Implemented Yet"@,
            Error::NoCredentialsFound => "No Credentials Found"@,
            Error::IO(report) => report@,
            Error::Matrix(report) => report@,
            Error::Json(report) => report@,
            Error::Http(report) => report@,
        }
    }

    /// The message of the error.
    pub fn message(&self) -> (out: String)
        ensures
            out@ == self.text(),
    {
        match self {
            Error::Custom(message) => (*message).to_string(),
            Error::NoHomeDirectory => "No valid home directory path".to_string(),
            Error::NotLoggedIn => "Not logged in".to_string(),
            Error::InvalidRoom => "Invalid Room".to_string(),
            Error::HomeserverNotSet => "Homeserver Not Set".to_string(),
            Error::InvalidFile => "Invalid File".to_string(),
            Error::LoginFailed => "Login Failed".to_string(),
            Error::VerifyFailed => "Verify Failed or Partially Failed".to_string(),
            Error::BootstrapFailed => "Bootstrap Failed".to_string(),
            Error::LoginUnnecessary => "Already logged in".to_string(),
            Error::SendFailed => "Send Failed".to_string(),
            Error::ListenFailed => "Listen Failed".to_string(),
            Error::CreateRoomFailed => "Create Room Failed".to_string(),
            Error::LeaveRoomFailed => "Leave Room Failed".to_string(),
            Error::ForgetRoomFailed => "Forget Room Failed".to_string(),
            Error::InviteRoomFailed => "Invite Room Failed".to_string(),
            Error::JoinRoomFailed => "Join Room Failed".to_string(),
            Error::BanRoomFailed => "Ban Room Failed".to_string(),
            Error::UnbanRoomFailed => "Unban Room Failed".to_string(),
            Error::KickRoomFailed => "Kick Room Failed".to_string(),
            Error::ResolveRoomAliasFailed => "Resolve Room Alias Failed".to_string(),
            Error::EnableEncryptionFailed => "Enable Encryption Failed".to_string(),
            Error::RoomGetVisibilityFailed => "Room Get Visibility Failed".to_string(),
            Error::RoomGetStateFailed => "Room Get State Failed".to_string(),
            Error::JoinedMembersFailed => "JoinedMembersFailed".to_string(),
            Error::DeleteDeviceFailed => "Delete Device Failed".to_string(),
            Error::GetAvatarFailed => "Get Avatar Failed".to_string(),
            Error::SetAvatarFailed => "Set Avatar Failed".to_string(),
            Error::GetAvatarUrlFailed => "Get Avatar URL Failed".to_string(),
            Error::SetAvatarUrlFailed => "Set Avatar URL Failed".to_string(),
            Error::UnsetAvatarUrlFailed => "Unset Avatar URL Failed".to_string(),
            Error::GetDisplaynameFailed => "Get Displayname Failed".to_string(),
            Error::SetDisplaynameFailed => "Set Displayname Failed".to_string(),
            Error::GetProfileFailed => "Get Profile Failed".to_string(),
            Error::GetMasterkeyFailed => "Get Masterkey Failed".to_string(),
            Error::RestoreLoginFailed => "Restoring Login Failed".to_string(),
            Error::MediaUploadFailed => "Media Upload Failed".to_string(),
            Error::MediaDownloadFailed => "Media Download Failed".to_string(),
            Error::MediaDeleteFailed => "Media Delete Failed".to_string(),
            Error::MediaMxcToHttpFailed => "MXC TO HTTP Failed".to_string(),
            Error::EventSendFailed => "Event Send Failed".to_string(),
            Error::ImportKeysFailed => "Import Keys Failed".to_string(),
            Error::ExportKeysFailed => "Export Keys Failed".to_string(),
            Error::GetOpenIdTokenFailed => "Get OpenID Token Failed".to_string(),
            Error::SetDeviceNameFailed => "Set Device Name Failed".to_string(),
            Error::SetPresenceFailed => "Set Presence Failed".to_string(),
            Error::GetPresenceFailed => "Get Presence Failed".to_string(),
            Error::RoomSetAliasFailed => "Room Set Alias Failed".to_string(),
            Error::RoomDeleteAliasFailed => "Room Delete Alias Failed".to_string(),
            Error::DiscoveryInfoFailed => "Discovery Info Failed".to_string(),
            Error::LoginInfoFailed => "Login Info Failed".to_string(),
            Error::ContentRepositoryConfigFailed => "Content Repository Config Failed".to_string(),
            Error::DeleteMxcBeforeFailed => "Delete MXC Before Failed".to_string(),
            Error::GetClientInfoFailed => "Get Client Info Failed".to_string(),
            Error::RoomInvitesFailed => "Room Invites Failed".to_string(),
            Error::RoomRedactFailed => "Room Redact Failed".to_string(),
            Error::HasPermissionFailed => "Has Permission Failed".to_string(),
            Error::JoinedDmRoomsFailed => "Joined DM Rooms Failed".to_string(),
            Error::RestFailed => "REST API Call Failed".to_string(),
            Error::InvalidClientConnection => "Invalid Client Connection".to_string(),
            Error::UnknownCliParameter => "Unknown CLI parameter".to_string(),
            Error::UnsupportedCliParameter(what) => {
                let mut out = "Unsupported CLI parameter: ".to_string();
                out.append(what);
                out
            },
            Error::MissingRoom => "Missing Room".to_string(),
            Error::MissingUser => "Missing User".to_string(),
            Error::MissingPassword => "Missing Password".to_string(),
            Error::MissingCliParameter => "Missing CLI parameter".to_string(),
            Error::NotImplementedYet => "Not Implemented Yet".to_string(),
            Error::NoCredentialsFound => "No Credentials Found".to_string(),
            Error::IO(report) => report.clone(),
            Error::Matrix(report) => report.clone(),
            Error::Json(report) => report.clone(),
            Error::Http(report) => report.clone(),
        }
    }

    /// Fails with a message of its own.
    pub fn custom<T>(message: &'static str) -> (r: Result<T, Error>)
        ensures
            r matches Err(Error::Custom(m)) && m == message,
    {
        Err(Error::Custom(message))
    }
}
/// Enumerator used for the --login option.
#[derive(Clone, Copy, Debug, PartialEq, Eq, Structural)]
pub enum Login {
    /// Unset: no login specified, don't login.
    Unset,
    /// Password: login with password.
    Password,
    /// AccessToken: login with access-token.
    AccessToken,
    /// Sso: login with SSO, single-sign on.
    Sso,
}

impl Default for Login {
    fn default() -> (r: Login)
        ensures
            r == Login::Unset,
    {
        Login::Unset
    }
}

impl Login {
    pub fn is_password(&self) -> (r: bool)
        ensures
            r == (*self == Login::Password),
    {
        *self == Login::Password
    }

    pub fn is_access_token(&self) -> (r: bool)
        ensures
            r == (*self == Login::AccessToken),
    {
        *self == Login::AccessToken
    }

    pub fn is_none(&self) -> (r: bool)
        ensures
            r == (*self == Login::Unset),
    {
        *self == Login::Unset
    }

    /// The name of the variant.
    pub open spec fn name_text(self) -> Seq<char> {
        match self {
            Login::Unset => "None"@,
            Login::Password => "Password"@,
            Login::AccessToken => "AccessToken"@,
            Login::Sso => "Sso"@,
        }
    }

    /// The text under which the value is shown.
    pub fn display(&self) -> (out: String)
        ensures
            out@ == self.name_text(),
    {
        match self {
            Login::Unset => "None".to_string(),
            Login::Password => "Password".to_string(),
            Login::AccessToken => "AccessToken".to_string(),
            Login::Sso => "Sso".to_string(),
        }
    }

    /// The value that a word, in small letters and trimmed, stands for.
    pub open spec fn word(t: Seq<char>) -> Option<Login> {
        if t == "none"@ {
            Some(Login::Unset)
        } else if t == "password"@ {
            Some(Login::Password)
        } else if t == "access_token"@ || t == "access-token"@ || t == "accesstoken"@ {
            Some(Login::AccessToken)
        } else if t == "sso"@ {
            Some(Login::Sso)
        } else {
            None
        }
    }

    /// Reads a word that is in small letters and trimmed.
    pub fn of_word(t: &str) -> (r: Result<Login, ()>)
        ensures
            r == ok_or_unit(Login::word(t@)),
    {
        if same_text(t, "none") {
            Ok(Login::Unset)
        } else if same_text(t, "password") {
            Ok(Login::Password)
        } else if same_text(t, "access_token") || same_text(t, "access-token") || same_text(t, "accesstoken") {
            Ok(Login::AccessToken)
        } else if same_text(t, "sso") {
            Ok(Login::Sso)
        } else {
            Err(())
        }
    }

    /// Reads the text of a command line argument, whatever its case and the white space around
    /// it.
    pub fn from_text(src: &str) -> (r: Result<Login, ()>)
        ensures
            r == ok_or_unit(Login::word(lower_text(trimmed(src@)))),
            all_ascii(trimmed(src@)) ==> r == ok_or_unit(Login::word(ascii_lower(trimmed(src@)))),
    {
        let word = trim(src);
        let lower = to_lower(word.as_str());
        Login::of_word(lower.as_str())
    }
}

impl std::str::FromStr for Login {
    type Err = ();

    fn from_str(src: &str) -> (r: Result<Login, ()>)
        ensures
            r == ok_or_unit(Login::word(lower_text(trimmed(src@)))),
            all_ascii(trimmed(src@)) ==> r == ok_or_unit(Login::word(ascii_lower(trimmed(src@)))),
    {
        Login::from_text(src)
    }
}

/// Enumerator used for the --sync option.
#[derive(Clone, Copy, Debug, PartialEq, Eq, Structural)]
pub enum Sync {
    /// Off: turns syncing off for sending operations to improve performance.
    Off,
    /// Full: syncs with the full state, the default value.
    Full,
}

impl Default for Sync {
    fn default() -> (r: Sync)
        ensures
            r == Sync::Full,
    {
        Sync::Full
    }
}

impl Sync {
    pub fn is_off(&self) -> (r: bool)
        ensures
            r == (*self == Sync::Off),
    {
        *self == Sync::Off
    }

    pub fn is_full(&self) -> (r: bool)
        ensures
            r == (*self == Sync::Full),
    {
        *self == Sync::Full
    }

    /// The name of the variant.
    pub open spec fn name_text(self) -> Seq<char> {
        match self {
            Sync::Off => "Off"@,
            Sync::Full => "Full"@,
        }
    }

    /// The text under which the value is shown.
    pub fn display(&self) -> (out: String)
        ensures
            out@ == self.name_text(),
    {
        match self {
            Sync::Off => "Off".to_string(),
            Sync::Full => "Full".to_string(),
        }
    }

    /// The value that a word, in small letters and trimmed, stands for.
    pub open spec fn word(t: Seq<char>) -> Option<Sync> {
        if t == "off"@ {
            Some(Sync::Off)
        } else if t == "full"@ {
            Some(Sync::Full)
        } else {
            None
        }
    }

    /// Reads a word that is in small letters and trimmed.
    pub fn of_word(t: &str) -> (r: Result<Sync, ()>)
        ensures
            r == ok_or_unit(Sync::word(t@)),
    {
        if same_text(t, "off") {
            Ok(Sync::Off)
        } else if same_text(t, "full") {
            Ok(Sync::Full)
        } else {
            Err(())
        }
    }

    /// Reads the text of a command line argument, whatever its case and the white space around
    /// it.
    pub fn from_text(src: &str) -> (r: Result<Sync, ()>)
        ensures
            r == ok_or_unit(Sync::word(lower_text(trimmed(src@)))),
            all_ascii(trimmed(src@)) ==> r == ok_or_unit(Sync::word(ascii_lower(trimmed(src@)))),
    {
        let word = trim(src);
        let lower = to_lower(word.as_str());
        Sync::of_word(lower.as_str())
    }
}

impl std::str::FromStr for Sync {
    type Err = ();

    fn from_str(src: &str) -> (r: Result<Sync, ()>)
        ensures
            r == ok_or_unit(Sync::word(lower_text(trimmed(src@)))),
            all_ascii(trimmed(src@)) ==> r == ok_or_unit(Sync::word(ascii_lower(trimmed(src@)))),
    {
        Sync::from_text(src)
    }
}

/// Enumerator used for the --version option.
#[derive(Clone, Copy, Debug, PartialEq, Eq, Structural)]
pub enum Version {
    /// Check: check if there is a newer version available.
    Check,
}

impl Default for Version {
    fn default() -> (r: Version)
        ensures
            r == Version::Check,
    {
        Version::Check
    }
}

impl Version {
    /// The name of the variant.
    pub open spec fn name_text(self) -> Seq<char> {
        match self {
            Version::Check => "Check"@,
        }
    }

    /// The text under which the value is shown.
    pub fn display(&self) -> (out: String)
        ensures
            out@ == self.name_text(),
    {
        match self {
            Version::Check => "Check".to_string(),
        }
    }

    /// The value that a word, in small letters and trimmed, stands for.
    pub open spec fn word(t: Seq<char>) -> Option<Version> {
        if t == "check"@ {
            Some(Version::Check)
        } else {
            None
        }
    }

    /// Reads a word that is in small letters and trimmed.
    pub fn of_word(t: &str) -> (r: Result<Version, ()>)
        ensures
            r == ok_or_unit(Version::word(t@)),
    {
        if same_text(t, "check") {
            Ok(Version::Check)
        } else {
            Err(())
        }
    }

    /// Reads the text of a command line argument, whatever its case and the white space around
    /// it.
    pub fn from_text(src: &str) -> (r: Result<Version, ()>)
        ensures
            r == ok_or_unit(Version::word(lower_text(trimmed(src@)))),
            all_ascii(trimmed(src@)) ==> r == ok_or_unit(Version::word(ascii_lower(trimmed(src@)))),
    {
        let word = trim(src);
        let lower = to_lower(word.as_str());
        Version::of_word(lower.as_str())
    }
}

impl std::str::FromStr for Version {
    type Err = ();

    fn from_str(src: &str) -> (r: Result<Version, ()>)
        ensures
            r == ok_or_unit(Version::word(lower_text(trimmed(src@)))),
            all_ascii(trimmed(src@)) ==> r == ok_or_unit(Version::word(ascii_lower(trimmed(src@)))),
    {
        Version::from_text(src)
    }
}

/// Enumerator used for the --verify option.
#[derive(Clone, Copy, Debug, PartialEq, Eq, Structural)]
pub enum Verify {
    /// Unset: option not used, no verification done.
    Unset,
    /// ManualDevice: manual device verification.
    ManualDevice,
    /// ManualUser: manual user verification.
    ManualUser,
    /// Emoji: verify via emojis as the recipient.
    Emoji,
    /// EmojiReq: verify via emojis as the initiator.
    EmojiReq,
}

impl Default for Verify {
    fn default() -> (r: Verify)
        ensures
            r == Verify::Unset,
    {
        Verify::Unset
    }
}

impl Verify {
    pub fn is_none(&self) -> (r: bool)
        ensures
            r == (*self == Verify::Unset),
    {
        *self == Verify::Unset
    }

    pub fn is_manual_device(&self) -> (r: bool)
        ensures
            r == (*self == Verify::ManualDevice),
    {
        *self == Verify::ManualDevice
    }

    pub fn is_manual_user(&self) -> (r: bool)
        ensures
            r == (*self == Verify::ManualUser),
    {
        *self == Verify::ManualUser
    }

    pub fn is_emoji(&self) -> (r: bool)
        ensures
            r == (*self == Verify::Emoji),
    {
        *self == Verify::Emoji
    }

    pub fn is_emoji_req(&self) -> (r: bool)
        ensures
            r == (*self == Verify::EmojiReq),
    {
        *self == Verify::EmojiReq
    }

    /// The name of the variant.
    pub open spec fn name_text(self) -> Seq<char> {
        match self {
            Verify::Unset => "None"@,
            Verify::ManualDevice => "ManualDevice"@,
            Verify::ManualUser => "ManualUser"@,
            Verify::Emoji => "Emoji"@,
            Verify::EmojiReq => "EmojiReq"@,
        }
    }

    /// The text under which the value is shown.
    pub fn display(&self) -> (out: String)
        ensures
            out@ == self.name_text(),
    {
        match self {
            Verify::Unset => "None".to_string(),
            Verify::ManualDevice => "ManualDevice".to_string(),
            Verify::ManualUser => "ManualUser".to_string(),
            Verify::Emoji => "Emoji".to_string(),
            Verify::EmojiReq => "EmojiReq".to_string(),
        }
    }

    /// The value that a word, in small letters and trimmed, stands for.
    pub open spec fn word(t: Seq<char>) -> Option<Verify> {
        if t == "none"@ {
            Some(Verify::Unset)
        } else if t == "manual-device"@ {
            Some(Verify::ManualDevice)
        } else if t == "manual-user"@ {
            Some(Verify::ManualUser)
        } else if t == "emoji"@ {
            Some(Verify::Emoji)
        } else if t == "emoji-req"@ {
            Some(Verify::EmojiReq)
        } else {
            None
        }
    }

    /// Reads a word that is in small letters and trimmed.
    pub fn of_word(t: &str) -> (r: Result<Verify, ()>)
        ensures
            r == ok_or_unit(Verify::word(t@)),
    {
        if same_text(t, "none") {
            Ok(Verify::Unset)
        } else if same_text(t, "manual-device") {
            Ok(Verify::ManualDevice)
        } else if same_text(t, "manual-user") {
            Ok(Verify::ManualUser)
        } else if same_text(t, "emoji") {
            Ok(Verify::Emoji)
        } else if same_text(t, "emoji-req") {
            Ok(Verify::EmojiReq)
        } else {
            Err(())
        }
    }

    /// Reads the text of a command line argument, whatever its case and the white space around
    /// it.
    pub fn from_text(src: &str) -> (r: Result<Verify, ()>)
        ensures
            r == ok_or_unit(Verify::word(lower_text(trimmed(src@)))),
            all_ascii(trimmed(src@)) ==> r == ok_or_unit(Verify::word(ascii_lower(trimmed(src@)))),
    {
        let word = trim(src);
        let lower = to_lower(word.as_str());
        Verify::of_word(lower.as_str())
    }
}

impl std::str::FromStr for Verify {
    type Err = ();

    fn from_str(src: &str) -> (r: Result<Verify, ()>)
        ensures
            r == ok_or_unit(Verify::word(lower_text(trimmed(src@)))),
            all_ascii(trimmed(src@)) ==> r == ok_or_unit(Verify::word(ascii_lower(trimmed(src@)))),
    {
        Verify::from_text(src)
    }
}

/// Enumerator used for the --logout option.
#[derive(Clone, Copy, Debug, PartialEq, Eq, Structural)]
pub enum Logout {
    /// Unset: log out nowhere, don't do anything.
    Unset,
    /// Me: log out from the currently used device.
    Me,
    /// All: log out from all devices of the user.
    All,
}

impl Default for Logout {
    fn default() -> (r: Logout)
        ensures
            r == Logout::Unset,
    {
        Logout::Unset
    }
}

impl Logout {
    pub fn is_none(&self) -> (r: bool)
        ensures
            r == (*self == Logout::Unset),
    {
        *self == Logout::Unset
    }

    pub fn is_me(&self) -> (r: bool)
        ensures
            r == (*self == Logout::Me),
    {
        *self == Logout::Me
    }

    pub fn is_all(&self) -> (r: bool)
        ensures
            r == (*self == Logout::All),
    {
        *self == Logout::All
    }

    /// The name of the variant.
    pub open spec fn name_text(self) -> Seq<char> {
        match self {
            Logout::Unset => "None"@,
            Logout::Me => "Me"@,
            Logout::All => "All"@,
        }
    }

    /// The text under which the value is shown.
    pub fn display(&self) -> (out: String)
        ensures
            out@ == self.name_text(),
    {
        match self {
            Logout::Unset => "None".to_string(),
            Logout::Me => "Me".to_string(),
            Logout::All => "All".to_string(),
        }
    }

    /// The value that a word, in small letters and trimmed, stands for.
    pub open spec fn word(t: Seq<char>) -> Option<Logout> {
        if t == "none"@ {
            Some(Logout::Unset)
        } else if t == "me"@ {
            Some(Logout::Me)
        } else if t == "all"@ {
            Some(Logout::All)
        } else {
            None
        }
    }

    /// Reads a word that is in small letters and trimmed.
    pub fn of_word(t: &str) -> (r: Result<Logout, ()>)
        ensures
            r == ok_or_unit(Logout::word(t@)),
    {
        if same_text(t, "none") {
            Ok(Logout::Unset)
        } else if same_text(t, "me") {
            Ok(Logout::Me)
        } else if same_text(t, "all") {
            Ok(Logout::All)
        } else {
            Err(())
        }
    }

    /// Reads the text of a command line argument, whatever its case and the white space around
    /// it.
    pub fn from_text(src: &str) -> (r: Result<Logout, ()>)
        ensures
            r == ok_or_unit(Logout::word(lower_text(trimmed(src@)))),
            all_ascii(trimmed(src@)) ==> r == ok_or_unit(Logout::word(ascii_lower(trimmed(src@)))),
    {
        let word = trim(src);
        let lower = to_lower(word.as_str());
        Logout::of_word(lower.as_str())
    }
}

impl std::str::FromStr for Logout {
    type Err = ();

    fn from_str(src: &str) -> (r: Result<Logout, ()>)
        ensures
            r == ok_or_unit(Logout::word(lower_text(trimmed(src@)))),
            all_ascii(trimmed(src@)) ==> r == ok_or_unit(Logout::word(ascii_lower(trimmed(src@)))),
    {
        Logout::from_text(src)
    }
}

/// Enumerator used for the --listen (--tail) option.
#[derive(Clone, Copy, Debug, PartialEq, Eq, Structural)]
pub enum Listen {
    /// Never: do not listen.
    Never,
    /// Once: listen once in *all* rooms and then continue.
    Once,
    /// Forever: listen forever in *all* rooms, until process is killed manually.
    Forever,
    /// Tail: get the last N messages from the specified room(s) and then continue.
    Tail,
    /// All: get *all* the messages from the specified room(s) and then continue.
    All,
}

impl Default for Listen {
    fn default() -> (r: Listen)
        ensures
            r == Listen::Never,
    {
        Listen::Never
    }
}

impl Listen {
    pub fn is_never(&self) -> (r: bool)
        ensures
            r == (*self == Listen::Never),
    {
        *self == Listen::Never
    }

    pub fn is_once(&self) -> (r: bool)
        ensures
            r == (*self == Listen::Once),
    {
        *self == Listen::Once
    }

    pub fn is_forever(&self) -> (r: bool)
        ensures
            r == (*self == Listen::Forever),
    {
        *self == Listen::Forever
    }

    pub fn is_tail(&self) -> (r: bool)
        ensures
            r == (*self == Listen::Tail),
    {
        *self == Listen::Tail
    }

    pub fn is_all(&self) -> (r: bool)
        ensures
            r == (*self == Listen::All),
    {
        *self == Listen::All
    }

    /// The name of the variant.
    pub open spec fn name_text(self) -> Seq<char> {
        match self {
            Listen::Never => "Never"@,
            Listen::Once => "Once"@,
            Listen::Forever => "Forever"@,
            Listen::Tail => "Tail"@,
            Listen::All => "All"@,
        }
    }

    /// The text under which the value is shown.
    pub fn display(&self) -> (out: String)
        ensures
            out@ == self.name_text(),
    {
        match self {
            Listen::Never => "Never".to_string(),
            Listen::Once => "Once".to_string(),
            Listen::Forever => "Forever".to_string(),
            Listen::Tail => "Tail".to_string(),
            Listen::All => "All".to_string(),
        }
    }

    /// The value that a word, in small letters and trimmed, stands for.
    pub open spec fn word(t: Seq<char>) -> Option<Listen> {
        if t == "never"@ {
            Some(Listen::Never)
        } else if t == "once"@ {
            Some(Listen::Once)
        } else if t == "forever"@ {
            Some(Listen::Forever)
        } else if t == "tail"@ {
            Some(Listen::Tail)
        } else if t == "all"@ {
            Some(Listen::All)
        } else {
            None
        }
    }

    /// Reads a word that is in small letters and trimmed.
    pub fn of_word(t: &str) -> (r: Result<Listen, ()>)
        ensures
            r == ok_or_unit(Listen::word(t@)),
    {
        if same_text(t, "never") {
            Ok(Listen::Never)
        } else if same_text(t, "once") {
            Ok(Listen::Once)
        } else if same_text(t, "forever") {
            Ok(Listen::Forever)
        } else if same_text(t, "tail") {
            Ok(Listen::Tail)
        } else if same_text(t, "all") {
            Ok(Listen::All)
        } else {
            Err(())
        }
    }

    /// Reads the text of a command line argument, whatever its case and the white space around
    /// it.
    pub fn from_text(src: &str) -> (r: Result<Listen, ()>)
        ensures
            r == ok_or_unit(Listen::word(lower_text(trimmed(src@)))),
            all_ascii(trimmed(src@)) ==> r == ok_or_unit(Listen::word(ascii_lower(trimmed(src@)))),
    {
        let word = trim(src);
        let lower = to_lower(word.as_str());
        Listen::of_word(lower.as_str())
    }
}

impl std::str::FromStr for Listen {
    type Err = ();

    fn from_str(src: &str) -> (r: Result<Listen, ()>)
        ensures
            r == ok_or_unit(Listen::word(lower_text(trimmed(src@)))),
            all_ascii(trimmed(src@)) ==> r == ok_or_unit(Listen::word(ascii_lower(trimmed(src@)))),
    {
        Listen::from_text(src)
    }
}

/// Enumerator used for the --log-level option.
#[derive(Clone, Copy, Debug, PartialEq, Eq, Structural)]
pub enum LogLevel {
    /// Unset: not set.
    Unset,
    /// Error: print only errors.
    Error,
    /// Warn: print warnings and errors.
    Warn,
    /// Info: print info, warnings and errors.
    Info,
    /// Debug: print debug and the rest.
    Debug,
    /// Trace: print everything.
    Trace,
}

impl Default for LogLevel {
    fn default() -> (r: LogLevel)
        ensures
            r == LogLevel::Unset,
    {
        LogLevel::Unset
    }
}

impl LogLevel {
    pub fn is_none(&self) -> (r: bool)
        ensures
            r == (*self == LogLevel::Unset),
    {
        *self == LogLevel::Unset
    }

    /// The name of the variant.
    pub open spec fn name_text(self) -> Seq<char> {
        match self {
            LogLevel::Unset => "None"@,
            LogLevel::Error => "Error"@,
            LogLevel::Warn => "Warn"@,
            LogLevel::Info => "Info"@,
            LogLevel::Debug => "Debug"@,
            LogLevel::Trace => "Trace"@,
        }
    }

    /// The text under which the value is shown.
    pub fn display(&self) -> (out: String)
        ensures
            out@ == self.name_text(),
    {
        match self {
            LogLevel::Unset => "None".to_string(),
            LogLevel::Error => "Error".to_string(),
            LogLevel::Warn => "Warn".to_string(),
            LogLevel::Info => "Info".to_string(),
            LogLevel::Debug => "Debug".to_string(),
            LogLevel::Trace => "Trace".to_string(),
        }
    }

}

/// Enumerator used for the --output option.
#[derive(Clone, Copy, Debug, PartialEq, Eq, Structural)]
pub enum Output {
    /// Text: print human readable text.
    Text,
    /// Json: print output in JSON format.
    Json,
    /// JsonMax: print the maximum amount of output in JSON format.
    JsonMax,
    /// JsonSpec: print output in JSON format, but only data that is according to the Matrix specification.
    JsonSpec,
}

impl Default for Output {
    fn default() -> (r: Output)
        ensures
            r == Output::Text,
    {
        Output::Text
    }
}

impl Output {
    pub fn is_text(&self) -> (r: bool)
        ensures
            r == (*self == Output::Text),
    {
        *self == Output::Text
    }

    /// The name of the variant.
    pub open spec fn name_text(self) -> Seq<char> {
        match self {
            Output::Text => "Text"@,
            Output::Json => "Json"@,
            Output::JsonMax => "JsonMax"@,
            Output::JsonSpec => "JsonSpec"@,
        }
    }

    /// The text under which the value is shown.
    pub fn display(&self) -> (out: String)
        ensures
            out@ == self.name_text(),
    {
        match self {
            Output::Text => "Text".to_string(),
            Output::Json => "Json".to_string(),
            Output::JsonMax => "JsonMax".to_string(),
            Output::JsonSpec => "JsonSpec".to_string(),
        }
    }

    /// The value that a word, in small letters and trimmed, stands for.
    pub open spec fn word(t: Seq<char>) -> Option<Output> {
        if t == "text"@ {
            Some(Output::Text)
        } else if t == "json"@ {
            Some(Output::Json)
        } else if t == "jsonmax"@ || t == "json_max"@ {
            Some(Output::JsonMax)
        } else if t == "jsonspec"@ || t == "json_spec"@ {
            Some(Output::JsonSpec)
        } else {
            None
        }
    }

    /// Reads a word that is in small letters and trimmed.
    pub fn of_word(t: &str) -> (r: Result<Output, ()>)
        ensures
            r == ok_or_unit(Output::word(t@)),
    {
        if same_text(t, "text") {
            Ok(Output::Text)
        } else if same_text(t, "json") {
            Ok(Output::Json)
        } else if same_text(t, "jsonmax") || same_text(t, "json_max") {
            Ok(Output::JsonMax)
        } else if same_text(t, "jsonspec") || same_text(t, "json_spec") {
            Ok(Output::JsonSpec)
        } else {
            Err(())
        }
    }

    /// Reads the text of a command line argument, whatever its case and the white space around
    /// it; a hyphen counts as an underscore.
    pub fn from_text(src: &str) -> (r: Result<Output, ()>)
        ensures
            r == ok_or_unit(Output::word(replaced(lower_text(trimmed(src@)), "-"@, "_"@))),
            all_ascii(trimmed(src@)) ==> r == ok_or_unit(
                Output::word(replaced(ascii_lower(trimmed(src@)), "-"@, "_"@)),
            ),
    {
        let word = trim(src);
        let lower = to_lower(word.as_str());
        let plain = replace_text(lower.as_str(), "-", "_");
        Output::of_word(plain.as_str())
    }
}

impl std::str::FromStr for Output {
    type Err = ();

    fn from_str(src: &str) -> (r: Result<Output, ()>)
        ensures
            r == ok_or_unit(Output::word(replaced(lower_text(trimmed(src@)), "-"@, "_"@))),
            all_ascii(trimmed(src@)) ==> r == ok_or_unit(
                Output::word(replaced(ascii_lower(trimmed(src@)), "-"@, "_"@)),
            ),
    {
        Output::from_text(src)
    }
}
/// Enumerator used for the --set-presence option.
#[derive(Clone, Copy, Debug, PartialEq, Eq, Structural)]
pub enum Presence {
    /// Online.
    Online,
    /// Offline.
    Offline,
    /// Unavailable.
    Unavailable,
}

impl Default for Presence {
    fn default() -> (r: Presence)
        ensures
            r == Presence::Online,
    {
        Presence::Online
    }
}

impl Presence {
    /// The presence state in the notation of the Matrix protocol.
    pub open spec fn name_text(self) -> Seq<char> {
        match self {
            Presence::Online => "online"@,
            Presence::Offline => "offline"@,
            Presence::Unavailable => "unavailable"@,
        }
    }

    /// The text under which the value is shown.
    pub fn display(&self) -> (out: String)
        ensures
            out@ == self.name_text(),
    {
        match self {
            Presence::Online => "online".to_string(),
            Presence::Offline => "offline".to_string(),
            Presence::Unavailable => "unavailable".to_string(),
        }
    }
}

/// Enumerator used for the --download-media-name option.
#[derive(Clone, Copy, Debug, PartialEq, Eq, Structural)]
pub enum DownloadMediaName {
    /// Source: use the file name from the source.
    Source,
    /// Clean: use a cleaned-up version of the file name.
    Clean,
    /// EventId: use the event id as file name.
    EventId,
    /// Time: use the timestamp as file name.
    Time,
}

impl Default for DownloadMediaName {
    fn default() -> (r: DownloadMediaName)
        ensures
            r == DownloadMediaName::Clean,
    {
        DownloadMediaName::Clean
    }
}

/// Whether a name is written in whatever case, in ASCII characters, with white space before and
/// after it.
pub open spec fn spelled(
    before: Seq<char>,
    name: Seq<char>,
    after: Seq<char>,
    shown: Seq<char>,
) -> bool {
    &&& all_white(before)
    &&& all_white(after)
    &&& all_ascii(name)
    &&& ascii_lower(name) == ascii_lower(shown)
}

/// The case of the name and the white space around it make no difference.
proof fn lemma_spelled(before: Seq<char>, name: Seq<char>, after: Seq<char>, shown: Seq<char>)
    requires
        spelled(before, name, after, shown),
        shown.len() > 0,
        !is_white(ascii_lower(shown)[0]),
        !is_white(ascii_lower(shown).last()),
    ensures
        trimmed(before + name + after) == name,
{
    let low = ascii_lower(name);
    assert(low.len() == name.len());
    assert(low[0] == ascii_lower_char(name[0]));
    assert(low.last() == ascii_lower_char(name.last()));
    lemma_trimmed_around(before, name, after);
    lemma_trimmed_same(name);
}

/// The name under which a Login value is shown, in any case and with white space around it, reads
/// back as that value.
pub proof fn law_login_reads_back(v: Login, before: Seq<char>, name: Seq<char>, after: Seq<char>)
    requires
        spelled(before, name, after, v.name_text()),
    ensures
        all_ascii(v.name_text()),
        all_ascii(trimmed(before + name + after)),
        Login::word(ascii_lower(trimmed(before + name + after))) == Some(v),
{
    reveal_strlit("None");
    reveal_strlit("Password");
    reveal_strlit("AccessToken");
    reveal_strlit("Sso");
    reveal_strlit("none");
    reveal_strlit("password");
    reveal_strlit("access_token");
    reveal_strlit("access-token");
    reveal_strlit("accesstoken");
    reveal_strlit("sso");
    match v {
        Login::Unset => {
            assert(ascii_lower("None"@) =~= "none"@);
        },
        Login::Password => {
            assert(ascii_lower("Password"@) =~= "password"@);
        },
        Login::AccessToken => {
            assert(ascii_lower("AccessToken"@) =~= "accesstoken"@);
        },
        Login::Sso => {
            assert(ascii_lower("Sso"@) =~= "sso"@);
        },
    }
    lemma_spelled(before, name, after, v.name_text());
}

/// The name under which a Sync value is shown, in any case and with white space around it, reads
/// back as that value.
pub proof fn law_sync_reads_back(v: Sync, before: Seq<char>, name: Seq<char>, after: Seq<char>)
    requires
        spelled(before, name, after, v.name_text()),
    ensures
        all_ascii(v.name_text()),
        all_ascii(trimmed(before + name + after)),
        Sync::word(ascii_lower(trimmed(before + name + after))) == Some(v),
{
    reveal_strlit("Off");
    reveal_strlit("Full");
    reveal_strlit("off");
    reveal_strlit("full");
    match v {
        Sync::Off => {
            assert(ascii_lower("Off"@) =~= "off"@);
        },
        Sync::Full => {
            assert(ascii_lower("Full"@) =~= "full"@);
        },
    }
    lemma_spelled(before, name, after, v.name_text());
}

/// The name under which a Version value is shown, in any case and with white space around it, reads
/// back as that value.
pub proof fn law_version_reads_back(v: Version, before: Seq<char>, name: Seq<char>, after: Seq<char>)
    requires
        spelled(before, name, after, v.name_text()),
    ensures
        all_ascii(v.name_text()),
        all_ascii(trimmed(before + name + after)),
        Version::word(ascii_lower(trimmed(before + name + after))) == Some(v),
{
    reveal_strlit("Check");
    reveal_strlit("check");
    match v {
        Version::Check => {
            assert(ascii_lower("Check"@) =~= "check"@);
        },
    }
    lemma_spelled(before, name, after, v.name_text());
}

/// The name under which a Verify value is shown, in any case and with white space around it, reads
/// back as that value, where the name is one word.
pub proof fn law_verify_reads_back(v: Verify, before: Seq<char>, name: Seq<char>, after: Seq<char>)
    requires
        v == Verify::Unset || v == Verify::Emoji,
        spelled(before, name, after, v.name_text()),
    ensures
        all_ascii(v.name_text()),
        all_ascii(trimmed(before + name + after)),
        Verify::word(ascii_lower(trimmed(before + name + after))) == Some(v),
{
    reveal_strlit("None");
    reveal_strlit("Emoji");
    reveal_strlit("none");
    reveal_strlit("manual-device");
    reveal_strlit("manual-user");
    reveal_strlit("emoji");
    reveal_strlit("emoji-req");
    match v {
        Verify::Unset => {
            assert(ascii_lower("None"@) =~= "none"@);
        },
        Verify::Emoji => {
            assert(ascii_lower("Emoji"@) =~= "emoji"@);
        },
        _ => {},
    }
    lemma_spelled(before, name, after, v.name_text());
}

/// The name under which a Logout value is shown, in any case and with white space around it, reads
/// back as that value.
pub proof fn law_logout_reads_back(v: Logout, before: Seq<char>, name: Seq<char>, after: Seq<char>)
    requires
        spelled(before, name, after, v.name_text()),
    ensures
        all_ascii(v.name_text()),
        all_ascii(trimmed(before + name + after)),
        Logout::word(ascii_lower(trimmed(before + name + after))) == Some(v),
{
    reveal_strlit("None");
    reveal_strlit("Me");
    reveal_strlit("All");
    reveal_strlit("none");
    reveal_strlit("me");
    reveal_strlit("all");
    match v {
        Logout::Unset => {
            assert(ascii_lower("None"@) =~= "none"@);
        },
        Logout::Me => {
            assert(ascii_lower("Me"@) =~= "me"@);
        },
        Logout::All => {
            assert(ascii_lower("All"@) =~= "all"@);
        },
    }
    lemma_spelled(before, name, after, v.name_text());
}

/// The name under which a Listen value is shown, in any case and with white space around it, reads
/// back as that value.
pub proof fn law_listen_reads_back(v: Listen, before: Seq<char>, name: Seq<char>, after: Seq<char>)
    requires
        spelled(before, name, after, v.name_text()),
    ensures
        all_ascii(v.name_text()),
        all_ascii(trimmed(before + name + after)),
        Listen::word(ascii_lower(trimmed(before + name + after))) == Some(v),
{
    reveal_strlit("Never");
    reveal_strlit("Once");
    reveal_strlit("Forever");
    reveal_strlit("Tail");
    reveal_strlit("All");
    reveal_strlit("never");
    reveal_strlit("once");
    reveal_strlit("forever");
    reveal_strlit("tail");
    reveal_strlit("all");
    match v {
        Listen::Never => {
            assert(ascii_lower("Never"@) =~= "never"@);
            assert("never"@[0] == 'n');
        },
        Listen::Once => {
            assert(ascii_lower("Once"@) =~= "once"@);
            assert("once"@[0] == 'o');
        },
        Listen::Forever => {
            assert(ascii_lower("Forever"@) =~= "forever"@);
            assert("forever"@[0] == 'f');
        },
        Listen::Tail => {
            assert(ascii_lower("Tail"@) =~= "tail"@);
            assert("tail"@[0] == 't');
        },
        Listen::All => {
            assert(ascii_lower("All"@) =~= "all"@);
            assert("all"@[0] == 'a');
        },
    }
    lemma_spelled(before, name, after, v.name_text());
}

/// The name under which an Output value is shown, in any case and with white space around it, reads
/// back as that value.
pub proof fn law_output_reads_back(v: Output, before: Seq<char>, name: Seq<char>, after: Seq<char>)
    requires
        spelled(before, name, after, v.name_text()),
    ensures
        all_ascii(v.name_text()),
        all_ascii(trimmed(before + name + after)),
        Output::word(replaced(ascii_lower(trimmed(before + name + after)), "-"@, "_"@)) == Some(v),
{
    reveal_strlit("Text");
    reveal_strlit("Json");
    reveal_strlit("JsonMax");
    reveal_strlit("JsonSpec");
    reveal_strlit("text");
    reveal_strlit("json");
    reveal_strlit("jsonmax");
    reveal_strlit("json_max");
    reveal_strlit("jsonspec");
    reveal_strlit("json_spec");
    reveal_strlit("-");
    reveal_strlit("_");
    match v {
        Output::Text => {
            assert(ascii_lower("Text"@) =~= "text"@);
            assert("text"@[0] == 't');
            lemma_replaced_absent("text"@, "-"@, "_"@);
        },
        Output::Json => {
            assert(ascii_lower("Json"@) =~= "json"@);
            assert("json"@[0] == 'j');
            lemma_replaced_absent("json"@, "-"@, "_"@);
        },
        Output::JsonMax => {
            assert(ascii_lower("JsonMax"@) =~= "jsonmax"@);
            assert("jsonmax"@[0] == 'j');
            lemma_replaced_absent("jsonmax"@, "-"@, "_"@);
        },
        Output::JsonSpec => {
            assert(ascii_lower("JsonSpec"@) =~= "jsonspec"@);
            assert("jsonspec"@[4] != "json_max"@[4]);
            lemma_replaced_absent("jsonspec"@, "-"@, "_"@);
        },
    }
    lemma_spelled(before, name, after, v.name_text());
}

/// A word reads as a Login value exactly where it is one of the words for that value, and no other
/// word is read.
pub proof fn law_words_for_login(t: Seq<char>)
    ensures
        Login::word(t) == Some(Login::Unset) <==> t == "none"@,
        Login::word(t) == Some(Login::Password) <==> t == "password"@,
        Login::word(t) == Some(Login::AccessToken) <==> t == "access_token"@ || t == "access-token"@ || t == "accesstoken"@,
        Login::word(t) == Some(Login::Sso) <==> t == "sso"@,
{
    reveal_strlit("none");
    reveal_strlit("password");
    reveal_strlit("access_token");
    reveal_strlit("access-token");
    reveal_strlit("accesstoken");
    reveal_strlit("sso");
    assert("none"@.len() == 4);
    assert("password"@.len() == 8);
    assert("access_token"@.len() == 12);
    assert("access-token"@.len() == 12);
    assert("accesstoken"@.len() == 11);
    assert("sso"@.len() == 3);
    assert("access_token"@[6] == '_');
    assert("access-token"@[6] == '-');
}

/// A word reads as a Sync value exactly where it is one of the words for that value, and no other
/// word is read.
pub proof fn law_words_for_sync(t: Seq<char>)
    ensures
        Sync::word(t) == Some(Sync::Off) <==> t == "off"@,
        Sync::word(t) == Some(Sync::Full) <==> t == "full"@,
{
    reveal_strlit("off");
    reveal_strlit("full");
    assert("off"@.len() == 3);
    assert("full"@.len() == 4);
}

/// A word reads as a Version value exactly where it is one of the words for that value, and no other
/// word is read.
pub proof fn law_words_for_version(t: Seq<char>)
    ensures
        Version::word(t) == Some(Version::Check) <==> t == "check"@,
{
    reveal_strlit("check");
    assert("check"@.len() == 5);
}

/// A word reads as a Verify value exactly where it is one of the words for that value, and no other
/// word is read.
pub proof fn law_words_for_verify(t: Seq<char>)
    ensures
        Verify::word(t) == Some(Verify::Unset) <==> t == "none"@,
        Verify::word(t) == Some(Verify::ManualDevice) <==> t == "manual-device"@,
        Verify::word(t) == Some(Verify::ManualUser) <==> t == "manual-user"@,
        Verify::word(t) == Some(Verify::Emoji) <==> t == "emoji"@,
        Verify::word(t) == Some(Verify::EmojiReq) <==> t == "emoji-req"@,
{
    reveal_strlit("none");
    reveal_strlit("manual-device");
    reveal_strlit("manual-user");
    reveal_strlit("emoji");
    reveal_strlit("emoji-req");
    assert("none"@.len() == 4);
    assert("manual-device"@.len() == 13);
    assert("manual-user"@.len() == 11);
    assert("emoji"@.len() == 5);
    assert("emoji-req"@.len() == 9);
}

/// A word reads as a Logout value exactly where it is one of the words for that value, and no other
/// word is read.
pub proof fn law_words_for_logout(t: Seq<char>)
    ensures
        Logout::word(t) == Some(Logout::Unset) <==> t == "none"@,
        Logout::word(t) == Some(Logout::Me) <==> t == "me"@,
        Logout::word(t) == Some(Logout::All) <==> t == "all"@,
{
    reveal_strlit("none");
    reveal_strlit("me");
    reveal_strlit("all");
    assert("none"@.len() == 4);
    assert("me"@.len() == 2);
    assert("all"@.len() == 3);
}

/// A word reads as a Listen value exactly where it is one of the words for that value, and no other
/// word is read.
pub proof fn law_words_for_listen(t: Seq<char>)
    ensures
        Listen::word(t) == Some(Listen::Never) <==> t == "never"@,
        Listen::word(t) == Some(Listen::Once) <==> t == "once"@,
        Listen::word(t) == Some(Listen::Forever) <==> t == "forever"@,
        Listen::word(t) == Some(Listen::Tail) <==> t == "tail"@,
        Listen::word(t) == Some(Listen::All) <==> t == "all"@,
{
    reveal_strlit("never");
    reveal_strlit("once");
    reveal_strlit("forever");
    reveal_strlit("tail");
    reveal_strlit("all");
    assert("never"@.len() == 5);
    assert("once"@.len() == 4);
    assert("forever"@.len() == 7);
    assert("tail"@.len() == 4);
    assert("all"@.len() == 3);
    assert("once"@[0] == 'o');
    assert("tail"@[0] == 't');
}

/// A word reads as a Output value exactly where it is one of the words for that value, and no other
/// word is read.
pub proof fn law_words_for_output(t: Seq<char>)
    ensures
        Output::word(t) == Some(Output::Text) <==> t == "text"@,
        Output::word(t) == Some(Output::Json) <==> t == "json"@,
        Output::word(t) == Some(Output::JsonMax) <==> t == "jsonmax"@ || t == "json_max"@,
        Output::word(t) == Some(Output::JsonSpec) <==> t == "jsonspec"@ || t == "json_spec"@,
{
    reveal_strlit("text");
    reveal_strlit("json");
    reveal_strlit("jsonmax");
    reveal_strlit("json_max");
    reveal_strlit("jsonspec");
    reveal_strlit("json_spec");
    assert("text"@.len() == 4);
    assert("json"@.len() == 4);
    assert("jsonmax"@.len() == 7);
    assert("json_max"@.len() == 8);
    assert("jsonspec"@.len() == 8);
    assert("json_spec"@.len() == 9);
    assert("text"@[0] == 't');
    assert("json"@[0] == 'j');
    assert("json_max"@[4] == '_');
    assert("jsonspec"@[4] == 's');
}

/// What an error reports is told as it was reported, and what is not supported is named at the end
/// of the message.
pub proof fn law_reports_are_told(message: &'static str, report: String)
    ensures
        Error::Custom(message).text() == message@,
        Error::IO(report).text() == report@,
        Error::Matrix(report).text() == report@,
        Error::Json(report).text() == report@,
        Error::Http(report).text() == report@,
        Error::UnsupportedCliParameter(message).text() == "Unsupported CLI parameter: "@ + message@,
{
}

} // verus!
