//! The arguments of the command line, and what they ask the program to do.

use vstd::prelude::*;

use crate::credentials::Credentials;
use crate::ids::{
    convert_to_full_alias_ids, convert_to_full_mxc_uris, convert_to_full_room_aliases,
    convert_to_full_room_ids, convert_to_full_user_ids, drop_blank, full_alias_id, full_mxc_uri,
    full_room_alias, full_user_id, minus_replaced, nonblank, replace_minus_with_default_room,
    replace_star_with_rooms, room_plan, star_replaced, RoomStep,
};
use crate::program::BIN_NAME_UNDERSCORE;
use crate::room_create::Visibility;
use crate::text::{
    copy_texts, joined, lemma_joined_two, replace_text, replaced, starts_with, texts, trimmed,
};
use crate::types::{
    Error, Listen, LogLevel, Login, Logout, Output, Presence, Sync, Verify, Version,
};

verus! {

/// The arguments of the command line.
#[derive(Debug)]
pub struct Args {
    /// How often --debug was given.
    pub debug: u8,
    /// The values of --log-level.
    pub log_level: Option<Vec<LogLevel>>,
    /// --version, perhaps with a value.
    pub version: Option<Option<Version>>,
    pub contribute: bool,
    pub usage: bool,
    pub help: bool,
    pub manual: bool,
    pub readme: bool,
    pub output: Output,
    /// What separates the columns of plain text.
    pub separator: String,
    pub no_ssl: bool,
    pub ssl_certificate: Option<String>,
    pub proxy: Option<String>,
    /// How long the server is waited for, in seconds.
    pub timeout: u64,
    pub sync: Sync,
    /// The path of the credentials file.
    pub credentials: String,
    /// The path of the store.
    pub store: String,
    /// The credentials, once they are known.
    pub creds: Option<Credentials>,
    pub login: Login,
    pub homeserver: Option<String>,
    pub user_login: Option<String>,
    pub password: Option<String>,
    pub access_token: Option<String>,
    pub device: Option<String>,
    pub room_default: Option<String>,
    pub room: Vec<String>,
    pub user: Vec<String>,
    pub name: Vec<String>,
    pub topic: Vec<String>,
    pub alias: Vec<String>,
    pub visibility: Visibility,
    pub plain: Option<bool>,
    pub room_dm_create_allow_duplicates: bool,
    pub code: bool,
    pub markdown: bool,
    pub notice: bool,
    pub emote: bool,
    pub html: bool,
    pub print_event_id: bool,
    pub split: Option<String>,
    pub emojize: bool,
    pub file_name: Vec<String>,
    pub mime: Vec<String>,
    pub key_dict: Vec<String>,
    pub listen_self: bool,
    /// How many messages --tail asks for.
    pub tail: u64,
    pub bootstrap: bool,
    pub verify: Verify,
    pub devices: bool,
    pub get_room_info: Vec<String>,
    pub rooms: bool,
    pub invited_rooms: bool,
    pub joined_rooms: bool,
    pub left_rooms: bool,
    pub room_get_visibility: Vec<String>,
    pub room_get_state: Vec<String>,
    pub joined_members: Vec<String>,
    pub room_resolve_alias: Vec<String>,
    pub get_avatar: Option<String>,
    pub get_avatar_url: bool,
    pub get_display_name: bool,
    pub get_profile: bool,
    pub get_masterkey: bool,
    pub media_download: Vec<String>,
    pub get_openid_token: bool,
    pub get_presence: bool,
    pub discovery_info: bool,
    pub login_info: bool,
    pub content_repository_config: bool,
    pub get_client_info: bool,
    pub room_invites: Option<String>,
    pub has_permission: Vec<String>,
    pub joined_dm_rooms: Vec<String>,
    pub rest: Vec<String>,
    pub room_create: Vec<String>,
    pub room_dm_create: Vec<String>,
    pub room_leave: Vec<String>,
    pub room_forget: Vec<String>,
    pub room_invite: Vec<String>,
    pub room_join: Vec<String>,
    pub room_ban: Vec<String>,
    pub room_unban: Vec<String>,
    pub room_kick: Vec<String>,
    pub delete_device: Vec<String>,
    pub set_avatar: Option<String>,
    pub set_avatar_url: Option<String>,
    pub unset_avatar_url: bool,
    pub set_display_name: Option<String>,
    pub room_enable_encryption: Vec<String>,
    pub media_upload: Vec<String>,
    pub media_delete: Vec<String>,
    pub import_keys: Vec<String>,
    pub export_keys: Vec<String>,
    pub set_device_name: Option<String>,
    pub set_presence: Option<Presence>,
    pub room_set_alias: Vec<String>,
    pub room_delete_alias: Vec<String>,
    pub delete_mxc_before: Vec<String>,
    pub room_redact: Vec<String>,
    pub message: Vec<String>,
    pub file: Vec<String>,
    pub image: Vec<String>,
    pub audio: Vec<String>,
    pub event: Vec<String>,
    pub listen: Listen,
    pub logout: Logout,
    pub whoami: bool,
    pub media_mxc_to_http: Vec<String>,
}

/// Something that the program does with a connection to the server.
#[derive(Clone, Copy, Debug, PartialEq, Eq, Structural)]
pub enum Action {
    Bootstrap,
    Verify,
    Devices,
    GetRoomInfo,
    Rooms,
    InvitedRooms,
    JoinedRooms,
    LeftRooms,
    RoomGetVisibility,
    RoomGetState,
    JoinedMembers,
    RoomResolveAlias,
    GetAvatar,
    GetAvatarUrl,
    GetDisplayName,
    GetProfile,
    GetMasterkey,
    MediaDownload,
    GetOpenidToken,
    GetPresence,
    DiscoveryInfo,
    LoginInfo,
    ContentRepositoryConfig,
    GetClientInfo,
    RoomInvites,
    HasPermission,
    JoinedDmRooms,
    Rest,
    RoomCreate,
    RoomDmCreate,
    RoomLeave,
    RoomForget,
    RoomInvite,
    RoomJoin,
    RoomBan,
    RoomUnban,
    RoomKick,
    DeleteDevice,
    SetAvatar,
    SetAvatarUrl,
    UnsetAvatarUrl,
    SetDisplayName,
    RoomEnableEncryption,
    MediaUpload,
    MediaDelete,
    ImportKeys,
    ExportKeys,
    SetDeviceName,
    SetPresence,
    RoomSetAlias,
    RoomDeleteAlias,
    DeleteMxcBefore,
    RoomRedact,
    Message,
    File,
    Image,
    Audio,
    Event,
    ListenOnce,
    ListenForever,
    ListenTail,
    ListenAll,
    Logout,
}

impl Action {
    /// Whether the arguments ask for this action.
    pub open spec fn is_wanted(self, ap: Args) -> bool {
        match self {
            Action::Bootstrap => ap.bootstrap,
            Action::Verify => ap.verify != Verify::Unset,
            Action::Devices => ap.devices,
            Action::GetRoomInfo => ap.get_room_info@.len() > 0,
            Action::Rooms => ap.rooms,
            Action::InvitedRooms => ap.invited_rooms,
            Action::JoinedRooms => ap.joined_rooms,
            Action::LeftRooms => ap.left_rooms,
            Action::RoomGetVisibility => ap.room_get_visibility@.len() > 0,
            Action::RoomGetState => ap.room_get_state@.len() > 0,
            Action::JoinedMembers => ap.joined_members@.len() > 0,
            Action::RoomResolveAlias => ap.room_resolve_alias@.len() > 0,
            Action::GetAvatar => ap.get_avatar is Some,
            Action::GetAvatarUrl => ap.get_avatar_url,
            Action::GetDisplayName => ap.get_display_name,
            Action::GetProfile => ap.get_profile,
            Action::GetMasterkey => ap.get_masterkey,
            Action::MediaDownload => ap.media_download@.len() > 0,
            Action::GetOpenidToken => ap.get_openid_token,
            Action::GetPresence => ap.get_presence,
            Action::DiscoveryInfo => ap.discovery_info,
            Action::LoginInfo => ap.login_info,
            Action::ContentRepositoryConfig => ap.content_repository_config,
            Action::GetClientInfo => ap.get_client_info,
            Action::RoomInvites => ap.room_invites is Some,
            Action::HasPermission => ap.has_permission@.len() > 0,
            Action::JoinedDmRooms => ap.joined_dm_rooms@.len() > 0,
            Action::Rest => ap.rest@.len() > 0,
            Action::RoomCreate => ap.room_create@.len() > 0,
            Action::RoomDmCreate => ap.room_dm_create@.len() > 0,
            Action::RoomLeave => ap.room_leave@.len() > 0,
            Action::RoomForget => ap.room_forget@.len() > 0,
            Action::RoomInvite => ap.room_invite@.len() > 0,
            Action::RoomJoin => ap.room_join@.len() > 0,
            Action::RoomBan => ap.room_ban@.len() > 0,
            Action::RoomUnban => ap.room_unban@.len() > 0,
            Action::RoomKick => ap.room_kick@.len() > 0,
            Action::DeleteDevice => ap.delete_device@.len() > 0,
            Action::SetAvatar => ap.set_avatar is Some,
            Action::SetAvatarUrl => ap.set_avatar_url is Some,
            Action::UnsetAvatarUrl => ap.unset_avatar_url,
            Action::SetDisplayName => ap.set_display_name is Some,
            Action::RoomEnableEncryption => ap.room_enable_encryption@.len() > 0,
            Action::MediaUpload => ap.media_upload@.len() > 0,
            Action::MediaDelete => ap.media_delete@.len() > 0,
            Action::ImportKeys => ap.import_keys@.len() > 0,
            Action::ExportKeys => ap.export_keys@.len() > 0,
            Action::SetDeviceName => ap.set_device_name is Some,
            Action::SetPresence => ap.set_presence is Some,
            Action::RoomSetAlias => ap.room_set_alias@.len() > 0,
            Action::RoomDeleteAlias => ap.room_delete_alias@.len() > 0,
            Action::DeleteMxcBefore => ap.delete_mxc_before@.len() > 0,
            Action::RoomRedact => ap.room_redact@.len() > 0,
            Action::Message => ap.message@.len() > 0,
            Action::File => ap.file@.len() > 0,
            Action::Image => ap.image@.len() > 0,
            Action::Audio => ap.audio@.len() > 0,
            Action::Event => ap.event@.len() > 0,
            Action::ListenOnce => ap.listen == Listen::Once,
            Action::ListenForever => ap.listen == Listen::Forever,
            Action::ListenTail => ap.listen == Listen::Tail,
            Action::ListenAll => ap.listen == Listen::All,
            Action::Logout => ap.logout != Logout::Unset,
        }
    }

    /// Whether the action needs the state of rooms.
    pub open spec fn wants_sync(self) -> bool {
        match self {
            Action::Bootstrap => true,
            Action::Verify => true,
            Action::Devices => false,
            Action::GetRoomInfo => true,
            Action::Rooms => true,
            Action::InvitedRooms => true,
            Action::JoinedRooms => true,
            Action::LeftRooms => true,
            Action::RoomGetVisibility => true,
            Action::RoomGetState => true,
            Action::JoinedMembers => true,
            Action::RoomResolveAlias => true,
            Action::GetAvatar => false,
            Action::GetAvatarUrl => false,
            Action::GetDisplayName => false,
            Action::GetProfile => false,
            Action::GetMasterkey => false,
            Action::MediaDownload => false,
            Action::GetOpenidToken => false,
            Action::GetPresence => false,
            Action::DiscoveryInfo => false,
            Action::LoginInfo => false,
            Action::ContentRepositoryConfig => false,
            Action::GetClientInfo => false,
            Action::RoomInvites => true,
            Action::HasPermission => true,
            Action::JoinedDmRooms => true,
            Action::Rest => false,
            Action::RoomCreate => true,
            Action::RoomDmCreate => true,
            Action::RoomLeave => true,
            Action::RoomForget => true,
            Action::RoomInvite => true,
            Action::RoomJoin => true,
            Action::RoomBan => true,
            Action::RoomUnban => true,
            Action::RoomKick => true,
            Action::DeleteDevice => false,
            Action::SetAvatar => false,
            Action::SetAvatarUrl => false,
            Action::UnsetAvatarUrl => false,
            Action::SetDisplayName => false,
            Action::RoomEnableEncryption => true,
            Action::MediaUpload => false,
            Action::MediaDelete => false,
            Action::ImportKeys => false,
            Action::ExportKeys => false,
            Action::SetDeviceName => false,
            Action::SetPresence => false,
            Action::RoomSetAlias => true,
            Action::RoomDeleteAlias => true,
            Action::DeleteMxcBefore => false,
            Action::RoomRedact => true,
            Action::Message => true,
            Action::File => true,
            Action::Image => true,
            Action::Audio => true,
            Action::Event => true,
            Action::ListenOnce => true,
            Action::ListenForever => true,
            Action::ListenTail => true,
            Action::ListenAll => true,
            Action::Logout => true,
        }
    }

    /// Whether the arguments ask for this action.
    pub fn wanted(&self, ap: &Args) -> (r: bool)
        ensures
            r == self.is_wanted(*ap),
    {
        match self {
            Action::Bootstrap => ap.bootstrap,
            Action::Verify => !ap.verify.is_none(),
            Action::Devices => ap.devices,
            Action::GetRoomInfo => ap.get_room_info.len() > 0,
            Action::Rooms => ap.rooms,
            Action::InvitedRooms => ap.invited_rooms,
            Action::JoinedRooms => ap.joined_rooms,
            Action::LeftRooms => ap.left_rooms,
            Action::RoomGetVisibility => ap.room_get_visibility.len() > 0,
            Action::RoomGetState => ap.room_get_state.len() > 0,
            Action::JoinedMembers => ap.joined_members.len() > 0,
            Action::RoomResolveAlias => ap.room_resolve_alias.len() > 0,
            Action::GetAvatar => ap.get_avatar.is_some(),
            Action::GetAvatarUrl => ap.get_avatar_url,
            Action::GetDisplayName => ap.get_display_name,
            Action::GetProfile => ap.get_profile,
            Action::GetMasterkey => ap.get_masterkey,
            Action::MediaDownload => ap.media_download.len() > 0,
            Action::GetOpenidToken => ap.get_openid_token,
            Action::GetPresence => ap.get_presence,
            Action::DiscoveryInfo => ap.discovery_info,
            Action::LoginInfo => ap.login_info,
            Action::ContentRepositoryConfig => ap.content_repository_config,
            Action::GetClientInfo => ap.get_client_info,
            Action::RoomInvites => ap.room_invites.is_some(),
            Action::HasPermission => ap.has_permission.len() > 0,
            Action::JoinedDmRooms => ap.joined_dm_rooms.len() > 0,
            Action::Rest => ap.rest.len() > 0,
            Action::RoomCreate => ap.room_create.len() > 0,
            Action::RoomDmCreate => ap.room_dm_create.len() > 0,
            Action::RoomLeave => ap.room_leave.len() > 0,
            Action::RoomForget => ap.room_forget.len() > 0,
            Action::RoomInvite => ap.room_invite.len() > 0,
            Action::RoomJoin => ap.room_join.len() > 0,
            Action::RoomBan => ap.room_ban.len() > 0,
            Action::RoomUnban => ap.room_unban.len() > 0,
            Action::RoomKick => ap.room_kick.len() > 0,
            Action::DeleteDevice => ap.delete_device.len() > 0,
            Action::SetAvatar => ap.set_avatar.is_some(),
            Action::SetAvatarUrl => ap.set_avatar_url.is_some(),
            Action::UnsetAvatarUrl => ap.unset_avatar_url,
            Action::SetDisplayName => ap.set_display_name.is_some(),
            Action::RoomEnableEncryption => ap.room_enable_encryption.len() > 0,
            Action::MediaUpload => ap.media_upload.len() > 0,
            Action::MediaDelete => ap.media_delete.len() > 0,
            Action::ImportKeys => ap.import_keys.len() > 0,
            Action::ExportKeys => ap.export_keys.len() > 0,
            Action::SetDeviceName => ap.set_device_name.is_some(),
            Action::SetPresence => ap.set_presence.is_some(),
            Action::RoomSetAlias => ap.room_set_alias.len() > 0,
            Action::RoomDeleteAlias => ap.room_delete_alias.len() > 0,
            Action::DeleteMxcBefore => ap.delete_mxc_before.len() > 0,
            Action::RoomRedact => ap.room_redact.len() > 0,
            Action::Message => ap.message.len() > 0,
            Action::File => ap.file.len() > 0,
            Action::Image => ap.image.len() > 0,
            Action::Audio => ap.audio.len() > 0,
            Action::Event => ap.event.len() > 0,
            Action::ListenOnce => ap.listen.is_once(),
            Action::ListenForever => ap.listen.is_forever(),
            Action::ListenTail => ap.listen.is_tail(),
            Action::ListenAll => ap.listen.is_all(),
            Action::Logout => !ap.logout.is_none(),
        }
    }
}

/// How many actions there are.
pub const ACTION_COUNT: usize = 63;

/// The action at a position of the order in which actions are done.
pub open spec fn action_at(i: int) -> Action {
    if i == 0 {
        Action::Bootstrap
    } else if i == 1 {
        Action::Verify
    } else if i == 2 {
        Action::Devices
    } else if i == 3 {
        Action::GetRoomInfo
    } else if i == 4 {
        Action::Rooms
    } else if i == 5 {
        Action::InvitedRooms
    } else if i == 6 {
        Action::JoinedRooms
    } else if i == 7 {
        Action::LeftRooms
    } else if i == 8 {
        Action::RoomGetVisibility
    } else if i == 9 {
        Action::RoomGetState
    } else if i == 10 {
        Action::JoinedMembers
    } else if i == 11 {
        Action::RoomResolveAlias
    } else if i == 12 {
        Action::GetAvatar
    } else if i == 13 {
        Action::GetAvatarUrl
    } else if i == 14 {
        Action::GetDisplayName
    } else if i == 15 {
        Action::GetProfile
    } else if i == 16 {
        Action::GetMasterkey
    } else if i == 17 {
        Action::MediaDownload
    } else if i == 18 {
        Action::GetOpenidToken
    } else if i == 19 {
        Action::GetPresence
    } else if i == 20 {
        Action::DiscoveryInfo
    } else if i == 21 {
        Action::LoginInfo
    } else if i == 22 {
        Action::ContentRepositoryConfig
    } else if i == 23 {
        Action::GetClientInfo
    } else if i == 24 {
        Action::RoomInvites
    } else if i == 25 {
        Action::HasPermission
    } else if i == 26 {
        Action::JoinedDmRooms
    } else if i == 27 {
        Action::Rest
    } else if i == 28 {
        Action::RoomCreate
    } else if i == 29 {
        Action::RoomDmCreate
    } else if i == 30 {
        Action::RoomLeave
    } else if i == 31 {
        Action::RoomForget
    } else if i == 32 {
        Action::RoomInvite
    } else if i == 33 {
        Action::RoomJoin
    } else if i == 34 {
        Action::RoomBan
    } else if i == 35 {
        Action::RoomUnban
    } else if i == 36 {
        Action::RoomKick
    } else if i == 37 {
        Action::DeleteDevice
    } else if i == 38 {
        Action::SetAvatar
    } else if i == 39 {
        Action::SetAvatarUrl
    } else if i == 40 {
        Action::UnsetAvatarUrl
    } else if i == 41 {
        Action::SetDisplayName
    } else if i == 42 {
        Action::RoomEnableEncryption
    } else if i == 43 {
        Action::MediaUpload
    } else if i == 44 {
        Action::MediaDelete
    } else if i == 45 {
        Action::ImportKeys
    } else if i == 46 {
        Action::ExportKeys
    } else if i == 47 {
        Action::SetDeviceName
    } else if i == 48 {
        Action::SetPresence
    } else if i == 49 {
        Action::RoomSetAlias
    } else if i == 50 {
        Action::RoomDeleteAlias
    } else if i == 51 {
        Action::DeleteMxcBefore
    } else if i == 52 {
        Action::RoomRedact
    } else if i == 53 {
        Action::Message
    } else if i == 54 {
        Action::File
    } else if i == 55 {
        Action::Image
    } else if i == 56 {
        Action::Audio
    } else if i == 57 {
        Action::Event
    } else if i == 58 {
        Action::ListenOnce
    } else if i == 59 {
        Action::ListenForever
    } else if i == 60 {
        Action::ListenTail
    } else if i == 61 {
        Action::ListenAll
    } else {
        Action::Logout
    }
}

/// The action at a position of the order in which actions are done: first keys and verification,
/// then what only reads, then what changes something, then sending, then listening, and logging
/// out at the end.
pub fn nth_action(i: usize) -> (a: Action)
    ensures
        a == action_at(i as int),
{
    if i == 0 {
        Action::Bootstrap
    } else if i == 1 {
        Action::Verify
    } else if i == 2 {
        Action::Devices
    } else if i == 3 {
        Action::GetRoomInfo
    } else if i == 4 {
        Action::Rooms
    } else if i == 5 {
        Action::InvitedRooms
    } else if i == 6 {
        Action::JoinedRooms
    } else if i == 7 {
        Action::LeftRooms
    } else if i == 8 {
        Action::RoomGetVisibility
    } else if i == 9 {
        Action::RoomGetState
    } else if i == 10 {
        Action::JoinedMembers
    } else if i == 11 {
        Action::RoomResolveAlias
    } else if i == 12 {
        Action::GetAvatar
    } else if i == 13 {
        Action::GetAvatarUrl
    } else if i == 14 {
        Action::GetDisplayName
    } else if i == 15 {
        Action::GetProfile
    } else if i == 16 {
        Action::GetMasterkey
    } else if i == 17 {
        Action::MediaDownload
    } else if i == 18 {
        Action::GetOpenidToken
    } else if i == 19 {
        Action::GetPresence
    } else if i == 20 {
        Action::DiscoveryInfo
    } else if i == 21 {
        Action::LoginInfo
    } else if i == 22 {
        Action::ContentRepositoryConfig
    } else if i == 23 {
        Action::GetClientInfo
    } else if i == 24 {
        Action::RoomInvites
    } else if i == 25 {
        Action::HasPermission
    } else if i == 26 {
        Action::JoinedDmRooms
    } else if i == 27 {
        Action::Rest
    } else if i == 28 {
        Action::RoomCreate
    } else if i == 29 {
        Action::RoomDmCreate
    } else if i == 30 {
        Action::RoomLeave
    } else if i == 31 {
        Action::RoomForget
    } else if i == 32 {
        Action::RoomInvite
    } else if i == 33 {
        Action::RoomJoin
    } else if i == 34 {
        Action::RoomBan
    } else if i == 35 {
        Action::RoomUnban
    } else if i == 36 {
        Action::RoomKick
    } else if i == 37 {
        Action::DeleteDevice
    } else if i == 38 {
        Action::SetAvatar
    } else if i == 39 {
        Action::SetAvatarUrl
    } else if i == 40 {
        Action::UnsetAvatarUrl
    } else if i == 41 {
        Action::SetDisplayName
    } else if i == 42 {
        Action::RoomEnableEncryption
    } else if i == 43 {
        Action::MediaUpload
    } else if i == 44 {
        Action::MediaDelete
    } else if i == 45 {
        Action::ImportKeys
    } else if i == 46 {
        Action::ExportKeys
    } else if i == 47 {
        Action::SetDeviceName
    } else if i == 48 {
        Action::SetPresence
    } else if i == 49 {
        Action::RoomSetAlias
    } else if i == 50 {
        Action::RoomDeleteAlias
    } else if i == 51 {
        Action::DeleteMxcBefore
    } else if i == 52 {
        Action::RoomRedact
    } else if i == 53 {
        Action::Message
    } else if i == 54 {
        Action::File
    } else if i == 55 {
        Action::Image
    } else if i == 56 {
        Action::Audio
    } else if i == 57 {
        Action::Event
    } else if i == 58 {
        Action::ListenOnce
    } else if i == 59 {
        Action::ListenForever
    } else if i == 60 {
        Action::ListenTail
    } else if i == 61 {
        Action::ListenAll
    } else {
        Action::Logout
    }
}

/// The actions that the arguments ask for among the first `n`, in their order.
pub open spec fn actions_wanted(ap: Args, n: nat) -> Seq<Action>
    decreases n,
{
    if n == 0 {
        Seq::empty()
    } else if action_at(n - 1).is_wanted(ap) {
        actions_wanted(ap, (n - 1) as nat).push(action_at(n - 1))
    } else {
        actions_wanted(ap, (n - 1) as nat)
    }
}

/// The actions that the arguments ask for, in the order in which they are done.
pub fn plan(ap: &Args) -> (out: Vec<Action>)
    ensures
        out@ == actions_wanted(*ap, ACTION_COUNT as nat),
{
    let mut out: Vec<Action> = Vec::new();
    let mut i: usize = 0;
    while i < ACTION_COUNT
        invariant
            i <= ACTION_COUNT,
            out@ == actions_wanted(*ap, i as nat),
        decreases ACTION_COUNT - i,
    {
        let a = nth_action(i);
        if a.wanted(ap) {
            out.push(a);
        }
        i += 1;
    }
    out
}

/// Whether the arguments ask for anything that needs credentials.
pub open spec fn has_action(ap: Args) -> bool {
    ||| ap.login != Login::Unset
    ||| ap.whoami
    ||| ap.media_mxc_to_http@.len() > 0
    ||| ap.tail > 0
    ||| ap.bootstrap
    ||| ap.verify != Verify::Unset
    ||| ap.devices
    ||| ap.get_room_info@.len() > 0
    ||| ap.rooms
    ||| ap.invited_rooms
    ||| ap.joined_rooms
    ||| ap.left_rooms
    ||| ap.room_get_visibility@.len() > 0
    ||| ap.room_get_state@.len() > 0
    ||| ap.joined_members@.len() > 0
    ||| ap.room_resolve_alias@.len() > 0
    ||| ap.get_avatar is Some
    ||| ap.get_avatar_url
    ||| ap.get_display_name
    ||| ap.get_profile
    ||| ap.get_masterkey
    ||| ap.media_download@.len() > 0
    ||| ap.get_openid_token
    ||| ap.get_presence
    ||| ap.discovery_info
    ||| ap.login_info
    ||| ap.content_repository_config
    ||| ap.get_client_info
    ||| ap.room_invites is Some
    ||| ap.has_permission@.len() > 0
    ||| ap.joined_dm_rooms@.len() > 0
    ||| ap.rest@.len() > 0
    ||| ap.room_create@.len() > 0
    ||| ap.room_dm_create@.len() > 0
    ||| ap.room_leave@.len() > 0
    ||| ap.room_forget@.len() > 0
    ||| ap.room_invite@.len() > 0
    ||| ap.room_join@.len() > 0
    ||| ap.room_ban@.len() > 0
    ||| ap.room_unban@.len() > 0
    ||| ap.room_kick@.len() > 0
    ||| ap.delete_device@.len() > 0
    ||| ap.set_avatar is Some
    ||| ap.set_avatar_url is Some
    ||| ap.unset_avatar_url
    ||| ap.set_display_name is Some
    ||| ap.room_enable_encryption@.len() > 0
    ||| ap.media_upload@.len() > 0
    ||| ap.media_delete@.len() > 0
    ||| ap.import_keys@.len() > 0
    ||| ap.export_keys@.len() > 0
    ||| ap.set_device_name is Some
    ||| ap.set_presence is Some
    ||| ap.room_set_alias@.len() > 0
    ||| ap.room_delete_alias@.len() > 0
    ||| ap.delete_mxc_before@.len() > 0
    ||| ap.room_redact@.len() > 0
    ||| ap.message@.len() > 0
    ||| ap.file@.len() > 0
    ||| ap.image@.len() > 0
    ||| ap.audio@.len() > 0
    ||| ap.event@.len() > 0
    ||| ap.listen == Listen::Once
    ||| ap.listen == Listen::Forever
    ||| ap.listen == Listen::Tail
    ||| ap.listen == Listen::All
    ||| ap.logout != Logout::Unset
}

/// Whether the arguments ask for anything that needs credentials. Otherwise there is nothing left
/// to do.
pub fn has_actions(ap: &Args) -> (r: bool)
    ensures
        r == has_action(*ap),
{
    let direct = !ap.login.is_none() || ap.whoami || ap.media_mxc_to_http.len() > 0 || ap.tail > 0;
    let first = ap.bootstrap
        || !ap.verify.is_none()
        || ap.devices
        || ap.get_room_info.len() > 0
        || ap.rooms
        || ap.invited_rooms
        || ap.joined_rooms
        || ap.left_rooms
        || ap.room_get_visibility.len() > 0
        || ap.room_get_state.len() > 0
        || ap.joined_members.len() > 0
        || ap.room_resolve_alias.len() > 0
        || ap.get_avatar.is_some()
        || ap.get_avatar_url
        || ap.get_display_name
        || ap.get_profile
        || ap.get_masterkey
        || ap.media_download.len() > 0
        || ap.get_openid_token
        || ap.get_presence
        || ap.discovery_info
        || ap.login_info
        || ap.content_repository_config
        || ap.get_client_info
        || ap.room_invites.is_some()
        || ap.has_permission.len() > 0
        || ap.joined_dm_rooms.len() > 0
        || ap.rest.len() > 0
        || ap.room_create.len() > 0
        || ap.room_dm_create.len() > 0
        || ap.room_leave.len() > 0;
    let second = ap.room_forget.len() > 0
        || ap.room_invite.len() > 0
        || ap.room_join.len() > 0
        || ap.room_ban.len() > 0
        || ap.room_unban.len() > 0
        || ap.room_kick.len() > 0
        || ap.delete_device.len() > 0
        || ap.set_avatar.is_some()
        || ap.set_avatar_url.is_some()
        || ap.unset_avatar_url
        || ap.set_display_name.is_some()
        || ap.room_enable_encryption.len() > 0
        || ap.media_upload.len() > 0
        || ap.media_delete.len() > 0
        || ap.import_keys.len() > 0
        || ap.export_keys.len() > 0
        || ap.set_device_name.is_some()
        || ap.set_presence.is_some()
        || ap.room_set_alias.len() > 0
        || ap.room_delete_alias.len() > 0
        || ap.delete_mxc_before.len() > 0
        || ap.room_redact.len() > 0
        || ap.message.len() > 0
        || ap.file.len() > 0
        || ap.image.len() > 0
        || ap.audio.len() > 0
        || ap.event.len() > 0
        || ap.listen.is_once()
        || ap.listen.is_forever()
        || ap.listen.is_tail()
        || ap.listen.is_all()
        || !ap.logout.is_none();
    direct || first || second
}

/// Whether the arguments ask for anything that needs the state of rooms.
pub open spec fn wants_sync(ap: Args) -> bool {
    ||| ap.tail > 0
    ||| ap.bootstrap
    ||| ap.verify != Verify::Unset
    ||| ap.get_room_info@.len() > 0
    ||| ap.rooms
    ||| ap.invited_rooms
    ||| ap.joined_rooms
    ||| ap.left_rooms
    ||| ap.room_get_visibility@.len() > 0
    ||| ap.room_get_state@.len() > 0
    ||| ap.joined_members@.len() > 0
    ||| ap.room_resolve_alias@.len() > 0
    ||| ap.room_invites is Some
    ||| ap.has_permission@.len() > 0
    ||| ap.joined_dm_rooms@.len() > 0
    ||| ap.room_create@.len() > 0
    ||| ap.room_dm_create@.len() > 0
    ||| ap.room_leave@.len() > 0
    ||| ap.room_forget@.len() > 0
    ||| ap.room_invite@.len() > 0
    ||| ap.room_join@.len() > 0
    ||| ap.room_ban@.len() > 0
    ||| ap.room_unban@.len() > 0
    ||| ap.room_kick@.len() > 0
    ||| ap.room_enable_encryption@.len() > 0
    ||| ap.room_set_alias@.len() > 0
    ||| ap.room_delete_alias@.len() > 0
    ||| ap.room_redact@.len() > 0
    ||| ap.message@.len() > 0
    ||| ap.file@.len() > 0
    ||| ap.image@.len() > 0
    ||| ap.audio@.len() > 0
    ||| ap.event@.len() > 0
    ||| ap.listen == Listen::Once
    ||| ap.listen == Listen::Forever
    ||| ap.listen == Listen::Tail
    ||| ap.listen == Listen::All
    ||| ap.logout != Logout::Unset
}

/// Whether the arguments ask for anything that needs the state of rooms.
pub fn needs_sync(ap: &Args) -> (r: bool)
    ensures
        r == wants_sync(*ap),
{
    let first = ap.bootstrap
        || !ap.verify.is_none()
        || ap.get_room_info.len() > 0
        || ap.rooms
        || ap.invited_rooms
        || ap.joined_rooms
        || ap.left_rooms
        || ap.room_get_visibility.len() > 0
        || ap.room_get_state.len() > 0
        || ap.joined_members.len() > 0
        || ap.room_resolve_alias.len() > 0
        || ap.room_invites.is_some()
        || ap.has_permission.len() > 0
        || ap.joined_dm_rooms.len() > 0
        || ap.room_create.len() > 0
        || ap.room_dm_create.len() > 0
        || ap.room_leave.len() > 0
        || ap.room_forget.len() > 0;
    let second = ap.room_invite.len() > 0
        || ap.room_join.len() > 0
        || ap.room_ban.len() > 0
        || ap.room_unban.len() > 0
        || ap.room_kick.len() > 0
        || ap.room_enable_encryption.len() > 0
        || ap.room_set_alias.len() > 0
        || ap.room_delete_alias.len() > 0
        || ap.room_redact.len() > 0
        || ap.message.len() > 0
        || ap.file.len() > 0
        || ap.image.len() > 0
        || ap.audio.len() > 0
        || ap.event.len() > 0
        || ap.listen.is_once()
        || ap.listen.is_forever()
        || ap.listen.is_tail()
        || ap.listen.is_all()
        || !ap.logout.is_none();
    ap.tail > 0 || first || second
}

/// The position of an action in the order in which actions are done.
pub open spec fn action_position(a: Action) -> int {
    match a {
        Action::Bootstrap => 0,
        Action::Verify => 1,
        Action::Devices => 2,
        Action::GetRoomInfo => 3,
        Action::Rooms => 4,
        Action::InvitedRooms => 5,
        Action::JoinedRooms => 6,
        Action::LeftRooms => 7,
        Action::RoomGetVisibility => 8,
        Action::RoomGetState => 9,
        Action::JoinedMembers => 10,
        Action::RoomResolveAlias => 11,
        Action::GetAvatar => 12,
        Action::GetAvatarUrl => 13,
        Action::GetDisplayName => 14,
        Action::GetProfile => 15,
        Action::GetMasterkey => 16,
        Action::MediaDownload => 17,
        Action::GetOpenidToken => 18,
        Action::GetPresence => 19,
        Action::DiscoveryInfo => 20,
        Action::LoginInfo => 21,
        Action::ContentRepositoryConfig => 22,
        Action::GetClientInfo => 23,
        Action::RoomInvites => 24,
        Action::HasPermission => 25,
        Action::JoinedDmRooms => 26,
        Action::Rest => 27,
        Action::RoomCreate => 28,
        Action::RoomDmCreate => 29,
        Action::RoomLeave => 30,
        Action::RoomForget => 31,
        Action::RoomInvite => 32,
        Action::RoomJoin => 33,
        Action::RoomBan => 34,
        Action::RoomUnban => 35,
        Action::RoomKick => 36,
        Action::DeleteDevice => 37,
        Action::SetAvatar => 38,
        Action::SetAvatarUrl => 39,
        Action::UnsetAvatarUrl => 40,
        Action::SetDisplayName => 41,
        Action::RoomEnableEncryption => 42,
        Action::MediaUpload => 43,
        Action::MediaDelete => 44,
        Action::ImportKeys => 45,
        Action::ExportKeys => 46,
        Action::SetDeviceName => 47,
        Action::SetPresence => 48,
        Action::RoomSetAlias => 49,
        Action::RoomDeleteAlias => 50,
        Action::DeleteMxcBefore => 51,
        Action::RoomRedact => 52,
        Action::Message => 53,
        Action::File => 54,
        Action::Image => 55,
        Action::Audio => 56,
        Action::Event => 57,
        Action::ListenOnce => 58,
        Action::ListenForever => 59,
        Action::ListenTail => 60,
        Action::ListenAll => 61,
        Action::Logout => 62,
    }
}

/// Every action has one position, and every position one action.
pub proof fn law_each_action_has_its_place(a: Action)
    ensures
        0 <= action_position(a) < ACTION_COUNT,
        action_at(action_position(a)) == a,
{
}

/// What is wanted is planned, and nothing else.
pub proof fn law_plan_is_what_is_wanted(ap: Args, a: Action)
    ensures
        actions_wanted(ap, ACTION_COUNT as nat).contains(a) <==> a.is_wanted(ap),
{
    law_each_action_has_its_place(a);
    lemma_wanted_upto(ap, ACTION_COUNT as nat, a);
}

/// Among the first positions, what is wanted is planned, and nothing else.
proof fn lemma_wanted_upto(ap: Args, n: nat, a: Action)
    requires
        n <= ACTION_COUNT,
    ensures
        actions_wanted(ap, n).contains(a) <==> a.is_wanted(ap) && action_position(a) < n,
    decreases n,
{
    if n > 0 {
        lemma_wanted_upto(ap, (n - 1) as nat, a);
        lemma_position_of_place((n - 1) as int);
        law_each_action_has_its_place(a);
        let head = actions_wanted(ap, (n - 1) as nat);
        let all = actions_wanted(ap, n);
        if all.contains(a) {
            let j = choose|j: int| 0 <= j < all.len() && all[j] == a;
            if j < head.len() {
                assert(head[j] == a);
                assert(head.contains(a));
            }
        }
        if head.contains(a) {
            let j = choose|j: int| 0 <= j < head.len() && head[j] == a;
            assert(all[j] == a);
        }
        if a.is_wanted(ap) && action_position(a) == n - 1 {
            assert(all[head.len() as int] == a);
        }
    }
}

/// The action at a position has that position.
proof fn lemma_position_of_place(i: int)
    requires
        0 <= i < ACTION_COUNT,
    ensures
        action_position(action_at(i)) == i,
{
}

/// Where the program says that there is nothing to do, no action is lost; and where it goes on, a
/// login, one of the two actions that need no connection, or an action of the plan is wanted, once
/// --tail has taken its effect.
pub proof fn law_nothing_is_lost(ap: Args)
    ensures
        !has_action(ap) ==> forall|a: Action| !#[trigger] a.is_wanted(ap),
        has_action(ap) ==> ap.login != Login::Unset || ap.whoami || ap.media_mxc_to_http@.len() > 0
            || ap.tail > 0 || exists|a: Action| #[trigger] a.is_wanted(ap),
{
    if has_action(ap) && !(ap.login != Login::Unset || ap.whoami || ap.media_mxc_to_http@.len() > 0
        || ap.tail > 0) {
        if Action::Bootstrap.is_wanted(ap) {
        } else if Action::Verify.is_wanted(ap) {
        } else if Action::Devices.is_wanted(ap) {
        } else if Action::GetRoomInfo.is_wanted(ap) {
        } else if Action::Rooms.is_wanted(ap) {
        } else if Action::InvitedRooms.is_wanted(ap) {
        } else if Action::JoinedRooms.is_wanted(ap) {
        } else if Action::LeftRooms.is_wanted(ap) {
        } else if Action::RoomGetVisibility.is_wanted(ap) {
        } else if Action::RoomGetState.is_wanted(ap) {
        } else if Action::JoinedMembers.is_wanted(ap) {
        } else if Action::RoomResolveAlias.is_wanted(ap) {
        } else if Action::GetAvatar.is_wanted(ap) {
        } else if Action::GetAvatarUrl.is_wanted(ap) {
        } else if Action::GetDisplayName.is_wanted(ap) {
        } else if Action::GetProfile.is_wanted(ap) {
        } else if Action::GetMasterkey.is_wanted(ap) {
        } else if Action::MediaDownload.is_wanted(ap) {
        } else if Action::GetOpenidToken.is_wanted(ap) {
        } else if Action::GetPresence.is_wanted(ap) {
        } else if Action::DiscoveryInfo.is_wanted(ap) {
        } else if Action::LoginInfo.is_wanted(ap) {
        } else if Action::ContentRepositoryConfig.is_wanted(ap) {
        } else if Action::GetClientInfo.is_wanted(ap) {
        } else if Action::RoomInvites.is_wanted(ap) {
        } else if Action::HasPermission.is_wanted(ap) {
        } else if Action::JoinedDmRooms.is_wanted(ap) {
        } else if Action::Rest.is_wanted(ap) {
        } else if Action::RoomCreate.is_wanted(ap) {
        } else if Action::RoomDmCreate.is_wanted(ap) {
        } else if Action::RoomLeave.is_wanted(ap) {
        } else if Action::RoomForget.is_wanted(ap) {
        } else if Action::RoomInvite.is_wanted(ap) {
        } else if Action::RoomJoin.is_wanted(ap) {
        } else if Action::RoomBan.is_wanted(ap) {
        } else if Action::RoomUnban.is_wanted(ap) {
        } else if Action::RoomKick.is_wanted(ap) {
        } else if Action::DeleteDevice.is_wanted(ap) {
        } else if Action::SetAvatar.is_wanted(ap) {
        } else if Action::SetAvatarUrl.is_wanted(ap) {
        } else if Action::UnsetAvatarUrl.is_wanted(ap) {
        } else if Action::SetDisplayName.is_wanted(ap) {
        } else if Action::RoomEnableEncryption.is_wanted(ap) {
        } else if Action::MediaUpload.is_wanted(ap) {
        } else if Action::MediaDelete.is_wanted(ap) {
        } else if Action::ImportKeys.is_wanted(ap) {
        } else if Action::ExportKeys.is_wanted(ap) {
        } else if Action::SetDeviceName.is_wanted(ap) {
        } else if Action::SetPresence.is_wanted(ap) {
        } else if Action::RoomSetAlias.is_wanted(ap) {
        } else if Action::RoomDeleteAlias.is_wanted(ap) {
        } else if Action::DeleteMxcBefore.is_wanted(ap) {
        } else if Action::RoomRedact.is_wanted(ap) {
        } else if Action::Message.is_wanted(ap) {
        } else if Action::File.is_wanted(ap) {
        } else if Action::Image.is_wanted(ap) {
        } else if Action::Audio.is_wanted(ap) {
        } else if Action::Event.is_wanted(ap) {
        } else if Action::ListenOnce.is_wanted(ap) {
        } else if Action::ListenForever.is_wanted(ap) {
        } else if Action::ListenTail.is_wanted(ap) {
        } else if Action::ListenAll.is_wanted(ap) {
        } else if Action::Logout.is_wanted(ap) {
        }
    }
}

/// The state of rooms is fetched exactly where an action that needs it is wanted, or --tail.
pub proof fn law_sync_where_needed(ap: Args)
    ensures
        wants_sync(ap) <==> ap.tail > 0 || exists|a: Action|
            #[trigger] a.is_wanted(ap) && a.wants_sync(),
{
    if wants_sync(ap) && ap.tail == 0 {
        if Action::Bootstrap.is_wanted(ap) {
            assert(Action::Bootstrap.wants_sync());
        } else if Action::Verify.is_wanted(ap) {
            assert(Action::Verify.wants_sync());
        } else if Action::GetRoomInfo.is_wanted(ap) {
            assert(Action::GetRoomInfo.wants_sync());
        } else if Action::Rooms.is_wanted(ap) {
            assert(Action::Rooms.wants_sync());
        } else if Action::InvitedRooms.is_wanted(ap) {
            assert(Action::InvitedRooms.wants_sync());
        } else if Action::JoinedRooms.is_wanted(ap) {
            assert(Action::JoinedRooms.wants_sync());
        } else if Action::LeftRooms.is_wanted(ap) {
            assert(Action::LeftRooms.wants_sync());
        } else if Action::RoomGetVisibility.is_wanted(ap) {
            assert(Action::RoomGetVisibility.wants_sync());
        } else if Action::RoomGetState.is_wanted(ap) {
            assert(Action::RoomGetState.wants_sync());
        } else if Action::JoinedMembers.is_wanted(ap) {
            assert(Action::JoinedMembers.wants_sync());
        } else if Action::RoomResolveAlias.is_wanted(ap) {
            assert(Action::RoomResolveAlias.wants_sync());
        } else if Action::RoomInvites.is_wanted(ap) {
            assert(Action::RoomInvites.wants_sync());
        } else if Action::HasPermission.is_wanted(ap) {
            assert(Action::HasPermission.wants_sync());
        } else if Action::JoinedDmRooms.is_wanted(ap) {
            assert(Action::JoinedDmRooms.wants_sync());
        } else if Action::RoomCreate.is_wanted(ap) {
            assert(Action::RoomCreate.wants_sync());
        } else if Action::RoomDmCreate.is_wanted(ap) {
            assert(Action::RoomDmCreate.wants_sync());
        } else if Action::RoomLeave.is_wanted(ap) {
            assert(Action::RoomLeave.wants_sync());
        } else if Action::RoomForget.is_wanted(ap) {
            assert(Action::RoomForget.wants_sync());
        } else if Action::RoomInvite.is_wanted(ap) {
            assert(Action::RoomInvite.wants_sync());
        } else if Action::RoomJoin.is_wanted(ap) {
            assert(Action::RoomJoin.wants_sync());
        } else if Action::RoomBan.is_wanted(ap) {
            assert(Action::RoomBan.wants_sync());
        } else if Action::RoomUnban.is_wanted(ap) {
            assert(Action::RoomUnban.wants_sync());
        } else if Action::RoomKick.is_wanted(ap) {
            assert(Action::RoomKick.wants_sync());
        } else if Action::RoomEnableEncryption.is_wanted(ap) {
            assert(Action::RoomEnableEncryption.wants_sync());
        } else if Action::RoomSetAlias.is_wanted(ap) {
            assert(Action::RoomSetAlias.wants_sync());
        } else if Action::RoomDeleteAlias.is_wanted(ap) {
            assert(Action::RoomDeleteAlias.wants_sync());
        } else if Action::RoomRedact.is_wanted(ap) {
            assert(Action::RoomRedact.wants_sync());
        } else if Action::Message.is_wanted(ap) {
            assert(Action::Message.wants_sync());
        } else if Action::File.is_wanted(ap) {
            assert(Action::File.wants_sync());
        } else if Action::Image.is_wanted(ap) {
            assert(Action::Image.wants_sync());
        } else if Action::Audio.is_wanted(ap) {
            assert(Action::Audio.wants_sync());
        } else if Action::Event.is_wanted(ap) {
            assert(Action::Event.wants_sync());
        } else if Action::ListenOnce.is_wanted(ap) {
            assert(Action::ListenOnce.wants_sync());
        } else if Action::ListenForever.is_wanted(ap) {
            assert(Action::ListenForever.wants_sync());
        } else if Action::ListenTail.is_wanted(ap) {
            assert(Action::ListenTail.wants_sync());
        } else if Action::ListenAll.is_wanted(ap) {
            assert(Action::ListenAll.wants_sync());
        } else if Action::Logout.is_wanted(ap) {
            assert(Action::Logout.wants_sync());
        }
    }
}

/// The kind of listening once --tail is considered: it overrides --listen.
pub fn listen_mode(listen: Listen, tail: u64) -> (r: Listen)
    ensures
        r == (if tail > 0 {
            Listen::Tail
        } else {
            listen
        }),
{
    if tail > 0 {
        Listen::Tail
    } else {
        listen
    }
}

/// Completes the lists of aliases, users and media of the command line, and lets --tail take its
/// effect. All other arguments stay.
pub fn complete_lists(ap: &mut Args, default_host: &str)
    ensures
        *final(ap) == (Args {
            room_resolve_alias: final(ap).room_resolve_alias,
            room_set_alias: final(ap).room_set_alias,
            room_delete_alias: final(ap).room_delete_alias,
            room_dm_create: final(ap).room_dm_create,
            alias: final(ap).alias,
            media_download: final(ap).media_download,
            media_delete: final(ap).media_delete,
            listen: final(ap).listen,
            ..*old(ap)
        }),
        texts(final(ap).room_resolve_alias@) == aliases_completed(
            texts(old(ap).room_resolve_alias@),
            default_host@,
        ),
        texts(final(ap).room_set_alias@) == aliases_completed(
            texts(old(ap).room_set_alias@),
            default_host@,
        ),
        texts(final(ap).room_delete_alias@) == aliases_completed(
            texts(old(ap).room_delete_alias@),
            default_host@,
        ),
        texts(final(ap).room_dm_create@) == nonblank(
            nonblank(texts(old(ap).room_dm_create@)).map_values(
                |x: Seq<char>| full_user_id(x, default_host@),
            ),
        ),
        texts(final(ap).alias@) == nonblank(
            nonblank(texts(old(ap).alias@)).map_values(
                |x: Seq<char>| full_alias_id(x, default_host@),
            ),
        ),
        texts(final(ap).media_download@) == media_completed(
            texts(old(ap).media_download@),
            default_host@,
        ),
        texts(final(ap).media_delete@) == media_completed(
            texts(old(ap).media_delete@),
            default_host@,
        ),
        final(ap).listen == (if old(ap).tail > 0 {
            Listen::Tail
        } else {
            old(ap).listen
        }),
{
    convert_to_full_room_aliases(&mut ap.room_resolve_alias, default_host);
    convert_to_full_room_aliases(&mut ap.room_set_alias, default_host);
    convert_to_full_room_aliases(&mut ap.room_delete_alias, default_host);
    convert_to_full_user_ids(&mut ap.room_dm_create, default_host);
    drop_blank(&mut ap.room_dm_create);
    convert_to_full_alias_ids(&mut ap.alias, default_host);
    drop_blank(&mut ap.alias);
    convert_to_full_mxc_uris(&mut ap.media_download, default_host);
    convert_to_full_mxc_uris(&mut ap.media_delete, default_host);
    ap.listen = listen_mode(ap.listen, ap.tail);
}

/// The aliases of a list, completed.
pub open spec fn aliases_completed(list: Seq<Seq<char>>, host: Seq<char>) -> Seq<Seq<char>> {
    nonblank(list).map_values(|x: Seq<char>| full_room_alias(x, host))
}

/// The media URIs of a list, completed.
pub open spec fn media_completed(list: Seq<Seq<char>>, host: Seq<char>) -> Seq<Seq<char>> {
    nonblank(nonblank(list).map_values(|x: Seq<char>| full_mxc_uri(x, host)))
}

/// The rooms of a list once the shortcut for the default room and, where it is known, the one for
/// all rooms are replaced.
pub open spec fn shortcuts_replaced(
    list: Seq<Seq<char>>,
    default_room: Seq<char>,
    known: Option<Seq<Seq<char>>>,
) -> Seq<Seq<char>> {
    let rooms = minus_replaced(list, default_room);
    match known {
        Some(all) => star_replaced(rooms, all),
        None => rooms,
    }
}

/// How the rooms of a list become room ids: shortcuts are replaced, and each room is completed or
/// must be resolved. With the known rooms given the shortcut for all of them is replaced too.
pub fn prepare_rooms(
    list: &Vec<String>,
    default_room: &str,
    known: Option<&Vec<String>>,
    default_host: &str,
) -> (steps: Vec<RoomStep>)
    ensures
        steps@.map_values(|s: RoomStep| s@) == nonblank(
            shortcuts_replaced(
                texts(list@),
                default_room@,
                match known {
                    Some(all) => Some(texts(all@)),
                    None => None,
                },
            ),
        ).map_values(|x: Seq<char>| room_plan(x, default_host@)),
{
    let mut rooms = copy_texts(list);
    replace_minus_with_default_room(&mut rooms, default_room);
    if let Some(all) = known {
        replace_star_with_rooms(&mut rooms, all);
    }
    convert_to_full_room_ids(&rooms, default_host)
}

/// What is logged.
#[derive(Debug)]
pub enum LogFilter {
    /// What the environment says.
    Environment,
    /// What the filter says.
    Filter(String),
}

/// The log levels once --debug is considered: it overrides --log-level.
pub open spec fn levels_of(debug: u8, log_level: Option<Seq<LogLevel>>) -> Option<Seq<LogLevel>> {
    if debug == 1 {
        Some(seq![LogLevel::Debug])
    } else if debug > 1 {
        Some(seq![LogLevel::Debug].push(LogLevel::Debug))
    } else {
        log_level
    }
}

/// The values of --log-level.
pub open spec fn level_values(log_level: Option<Vec<LogLevel>>) -> Option<Seq<LogLevel>> {
    match log_level {
        Some(v) => Some(v@),
        None => None,
    }
}

/// Whether the log levels hold a value that is not allowed.
pub open spec fn levels_bad(levels: Seq<LogLevel>) -> bool {
    levels[0] == LogLevel::Unset || (levels.len() > 1 && levels[1] == LogLevel::Unset)
}

/// The filter for log levels: the first is for the program, the second for all else.
pub open spec fn filter_of(levels: Seq<LogLevel>) -> Seq<char> {
    let own = BIN_NAME_UNDERSCORE@ + "="@ + levels[0].name_text();
    if levels.len() == 1 {
        own
    } else {
        levels[1].name_text() + ","@ + own
    }
}

/// The message where a log level is not allowed.
pub const LOG_LEVEL_MESSAGE: &'static str = "Value 'none' not allowed for --log-level argument";

/// What is logged, given whether the environment sets a filter.
pub fn log_filter(debug: u8, log_level: &Option<Vec<LogLevel>>, in_environment: bool) -> (r: Result<
    LogFilter,
    Error,
>)
    requires
        *log_level matches Some(v) ==> v@.len() > 0,
    ensures
        match levels_of(debug, level_values(*log_level)) {
            None => if in_environment {
                r matches Ok(LogFilter::Environment)
            } else {
                r matches Ok(LogFilter::Filter(f)) && f@ == "error,"@ + BIN_NAME_UNDERSCORE@
                    + "=info"@
            },
            Some(levels) => if levels_bad(levels) {
                r matches Err(Error::UnsupportedCliParameter(what)) && what@ == LOG_LEVEL_MESSAGE@
            } else {
                r matches Ok(LogFilter::Filter(f)) && f@ == filter_of(levels)
            },
        },
{
    let mut first = LogLevel::Debug;
    let mut second: Option<LogLevel> = None;
    if debug == 0 {
        match log_level {
            None => {
                if in_environment {
                    return Ok(LogFilter::Environment);
                }
                let mut f = "error,".to_string();
                f.append(BIN_NAME_UNDERSCORE);
                f.append("=info");
                return Ok(LogFilter::Filter(f));
            },
            Some(v) => {
                first = v[0];
                if v.len() > 1 {
                    second = Some(v[1]);
                }
            },
        }
    } else if debug > 1 {
        second = Some(LogLevel::Debug);
    }
    if first.is_none() {
        return Err(Error::UnsupportedCliParameter(LOG_LEVEL_MESSAGE));
    }
    let mut f = String::new();
    if let Some(s) = second {
        if s.is_none() {
            return Err(Error::UnsupportedCliParameter(LOG_LEVEL_MESSAGE));
        }
        let word = s.display();
        f.append(word.as_str());
        f.append(",");
    }
    let word = first.display();
    let ghost start = f@;
    f.append(BIN_NAME_UNDERSCORE);
    f.append("=");
    f.append(word.as_str());
    assert(f@ =~= start + (BIN_NAME_UNDERSCORE@ + "="@ + word@));
    Ok(LogFilter::Filter(f))
}

/// The message where --no-ssl and --ssl-certificate are used together.
pub const SSL_MESSAGE: &'static str =
    "Cannot use both --no-ssl and --ssl-certificate at the same time.";

/// The message where the address of the proxy is not valid.
pub const PROXY_MESSAGE: &'static str =
    "Invalid proxy URL. Must start with http://, socks4://, or socks5://.";

/// Whether the address of a proxy has one of the protocols that can be used.
pub open spec fn proxy_ok(proxy: Seq<char>) -> bool {
    "http://"@.is_prefix_of(proxy) || "socks4://"@.is_prefix_of(proxy) || "socks5://"@.is_prefix_of(
        proxy,
    )
}

/// The proxy that is used. An empty one is none.
pub fn checked_proxy(no_ssl: bool, has_certificate: bool, proxy: &Option<String>) -> (r: Result<
    Option<String>,
    Error,
>)
    ensures
        if no_ssl && has_certificate {
            r matches Err(Error::UnsupportedCliParameter(what)) && what@ == SSL_MESSAGE@
        } else {
            match *proxy {
                Some(p) => if p@.len() == 0 {
                    r matches Ok(None)
                } else if proxy_ok(p@) {
                    r matches Ok(Some(q)) && q@ == p@
                } else {
                    r matches Err(Error::UnsupportedCliParameter(what)) && what@ == PROXY_MESSAGE@
                },
                None => r matches Ok(None),
            }
        },
{
    if no_ssl && has_certificate {
        return Err(Error::UnsupportedCliParameter(SSL_MESSAGE));
    }
    match proxy {
        Some(p) => {
            if p.as_str().is_empty() {
                Ok(None)
            } else if starts_with(p.as_str(), "http://") || starts_with(p.as_str(), "socks4://")
                || starts_with(p.as_str(), "socks5://") {
                Ok(Some(p.clone()))
            } else {
                Err(Error::UnsupportedCliParameter(PROXY_MESSAGE))
            }
        },
        None => Ok(None),
    }
}

/// The separator of columns with its escapes decoded.
pub fn decode_separator(sep: &str) -> (out: String)
    ensures
        out@ == replaced(
            replaced(replaced(sep@, "\\t"@, "\t"@), "\\n"@, "\n"@),
            "\\\\"@,
            "\\"@,
        ),
{
    let a = replace_text(sep, "\\t", "\t");
    let b = replace_text(a.as_str(), "\\n", "\n");
    replace_text(b.as_str(), "\\\\", "\\")
}

/// Lets what is piped into the program be a message where no message is given.
pub fn assume_piped_message(messages: &mut Vec<String>, stdin_is_terminal: bool)
    ensures
        texts(final(messages)@) == (if old(messages)@.len() == 0 && !stdin_is_terminal {
            seq!["-"@]
        } else {
            texts(old(messages)@)
        }),
{
    if messages.len() == 0 && !stdin_is_terminal {
        messages.push("-".to_string());
        assert(texts(messages@) =~= seq!["-"@]);
    }
}

/// Uses the default room where no room is given.
pub fn set_rooms(rooms: &mut Vec<String>, default_room: &str)
    ensures
        texts(final(rooms)@) == (if old(rooms)@.len() == 0 {
            seq![default_room@]
        } else {
            texts(old(rooms)@)
        }),
{
    if rooms.len() == 0 {
        rooms.push(default_room.to_string());
        assert(texts(rooms@) =~= seq![default_room@]);
    }
}

/// The user of the credentials.
pub fn whoami(creds: &Option<Credentials>) -> (r: Result<String, Error>)
    ensures
        match *creds {
            Some(c) => r matches Ok(user) && user@ == c.user_id@,
            None => r matches Err(e) && e == Error::NotLoggedIn,
        },
{
    match creds {
        Some(c) => Ok(c.user_id.clone()),
        None => Err(Error::NotLoggedIn),
    }
}

/// Uses the user of the credentials where no user is given.
pub fn set_users(users: &mut Vec<String>, creds: &Option<Credentials>) -> (r: Result<(), Error>)
    ensures
        old(users)@.len() > 0 ==> r is Ok && *final(users) == *old(users),
        old(users)@.len() == 0 ==> match *creds {
            Some(c) => r is Ok && texts(final(users)@) == seq![c.user_id@],
            None => (r matches Err(e) && e == Error::NotLoggedIn) && *final(users) == *old(users),
        },
{
    if users.len() == 0 {
        match whoami(creds) {
            Ok(user) => {
                let ghost t = user@;
                users.push(user);
                assert(texts(users@) =~= seq![t]);
            },
            Err(e) => {
                return Err(e);
            },
        }
    }
    Ok(())
}

/// What --whoami prints.
pub fn print_whoami(user_id: &str, output: Output) -> (out: String)
    ensures
        out@ == (match output {
            Output::Text => user_id@ + "\n"@,
            Output::JsonSpec => Seq::empty(),
            _ => "{\"user_id\": \""@ + user_id@ + "\"}\n"@,
        }),
{
    match output {
        Output::Text => {
            let mut out = user_id.to_string();
            out.append("\n");
            out
        },
        Output::JsonSpec => String::new(),
        _ => {
            let mut out = "{\"user_id\": \"".to_string();
            out.append(user_id);
            out.append("\"}\n");
            out
        },
    }
}

/// The file and the passphrase of --import-keys or --export-keys: exactly two arguments.
pub fn key_file_args(args: &Vec<String>) -> (r: Result<(String, String), Error>)
    ensures
        args@.len() != 2 ==> (r matches Err(e) && e == Error::MissingCliParameter),
        args@.len() == 2 ==> (r matches Ok(pair) && pair.0@ == args@[0]@ && pair.1@ == args@[1]@),
{
    if args.len() != 2 {
        return Err(Error::MissingCliParameter);
    }
    Ok((args[0].clone(), args[1].clone()))
}

/// The results of the actions so far.
#[derive(Debug)]
pub struct RunState {
    errors: u64,
    last: Option<Error>,
}

/// The results of the actions so far, as a mathematical value.
pub struct RunView {
    pub errors: nat,
    pub last: Option<Error>,
}

impl View for RunState {
    type V = RunView;

    closed spec fn view(&self) -> RunView {
        RunView { errors: self.errors as nat, last: self.last }
    }
}

impl RunState {
    /// Nothing was done yet.
    pub fn new() -> (s: RunState)
        ensures
            s@ == (RunView { errors: 0, last: None }),
    {
        RunState { errors: 0, last: None }
    }

    /// Takes note of the result of an action. An error replaces the one before it.
    pub fn note(&mut self, result: Result<(), Error>)
        requires
            old(self)@.errors < u64::MAX,
        ensures
            match result {
                Ok(()) => final(self)@ == old(self)@,
                Err(e) => final(self)@ == (RunView { errors: old(self)@.errors + 1, last: Some(e) }),
            },
    {
        if let Err(e) = result {
            self.errors = self.errors + 1;
            self.last = Some(e);
        }
    }

    /// How many errors there were, in words.
    pub fn summary(&self) -> (out: String)
        ensures
            out@ == "Encountered "@ + crate::text::decimal(self@.errors) + " error"@ + (
            if self@.errors == 1 {
                Seq::empty()
            } else {
                "s"@
            }) + "."@,
    {
        let n = crate::text::decimal_of(self.errors);
        let mut out = "Encountered ".to_string();
        out.append(n.as_str());
        out.append(" error");
        let ghost start = out@;
        if self.errors != 1 {
            out.append("s");
        }
        assert(out@ =~= start + (if self@.errors == 1 {
            Seq::empty()
        } else {
            "s"@
        }));
        out.append(".");
        out
    }

    /// Whether there was an error.
    pub fn has_errors(&self) -> (r: bool)
        ensures
            r == (self@.errors > 0),
    {
        self.errors > 0
    }

    /// The result of the program: the last error, if there was one.
    pub fn finish(self) -> (r: Result<(), Error>)
        ensures
            match self@.last {
                Some(e) => r == Err::<(), Error>(e),
                None => r is Ok,
            },
    {
        match self.last {
            Some(e) => Err(e),
            None => Ok(()),
        }
    }
}

/// The state after a run of results.
pub open spec fn run_of(results: Seq<Result<(), Error>>) -> RunView
    decreases results.len(),
{
    if results.len() == 0 {
        RunView { errors: 0, last: None }
    } else {
        let before = run_of(results.drop_last());
        match results.last() {
            Ok(()) => before,
            Err(e) => RunView { errors: before.errors + 1, last: Some(e) },
        }
    }
}

/// The program succeeds exactly where every action did.
pub proof fn law_success_iff_all_succeed(results: Seq<Result<(), Error>>)
    ensures
        run_of(results).last is None <==> forall|i: int|
            0 <= i < results.len() ==> #[trigger] results[i] is Ok,
        run_of(results).last is None <==> run_of(results).errors == 0,
    decreases results.len(),
{
    if results.len() > 0 {
        law_success_iff_all_succeed(results.drop_last());
        let head = results.drop_last();
        if forall|i: int| 0 <= i < results.len() ==> #[trigger] results[i] is Ok {
            assert forall|i: int| 0 <= i < head.len() implies #[trigger] head[i] is Ok by {
                assert(results[i] is Ok);
            }
            assert(results[results.len() - 1] is Ok);
        }
        if run_of(results).last is None {
            assert forall|i: int| 0 <= i < results.len() implies #[trigger] results[i] is Ok by {
                if i < head.len() {
                    assert(head[i] is Ok);
                }
            }
        }
    }
}

/// Each option asks for its own action and for no other: a switch where it is set, a list where it
/// has an entry, and a value where it is given.
pub proof fn law_options_ask_for_their_actions(ap: Args)
    ensures
        Action::Bootstrap.is_wanted(ap) <==> ap.bootstrap,
        Action::Verify.is_wanted(ap) <==> ap.verify != Verify::Unset,
        Action::Devices.is_wanted(ap) <==> ap.devices,
        Action::GetRoomInfo.is_wanted(ap) <==> ap.get_room_info@.len() > 0,
        Action::Rooms.is_wanted(ap) <==> ap.rooms,
        Action::InvitedRooms.is_wanted(ap) <==> ap.invited_rooms,
        Action::JoinedRooms.is_wanted(ap) <==> ap.joined_rooms,
        Action::LeftRooms.is_wanted(ap) <==> ap.left_rooms,
        Action::RoomGetVisibility.is_wanted(ap) <==> ap.room_get_visibility@.len() > 0,
        Action::RoomGetState.is_wanted(ap) <==> ap.room_get_state@.len() > 0,
        Action::JoinedMembers.is_wanted(ap) <==> ap.joined_members@.len() > 0,
        Action::RoomResolveAlias.is_wanted(ap) <==> ap.room_resolve_alias@.len() > 0,
        Action::GetAvatar.is_wanted(ap) <==> ap.get_avatar is Some,
        Action::GetAvatarUrl.is_wanted(ap) <==> ap.get_avatar_url,
        Action::GetDisplayName.is_wanted(ap) <==> ap.get_display_name,
        Action::GetProfile.is_wanted(ap) <==> ap.get_profile,
        Action::GetMasterkey.is_wanted(ap) <==> ap.get_masterkey,
        Action::MediaDownload.is_wanted(ap) <==> ap.media_download@.len() > 0,
        Action::GetOpenidToken.is_wanted(ap) <==> ap.get_openid_token,
        Action::GetPresence.is_wanted(ap) <==> ap.get_presence,
        Action::DiscoveryInfo.is_wanted(ap) <==> ap.discovery_info,
        Action::LoginInfo.is_wanted(ap) <==> ap.login_info,
        Action::ContentRepositoryConfig.is_wanted(ap) <==> ap.content_repository_config,
        Action::GetClientInfo.is_wanted(ap) <==> ap.get_client_info,
        Action::RoomInvites.is_wanted(ap) <==> ap.room_invites is Some,
        Action::HasPermission.is_wanted(ap) <==> ap.has_permission@.len() > 0,
        Action::JoinedDmRooms.is_wanted(ap) <==> ap.joined_dm_rooms@.len() > 0,
        Action::Rest.is_wanted(ap) <==> ap.rest@.len() > 0,
        Action::RoomCreate.is_wanted(ap) <==> ap.room_create@.len() > 0,
        Action::RoomDmCreate.is_wanted(ap) <==> ap.room_dm_create@.len() > 0,
        Action::RoomLeave.is_wanted(ap) <==> ap.room_leave@.len() > 0,
        Action::RoomForget.is_wanted(ap) <==> ap.room_forget@.len() > 0,
        Action::RoomInvite.is_wanted(ap) <==> ap.room_invite@.len() > 0,
        Action::RoomJoin.is_wanted(ap) <==> ap.room_join@.len() > 0,
        Action::RoomBan.is_wanted(ap) <==> ap.room_ban@.len() > 0,
        Action::RoomUnban.is_wanted(ap) <==> ap.room_unban@.len() > 0,
        Action::RoomKick.is_wanted(ap) <==> ap.room_kick@.len() > 0,
        Action::DeleteDevice.is_wanted(ap) <==> ap.delete_device@.len() > 0,
        Action::SetAvatar.is_wanted(ap) <==> ap.set_avatar is Some,
        Action::SetAvatarUrl.is_wanted(ap) <==> ap.set_avatar_url is Some,
        Action::UnsetAvatarUrl.is_wanted(ap) <==> ap.unset_avatar_url,
        Action::SetDisplayName.is_wanted(ap) <==> ap.set_display_name is Some,
        Action::RoomEnableEncryption.is_wanted(ap) <==> ap.room_enable_encryption@.len() > 0,
        Action::MediaUpload.is_wanted(ap) <==> ap.media_upload@.len() > 0,
        Action::MediaDelete.is_wanted(ap) <==> ap.media_delete@.len() > 0,
        Action::ImportKeys.is_wanted(ap) <==> ap.import_keys@.len() > 0,
        Action::ExportKeys.is_wanted(ap) <==> ap.export_keys@.len() > 0,
        Action::SetDeviceName.is_wanted(ap) <==> ap.set_device_name is Some,
        Action::SetPresence.is_wanted(ap) <==> ap.set_presence is Some,
        Action::RoomSetAlias.is_wanted(ap) <==> ap.room_set_alias@.len() > 0,
        Action::RoomDeleteAlias.is_wanted(ap) <==> ap.room_delete_alias@.len() > 0,
        Action::DeleteMxcBefore.is_wanted(ap) <==> ap.delete_mxc_before@.len() > 0,
        Action::RoomRedact.is_wanted(ap) <==> ap.room_redact@.len() > 0,
        Action::Message.is_wanted(ap) <==> ap.message@.len() > 0,
        Action::File.is_wanted(ap) <==> ap.file@.len() > 0,
        Action::Image.is_wanted(ap) <==> ap.image@.len() > 0,
        Action::Audio.is_wanted(ap) <==> ap.audio@.len() > 0,
        Action::Event.is_wanted(ap) <==> ap.event@.len() > 0,
        Action::ListenOnce.is_wanted(ap) <==> ap.listen == Listen::Once,
        Action::ListenForever.is_wanted(ap) <==> ap.listen == Listen::Forever,
        Action::ListenTail.is_wanted(ap) <==> ap.listen == Listen::Tail,
        Action::ListenAll.is_wanted(ap) <==> ap.listen == Listen::All,
        Action::Logout.is_wanted(ap) <==> ap.logout != Logout::Unset,
{
}

/// The state of rooms is needed by all actions but those on the account, its devices, its keys, the
/// server and media.
pub proof fn law_sync_is_needed_for_rooms(a: Action)
    ensures
        !a.wants_sync() <==> ({
            ||| a == Action::Devices
            ||| a == Action::GetAvatar
            ||| a == Action::GetAvatarUrl
            ||| a == Action::GetDisplayName
            ||| a == Action::GetProfile
            ||| a == Action::GetMasterkey
            ||| a == Action::MediaDownload
            ||| a == Action::GetOpenidToken
            ||| a == Action::GetPresence
            ||| a == Action::DiscoveryInfo
            ||| a == Action::LoginInfo
            ||| a == Action::ContentRepositoryConfig
            ||| a == Action::GetClientInfo
            ||| a == Action::Rest
            ||| a == Action::DeleteDevice
            ||| a == Action::SetAvatar
            ||| a == Action::SetAvatarUrl
            ||| a == Action::UnsetAvatarUrl
            ||| a == Action::SetDisplayName
            ||| a == Action::MediaUpload
            ||| a == Action::MediaDelete
            ||| a == Action::ImportKeys
            ||| a == Action::ExportKeys
            ||| a == Action::SetDeviceName
            ||| a == Action::SetPresence
            ||| a == Action::DeleteMxcBefore
        }),
{
}

/// Actions are done in a fixed order: first the verification, then what asks the server, then what
/// changes rooms, the account or media, then what is sent, then listening, and last of all logging
/// out.
pub proof fn law_order_of_actions()
    ensures
        action_position(Action::Bootstrap) == 0,
        action_position(Action::Bootstrap) < action_position(Action::Verify),
        action_position(Action::Verify) < action_position(Action::Devices),
        action_position(Action::Devices) < action_position(Action::GetRoomInfo),
        action_position(Action::GetRoomInfo) < action_position(Action::Rooms),
        action_position(Action::Rooms) < action_position(Action::InvitedRooms),
        action_position(Action::InvitedRooms) < action_position(Action::JoinedRooms),
        action_position(Action::JoinedRooms) < action_position(Action::LeftRooms),
        action_position(Action::LeftRooms) < action_position(Action::RoomGetVisibility),
        action_position(Action::RoomGetVisibility) < action_position(Action::RoomGetState),
        action_position(Action::RoomGetState) < action_position(Action::JoinedMembers),
        action_position(Action::JoinedMembers) < action_position(Action::RoomResolveAlias),
        action_position(Action::RoomResolveAlias) < action_position(Action::GetAvatar),
        action_position(Action::GetAvatar) < action_position(Action::GetAvatarUrl),
        action_position(Action::GetAvatarUrl) < action_position(Action::GetDisplayName),
        action_position(Action::GetDisplayName) < action_position(Action::GetProfile),
        action_position(Action::GetProfile) < action_position(Action::GetMasterkey),
        action_position(Action::GetMasterkey) < action_position(Action::MediaDownload),
        action_position(Action::MediaDownload) < action_position(Action::GetOpenidToken),
        action_position(Action::GetOpenidToken) < action_position(Action::GetPresence),
        action_position(Action::GetPresence) < action_position(Action::DiscoveryInfo),
        action_position(Action::DiscoveryInfo) < action_position(Action::LoginInfo),
        action_position(Action::LoginInfo) < action_position(Action::ContentRepositoryConfig),
        action_position(Action::ContentRepositoryConfig) < action_position(Action::GetClientInfo),
        action_position(Action::GetClientInfo) < action_position(Action::RoomInvites),
        action_position(Action::RoomInvites) < action_position(Action::HasPermission),
        action_position(Action::HasPermission) < action_position(Action::JoinedDmRooms),
        action_position(Action::JoinedDmRooms) < action_position(Action::Rest),
        action_position(Action::Rest) < action_position(Action::RoomCreate),
        action_position(Action::RoomCreate) < action_position(Action::RoomDmCreate),
        action_position(Action::RoomDmCreate) < action_position(Action::RoomLeave),
        action_position(Action::RoomLeave) < action_position(Action::RoomForget),
        action_position(Action::RoomForget) < action_position(Action::RoomInvite),
        action_position(Action::RoomInvite) < action_position(Action::RoomJoin),
        action_position(Action::RoomJoin) < action_position(Action::RoomBan),
        action_position(Action::RoomBan) < action_position(Action::RoomUnban),
        action_position(Action::RoomUnban) < action_position(Action::RoomKick),
        action_position(Action::RoomKick) < action_position(Action::DeleteDevice),
        action_position(Action::DeleteDevice) < action_position(Action::SetAvatar),
        action_position(Action::SetAvatar) < action_position(Action::SetAvatarUrl),
        action_position(Action::SetAvatarUrl) < action_position(Action::UnsetAvatarUrl),
        action_position(Action::UnsetAvatarUrl) < action_position(Action::SetDisplayName),
        action_position(Action::SetDisplayName) < action_position(Action::RoomEnableEncryption),
        action_position(Action::RoomEnableEncryption) < action_position(Action::MediaUpload),
        action_position(Action::MediaUpload) < action_position(Action::MediaDelete),
        action_position(Action::MediaDelete) < action_position(Action::ImportKeys),
        action_position(Action::ImportKeys) < action_position(Action::ExportKeys),
        action_position(Action::ExportKeys) < action_position(Action::SetDeviceName),
        action_position(Action::SetDeviceName) < action_position(Action::SetPresence),
        action_position(Action::SetPresence) < action_position(Action::RoomSetAlias),
        action_position(Action::RoomSetAlias) < action_position(Action::RoomDeleteAlias),
        action_position(Action::RoomDeleteAlias) < action_position(Action::DeleteMxcBefore),
        action_position(Action::DeleteMxcBefore) < action_position(Action::RoomRedact),
        action_position(Action::RoomRedact) < action_position(Action::Message),
        action_position(Action::Message) < action_position(Action::File),
        action_position(Action::File) < action_position(Action::Image),
        action_position(Action::Image) < action_position(Action::Audio),
        action_position(Action::Audio) < action_position(Action::Event),
        action_position(Action::Event) < action_position(Action::ListenOnce),
        action_position(Action::ListenOnce) < action_position(Action::ListenForever),
        action_position(Action::ListenForever) < action_position(Action::ListenTail),
        action_position(Action::ListenTail) < action_position(Action::ListenAll),
        action_position(Action::ListenAll) < action_position(Action::Logout),
{
}

/// The plan keeps to the order of the actions, and no action stands in it twice.
pub proof fn law_plan_is_in_order(ap: Args, n: nat, i: int, j: int)
    requires
        n <= ACTION_COUNT,
        0 <= i < j < actions_wanted(ap, n).len(),
    ensures
        action_position(actions_wanted(ap, n)[i]) < action_position(actions_wanted(ap, n)[j]),
    decreases n,
{
    if n > 0 {
        let head = actions_wanted(ap, (n - 1) as nat);
        let all = actions_wanted(ap, n);
        lemma_position_of_place(n - 1);
        if j < head.len() {
            law_plan_is_in_order(ap, (n - 1) as nat, i, j);
            assert(all[i] == head[i] && all[j] == head[j]);
        } else {
            assert(all[i] == head[i]);
            assert(head.contains(head[i]));
            lemma_wanted_upto(ap, (n - 1) as nat, head[i]);
        }
    }
}

/// Every failure is counted, a success changes nothing, and the last failure is the one that is
/// reported.
pub proof fn law_failures_are_counted(results: Seq<Result<(), Error>>, e: Error)
    ensures
        run_of(Seq::empty()).errors == 0 && run_of(Seq::empty()).last is None,
        run_of(results.push(Ok(()))) == run_of(results),
        run_of(results.push(Err(e))).errors == run_of(results).errors + 1,
        run_of(results.push(Err(e))).last == Some(e),
{
    let good: Result<(), Error> = Ok(());
    let bad: Result<(), Error> = Err(e);
    assert(results.push(good).drop_last() =~= results);
    assert(results.push(bad).drop_last() =~= results);
}

/// Asking for debugging overrides the log levels: once for the program, more often for all else
/// too. Without it the levels are as given.
pub proof fn law_debug_overrides_levels(debug: u8, levels: Option<Seq<LogLevel>>)
    ensures
        debug == 0 ==> levels_of(debug, levels) == levels,
        debug > 0 ==> (levels_of(debug, levels) matches Some(list) && list.len() == (if debug == 1 {
            1nat
        } else {
            2nat
        }) && forall|i: int| 0 <= i < list.len() ==> #[trigger] list[i] == LogLevel::Debug),
        level_values(None) is None,
{
}

/// The log levels are the values that were given, in their order.
pub proof fn law_levels_as_given(values: Vec<LogLevel>)
    ensures
        level_values(Some(values)) == Some(values@),
        levels_of(0, level_values(Some(values))) == Some(values@),
{
}

/// The first log level is for the program and the second, where there is one, for all else; a
/// level without a value is allowed for neither.
pub proof fn law_levels_in_the_filter(own: LogLevel, other: LogLevel, more: Seq<LogLevel>)
    ensures
        filter_of(seq![own]) == BIN_NAME_UNDERSCORE@ + "="@ + own.name_text(),
        filter_of(seq![own].push(other) + more) == joined(
            seq![other.name_text()].push(BIN_NAME_UNDERSCORE@ + "="@ + own.name_text()),
            ","@,
        ),
        levels_bad(seq![own]) <==> own == LogLevel::Unset,
        levels_bad(seq![own].push(other) + more) <==> own == LogLevel::Unset || other
            == LogLevel::Unset,
{
    let list = seq![own].push(other) + more;
    assert(list[0] == own);
    assert(list[1] == other);
    lemma_joined_two(other.name_text(), BIN_NAME_UNDERSCORE@ + "="@ + own.name_text(), ","@);
    assert(filter_of(list) =~= other.name_text() + ","@ + (BIN_NAME_UNDERSCORE@ + "="@
        + own.name_text()));
}

/// A proxy is allowed with each of its three protocols, whatever its address is, and with no
/// other beginning.
pub proof fn law_proxy_protocols(address: Seq<char>, c: char)
    ensures
        proxy_ok("http://"@ + address),
        proxy_ok("socks4://"@ + address),
        proxy_ok("socks5://"@ + address),
        c != 'h' && c != 's' ==> !proxy_ok(seq![c] + address),
        !proxy_ok(Seq::empty()),
{
    reveal_strlit("http://");
    reveal_strlit("socks4://");
    reveal_strlit("socks5://");
    assert(("http://"@ + address).subrange(0, 7) =~= "http://"@);
    assert(("socks4://"@ + address).subrange(0, 9) =~= "socks4://"@);
    assert(("socks5://"@ + address).subrange(0, 9) =~= "socks5://"@);
    assert("http://"@.is_prefix_of("http://"@ + address));
    assert("socks4://"@.is_prefix_of("socks4://"@ + address));
    assert("socks5://"@.is_prefix_of("socks5://"@ + address));
    let other = seq![c] + address;
    if c != 'h' && c != 's' && proxy_ok(other) {
        if "http://"@.is_prefix_of(other) {
            assert(other.subrange(0, 7)[0] == c);
        } else if "socks4://"@.is_prefix_of(other) {
            assert(other.subrange(0, 9)[0] == c);
        } else {
            assert(other.subrange(0, 9)[0] == c);
        }
    }
}

/// Every entry of a list that is more than white space is completed, at its place among these.
pub proof fn law_every_entry_is_completed(list: Seq<Seq<char>>, host: Seq<char>, i: int)
    requires
        0 <= i < nonblank(list).len(),
    ensures
        aliases_completed(list, host).len() == nonblank(list).len(),
        aliases_completed(list, host)[i] == full_room_alias(nonblank(list)[i], host),
        trimmed(full_mxc_uri(nonblank(list)[i], host)).len() > 0 ==> media_completed(
            list,
            host,
        ).contains(full_mxc_uri(nonblank(list)[i], host)),
{
    let done = nonblank(list).map_values(|x: Seq<char>| full_mxc_uri(x, host));
    if trimmed(done[i]).len() > 0 {
        lemma_nonblank_has(done, i);
    }
}

/// An entry that is more than white space is among those that are kept.
proof fn lemma_nonblank_has(list: Seq<Seq<char>>, i: int)
    requires
        0 <= i < list.len(),
        trimmed(list[i]).len() > 0,
    ensures
        nonblank(list).contains(list[i]),
    decreases list.len(),
{
    let head = list.drop_last();
    if i == list.len() - 1 {
        assert(nonblank(list)[nonblank(head).len() as int] == list[i]);
    } else {
        lemma_nonblank_has(head, i);
        assert(head[i] == list[i]);
        let k = choose|k: int| 0 <= k < nonblank(head).len() && nonblank(head)[k] == list[i];
        assert(nonblank(list)[k] == list[i]);
    }
}

/// The shortcut for the default room is replaced in any case, and the one for all rooms where
/// these are known.
pub proof fn law_both_shortcuts_are_replaced(
    list: Seq<Seq<char>>,
    default_room: Seq<char>,
    known: Seq<Seq<char>>,
)
    ensures
        shortcuts_replaced(list, default_room, None) == minus_replaced(list, default_room),
        shortcuts_replaced(list, default_room, Some(known)) == star_replaced(
            minus_replaced(list, default_room),
            known,
        ),
{
}

/// The user is printed whole, in plain text alone on a line, and who is not logged in is nobody.
pub proof fn law_user_is_told(
    creds: &Option<Credentials>,
    r: Result<String, Error>,
    user: &str,
    output: Output,
    out: String,
)
    requires
        call_ensures(whoami, (creds,), r),
        call_ensures(print_whoami, (user, output), out),
    ensures
        r is Ok <==> creds is Some,
        creds matches Some(c) ==> (r matches Ok(id) && id@ == c.user_id@),
        r matches Err(e) ==> e == Error::NotLoggedIn,
        output == Output::Text ==> out@.drop_last() == user@ && out@.last() == '\n',
        output == Output::JsonSpec ==> out@.len() == 0,
        output == Output::Json || output == Output::JsonMax ==> ("{\"user_id\": \""@
            + user@).is_prefix_of(out@),
{
    reveal_strlit("\n");
    if output == Output::Text {
        assert(out@.drop_last() =~= user@);
    } else if output != Output::JsonSpec {
        let front = "{\"user_id\": \""@ + user@;
        assert(out@.subrange(0, front.len() as int) =~= front);
    }
}

/// To ask for the last messages is to listen for them, whatever else is asked for.
pub proof fn law_tail_is_a_way_to_listen(listen: Listen, tail: u64, r: Listen)
    requires
        call_ensures(listen_mode, (listen, tail), r),
    ensures
        tail > 0 ==> r == Listen::Tail,
        tail == 0 ==> r == listen,
{
}

/// A separator without backslashes is taken as it is, and the escapes for tab and line end stand
/// for these.
pub proof fn law_separator_escapes(
    plain: &str,
    with_tab: &str,
    with_line_end: &str,
    front: Seq<char>,
    back: Seq<char>,
    a: String,
    b: String,
    c: String,
)
    requires
        call_ensures(decode_separator, (plain,), a),
        call_ensures(decode_separator, (with_tab,), b),
        call_ensures(decode_separator, (with_line_end,), c),
        !plain@.contains('\\'),
        !front.contains('\\'),
        !back.contains('\\'),
        with_tab@ == front + "\\t"@ + back,
        with_line_end@ == front + "\\n"@ + back,
    ensures
        a@ == plain@,
        b@ == front + "\t"@ + back,
        c@ == front + "\n"@ + back,
{
    reveal_strlit("\\t");
    reveal_strlit("\\n");
    reveal_strlit("\\\\");
    reveal_strlit("\t");
    reveal_strlit("\n");
    lemma_no_escape(plain@, "\\t"@, "\t"@);
    lemma_no_escape(plain@, "\\n"@, "\n"@);
    lemma_no_escape(plain@, "\\\\"@, "\\"@);
    lemma_escape_replaced(front, "\\t"@, "\t"@, back);
    lemma_between(front, "\t"@, back);
    lemma_no_escape(front + "\t"@ + back, "\\n"@, "\n"@);
    lemma_no_escape(front + "\t"@ + back, "\\\\"@, "\\"@);
    let raw = front + "\\n"@ + back;
    assert(replaced(raw, "\\t"@, "\t"@) == raw) by {
        assert forall|i: int| !crate::text::occurs_at(raw, "\\t"@, i) by {
            if crate::text::occurs_at(raw, "\\t"@, i) {
                let w = raw.subrange(i, i + 2);
                assert(w[0] == raw[i] && w[1] == raw[i + 1]);
                if i < front.len() {
                    assert(front[i] == '\\');
                } else if i >= front.len() + 2 {
                    assert(back[i - front.len() - 2] == '\\');
                } else if i == front.len() {
                    assert(raw[i + 1] == "\\n"@[1]);
                } else {
                    assert(raw[i] == "\\n"@[1]);
                }
            }
        }
        crate::text::law_absent_text_is_not_replaced(raw, "\\t"@, "\t"@);
    }
    lemma_escape_replaced(front, "\\n"@, "\n"@, back);
    lemma_between(front, "\n"@, back);
    lemma_no_escape(front + "\n"@ + back, "\\\\"@, "\\"@);
}

/// A character without a backslash between texts without one.
proof fn lemma_between(front: Seq<char>, c: Seq<char>, back: Seq<char>)
    requires
        !front.contains('\\'),
        !back.contains('\\'),
        c.len() == 1,
        c[0] != '\\',
    ensures
        !(front + c + back).contains('\\'),
{
    let s = front + c + back;
    if s.contains('\\') {
        let i = choose|i: int| 0 <= i < s.len() && s[i] == '\\';
        if i < front.len() {
            assert(front[i] == '\\');
        } else if i > front.len() {
            assert(back[i - front.len() - 1] == '\\');
        }
    }
}

/// Without a backslash there is no escape.
proof fn lemma_no_escape(s: Seq<char>, from: Seq<char>, to: Seq<char>)
    requires
        from.len() > 0,
        from[0] == '\\',
        !s.contains('\\'),
    ensures
        replaced(s, from, to) == s,
{
    if crate::text::occurs(s, from) {
        crate::text::lemma_occurs_contains(s, from, 0);
    }
    crate::text::law_absent_text_is_not_replaced(s, from, to);
}

/// One escape is replaced where it stands.
proof fn lemma_escape_replaced(front: Seq<char>, from: Seq<char>, to: Seq<char>, back: Seq<char>)
    requires
        from.len() > 0,
        !front.contains(from[0]),
        !back.contains(from[0]),
    ensures
        replaced(front + from + back, from, to) == front + to + back,
{
    crate::text::law_split_at_the_first_separator(front, from, back);
    crate::text::law_split_at_the_first_separator(back, from, back);
    crate::text::law_split_and_join(front + from + back, from, to);
    crate::text::law_joined_in_pieces(seq![front], seq![back], front, to);
    crate::text::law_joined_in_pieces(seq![back], seq![back], back, to);
}

} // verus!
