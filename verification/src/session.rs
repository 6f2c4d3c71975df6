//! Logging in and out, verification, devices and syncing: the decisions.

use vstd::prelude::*;

use crate::ids::{begins, is_user_id, is_valid_room_name, is_valid_username, user_id_ok};
use crate::text::{
    all_ascii, ascii_lower, copy_texts, count_char, lower_text, opt_text, same_text, texts, to_lower, trim,
    trimmed,
};
use crate::types::{Error, Listen, Login, Logout, Sync, Verify};

verus! {

/// What is asked for before a login.
#[derive(Clone, Copy, Debug, PartialEq, Eq, Structural)]
pub enum Prompt {
    Homeserver,
    UserLogin,
    Password,
    /// The access token cannot be asked for; it must be given.
    AccessToken,
    Device,
    RoomDefault,
}

/// What is asked for before a login of that kind, in this order.
pub open spec fn prompts_for(login: Login) -> Seq<Prompt> {
    match login {
        Login::Unset => Seq::empty(),
        Login::Sso => seq![Prompt::Homeserver].push(Prompt::Device).push(Prompt::RoomDefault),
        Login::AccessToken => seq![Prompt::Homeserver].push(Prompt::UserLogin).push(
            Prompt::AccessToken,
        ).push(Prompt::RoomDefault),
        Login::Password => seq![Prompt::Homeserver].push(Prompt::UserLogin).push(
            Prompt::Password,
        ).push(Prompt::Device).push(Prompt::RoomDefault),
    }
}

/// The message where --login has no value.
pub const LOGIN_MESSAGE: &'static str = "--login cannot be empty";

/// What is asked for before a login. Where there are credentials already no login is needed.
pub fn login_prompts(login: Login, credentials_exist: bool) -> (r: Result<Vec<Prompt>, Error>)
    ensures
        if login == Login::Unset {
            r matches Err(Error::UnsupportedCliParameter(what)) && what@ == LOGIN_MESSAGE@
        } else if credentials_exist {
            r matches Err(e) && e == Error::LoginUnnecessary
        } else {
            r matches Ok(list) && list@ == prompts_for(login)
        },
{
    if login.is_none() {
        return Err(Error::UnsupportedCliParameter(LOGIN_MESSAGE));
    }
    if credentials_exist {
        return Err(Error::LoginUnnecessary);
    }
    let mut list: Vec<Prompt> = Vec::new();
    list.push(Prompt::Homeserver);
    if login.is_password() {
        list.push(Prompt::UserLogin);
        list.push(Prompt::Password);
        list.push(Prompt::Device);
    } else if login.is_access_token() {
        list.push(Prompt::UserLogin);
        list.push(Prompt::AccessToken);
    } else {
        list.push(Prompt::Device);
    }
    list.push(Prompt::RoomDefault);
    assert(list@ =~= prompts_for(login));
    Ok(list)
}

/// The text of the address that `Url::parse` reads.
pub uninterp spec fn url_text(text: Seq<char>) -> Option<Seq<char>>;

/// Calls `Url::parse` and takes the address in its normal form. It depends on the text alone and
/// is named.
#[verifier::external_body]
pub(crate) fn parse_url(text: &str) -> (r: Option<String>)
    ensures
        opt_text(r) == url_text(text@),
{
    url::Url::parse(text).ok().map(|u| u.to_string())
}

/// The host in the address that `Url::parse` reads, where it has one.
pub uninterp spec fn url_host(text: Seq<char>) -> Option<Seq<char>>;

/// Calls `Url::parse` and takes the host with `host_str`. Whether there is one, and which, depend
/// on the text alone and are named.
#[verifier::external_body]
fn parse_host(text: &str) -> (r: Option<String>)
    ensures
        opt_text(r) == url_host(text@),
{
    url::Url::parse(text).ok()?.host_str().map(|h| h.to_string())
}

/// The host in the address of a homeserver, where it has one.
pub fn host_of(homeserver: &str) -> (r: Option<String>)
    ensures
        opt_text(r) == url_host(homeserver@),
{
    parse_host(homeserver)
}

/// What is accepted of an answer to a prompt. A valid homeserver is taken in its normal form, a
/// password as it was typed, and the rest trimmed; an empty answer is not accepted.
pub open spec fn accepted(
    prompt: Prompt,
    input: Seq<char>,
    url: Option<Seq<char>>,
) -> Option<Seq<char>> {
    let t = trimmed(input);
    if t.len() == 0 {
        None
    } else {
        match prompt {
            Prompt::Homeserver => url,
            Prompt::UserLogin => if begins(t, '@') && t.contains(':') {
                Some(t)
            } else {
                None
            },
            Prompt::Password => Some(input),
            Prompt::AccessToken => None,
            Prompt::Device => Some(t),
            Prompt::RoomDefault => if begins(t, '!') && count_char(t, ':') == 1 {
                Some(t)
            } else {
                None
            },
        }
    }
}

/// What is accepted of an answer to a prompt, given the address in it.
pub fn accept_with_url(prompt: Prompt, input: &str, url: Option<String>) -> (r: Option<String>)
    ensures
        opt_text(r) == accepted(prompt, input@, opt_text(url)),
{
    let t = trim(input);
    if t.as_str().is_empty() {
        return None;
    }
    match prompt {
        Prompt::Homeserver => url,
        Prompt::UserLogin => if is_valid_username(t.as_str()) {
            Some(t)
        } else {
            None
        },
        Prompt::Password => Some(input.to_string()),
        Prompt::AccessToken => None,
        Prompt::Device => Some(t),
        Prompt::RoomDefault => if is_valid_room_name(t.as_str()) {
            Some(t)
        } else {
            None
        },
    }
}

/// What is accepted of an answer to a prompt. Where there is nothing the prompt is repeated.
pub fn accept_answer(prompt: Prompt, input: &str) -> (r: Option<String>)
    ensures
        opt_text(r) == accepted(prompt, input@, url_text(trimmed(input@))),
{
    let t = trim(input);
    let url = parse_url(t.as_str());
    accept_with_url(prompt, input, url)
}

/// A missing argument that cannot be asked for ends the login.
pub fn required_argument(value: &Option<String>) -> (r: Result<String, Error>)
    ensures
        match *value {
            Some(v) => r matches Ok(out) && out@ == v@,
            None => r matches Err(e) && e == Error::MissingCliParameter,
        },
{
    match value {
        Some(v) => Ok(v.clone()),
        None => Err(Error::MissingCliParameter),
    }
}

/// How long a sync with the server may take, in seconds; none where nothing is synced. After a
/// login everything is synced unless the program listens; with credentials from a file only where
/// an action needs it.
pub open spec fn sync_seconds(
    listen: Listen,
    fresh_login: bool,
    needs_sync: bool,
    sync: Sync,
    timeout: u64,
) -> Option<u64> {
    if listen == Listen::Never && (fresh_login || needs_sync) && sync == Sync::Full {
        Some(if timeout < 30 {
            timeout
        } else {
            30
        })
    } else {
        None
    }
}

/// How long a sync with the server may take, in seconds; none where nothing is synced.
pub fn sync_timeout(
    listen: Listen,
    fresh_login: bool,
    needs_sync: bool,
    sync: Sync,
    timeout: u64,
) -> (r: Option<u64>)
    ensures
        r == sync_seconds(listen, fresh_login, needs_sync, sync, timeout),
{
    if listen.is_never() && (fresh_login || needs_sync) && sync.is_full() {
        Some(if timeout < 30 {
            timeout
        } else {
            30
        })
    } else {
        None
    }
}

/// What a verification consists of.
#[derive(Debug)]
pub enum VerifyPlan {
    /// Each of these users is verified; texts that are no user ids count as failures.
    Users(Vec<Option<String>>),
    /// Each device of the user is verified, up to the first failure.
    Devices,
    /// The other side begins with emojis.
    WaitForEmojis,
    /// This side begins with emojis, with that user and device.
    RequestEmojis(String, String),
    /// The user or the device to begin with is not given: nothing is done.
    Nothing,
}

/// The user ids of a list, none where a text is not valid.
pub open spec fn checked_users(list: Seq<Seq<char>>) -> Seq<Option<Seq<char>>> {
    list.map_values(
        |u: Seq<char>|
            if user_id_ok(u) {
                Some(u)
            } else {
                None
            },
    )
}

/// Whether a plan is the one for a verification.
pub open spec fn plan_matches(
    plan: VerifyPlan,
    verify: Verify,
    users: Seq<Seq<char>>,
    device: Option<Seq<char>>,
) -> bool {
    match verify {
        Verify::Unset => false,
        Verify::ManualUser => plan matches VerifyPlan::Users(list) && list@.map_values(
            |u: Option<String>| opt_text(u),
        ) == checked_users(users),
        Verify::ManualDevice => plan is Devices,
        Verify::Emoji => plan is WaitForEmojis,
        Verify::EmojiReq => if users.len() == 1 && device is Some {
            plan matches VerifyPlan::RequestEmojis(user, dev) && user@ == users[0] && dev@
                == device->0
        } else {
            plan is Nothing
        },
    }
}

/// The message where --verify has no value.
pub const VERIFY_MESSAGE: &'static str = "Argument --verify cannot be empty";

/// Plans a verification.
pub fn verify(method: Verify, users: &Vec<String>, device: &Option<String>) -> (r: Result<
    VerifyPlan,
    Error,
>)
    ensures
        if method == Verify::Unset {
            r matches Err(Error::UnsupportedCliParameter(what)) && what@ == VERIFY_MESSAGE@
        } else {
            r matches Ok(plan) && plan_matches(plan, method, texts(users@), opt_text(*device))
        },
{
    match method {
        Verify::Unset => Err(Error::UnsupportedCliParameter(VERIFY_MESSAGE)),
        Verify::ManualUser => {
            let mut list: Vec<Option<String>> = Vec::new();
            let mut i: usize = 0;
            while i < users.len()
                invariant
                    i <= users.len(),
                    list.len() == i,
                    forall|j: int|
                        0 <= j < i ==> opt_text(#[trigger] list@[j]) == checked_users(
                            texts(users@),
                        )[j],
                decreases users.len() - i,
            {
                if is_user_id(users[i].as_str()) {
                    list.push(Some(users[i].clone()));
                } else {
                    list.push(None);
                }
                i += 1;
            }
            assert(list@.map_values(|u: Option<String>| opt_text(u)) =~= checked_users(
                texts(users@),
            ));
            Ok(VerifyPlan::Users(list))
        },
        Verify::ManualDevice => Ok(VerifyPlan::Devices),
        Verify::Emoji => Ok(VerifyPlan::WaitForEmojis),
        Verify::EmojiReq => {
            if users.len() != 1 {
                return Ok(VerifyPlan::Nothing);
            }
            assert(texts(users@)[0] == users@[0]@);
            match device {
                Some(d) => Ok(VerifyPlan::RequestEmojis(users[0].clone(), d.clone())),
                None => Ok(VerifyPlan::Nothing),
            }
        },
    }
}

/// What became of the attempt to verify a user or a device.
#[derive(Clone, Copy, Debug, PartialEq, Eq, Structural)]
pub enum VerifyOutcome {
    Verified,
    /// The user has no identity, or nothing is known of the device.
    Unknown,
    Failed,
}

/// Whether an attempt counts as a success. A user without an identity and an unknown device are
/// passed over.
pub fn verify_succeeded(outcome: VerifyOutcome) -> (r: bool)
    ensures
        r == (outcome != VerifyOutcome::Failed),
{
    match outcome {
        VerifyOutcome::Failed => false,
        _ => true,
    }
}

/// An entry of --delete-device, given the entry in small letters: the word me stands for the
/// device in use.
pub open spec fn device_meant(entry: Seq<char>, lower: Seq<char>, own: Seq<char>) -> Seq<char> {
    if lower == "me"@ {
        own
    } else {
        entry
    }
}

/// An entry of --delete-device, given the entry in small letters.
pub fn resolve_device(entry: &str, lower: &str, own: &str) -> (out: String)
    ensures
        out@ == device_meant(entry@, lower@, own@),
{
    if same_text(lower, "me") {
        own.to_string()
    } else {
        entry.to_string()
    }
}

/// The entries of --delete-device with the device in use put in its place.
pub open spec fn devices_meant(list: Seq<Seq<char>>, own: Seq<char>) -> Seq<Seq<char>> {
    list.map_values(|d: Seq<char>| device_meant(d, lower_text(d), own))
}

/// The entries that are no asterisk.
pub open spec fn without_star(list: Seq<Seq<char>>) -> Seq<Seq<char>>
    decreases list.len(),
{
    if list.len() == 0 {
        list
    } else if list.last() == "*"@ {
        without_star(list.drop_last())
    } else {
        without_star(list.drop_last()).push(list.last())
    }
}

/// Puts the device in use in its place among the entries of --delete-device.
pub fn resolve_devices(list: &Vec<String>, own: &str) -> (out: Vec<String>)
    ensures
        texts(out@) == devices_meant(texts(list@), own@),
        forall|i: int|
            0 <= i < list@.len() && all_ascii(#[trigger] list@[i]@) ==> out@[i]@ == device_meant(
                list@[i]@,
                ascii_lower(list@[i]@),
                own@,
            ),
{
    let mut out: Vec<String> = Vec::new();
    let mut i: usize = 0;
    while i < list.len()
        invariant
            i <= list.len(),
            out.len() == i,
            forall|j: int|
                0 <= j < i ==> (#[trigger] out@[j])@ == devices_meant(texts(list@), own@)[j],
            forall|j: int|
                0 <= j < i && all_ascii(#[trigger] list@[j]@) ==> out@[j]@ == device_meant(
                    list@[j]@,
                    ascii_lower(list@[j]@),
                    own@,
                ),
        decreases list.len() - i,
    {
        let lower = to_lower(list[i].as_str());
        out.push(resolve_device(list[i].as_str(), lower.as_str(), own));
        i += 1;
    }
    assert(texts(out@) =~= devices_meant(texts(list@), own@));
    out
}

/// Whether an asterisk, which stands for all devices, is among the entries.
pub fn asks_for_all(list: &Vec<String>) -> (r: bool)
    ensures
        r == texts(list@).contains("*"@),
{
    crate::rooms::list_contains(list, "*")
}

/// The devices that are deleted, given all devices of the user: an asterisk stands for all of
/// them, which then come last.
pub fn devices_to_delete(list: &Vec<String>, all: &Vec<String>) -> (out: Vec<String>)
    ensures
        texts(out@) == (if texts(list@).contains("*"@) {
            without_star(texts(list@)) + texts(all@)
        } else {
            texts(list@)
        }),
{
    if !asks_for_all(list) {
        return copy_texts(list);
    }
    let mut out: Vec<String> = Vec::new();
    let mut i: usize = 0;
    let ghost given = texts(list@);
    assert(given.take(0) =~= Seq::empty());
    assert(texts(out@) =~= Seq::empty());
    while i < list.len()
        invariant
            i <= list.len(),
            given == texts(list@),
            texts(out@) == without_star(given.take(i as int)),
        decreases list.len() - i,
    {
        let ghost before = texts(out@);
        assert(given.take(i + 1).drop_last() =~= given.take(i as int));
        assert(given[i as int] == list@[i as int]@);
        if !same_text(list[i].as_str(), "*") {
            out.push(list[i].clone());
            assert(texts(out@) =~= before.push(given[i as int]));
        }
        i += 1;
    }
    assert(given.take(given.len() as int) =~= given);
    let ghost kept = texts(out@);
    let mut more = copy_texts(all);
    let ghost added = texts(more@);
    out.append(&mut more);
    assert(texts(out@) =~= kept + added);
    out
}

/// The user and the password with which devices are deleted.
pub fn delete_credentials(users: &Vec<String>, password: &Option<String>) -> (r: Result<
    (String, String),
    Error,
>)
    ensures
        users@.len() == 0 ==> (r matches Err(e) && e == Error::MissingUser),
        users@.len() > 0 ==> match *password {
            Some(p) => r matches Ok(pair) && pair.0@ == users@[0]@ && pair.1@ == p@,
            None => r matches Err(e) && e == Error::MissingPassword,
        },
{
    if users.len() == 0 {
        return Err(Error::MissingUser);
    }
    match password {
        Some(p) => Ok((users[0].clone(), p.clone())),
        None => Err(Error::MissingPassword),
    }
}

/// What logging out consists of.
#[derive(Clone, Copy, Debug, PartialEq, Eq, Structural)]
pub struct LogoutPlan {
    /// All devices of the user are deleted first.
    pub delete_all_devices: bool,
    /// The server is told to end this session.
    pub end_session: bool,
    /// The credentials file is removed.
    pub remove_credentials: bool,
}

/// What logging out consists of.
pub fn logout(which: Logout) -> (r: LogoutPlan)
    ensures
        r == (LogoutPlan {
            delete_all_devices: which == Logout::All,
            end_session: which == Logout::Me,
            remove_credentials: which != Logout::Unset,
        }),
{
    LogoutPlan {
        delete_all_devices: which.is_all(),
        end_session: which.is_me(),
        remove_credentials: !which.is_none(),
    }
}

/// The star that stands for all devices is not taken for a device.
pub proof fn law_no_star_is_deleted(list: Seq<Seq<char>>)
    ensures
        !without_star(list).contains("*"@),
    decreases list.len(),
{
    if list.len() > 0 {
        law_no_star_is_deleted(list.drop_last());
        let head = without_star(list.drop_last());
        if list.last() != "*"@ && without_star(list).contains("*"@) {
            let i = choose|i: int| 0 <= i < without_star(list).len() && without_star(list)[i] == "*"@;
            assert(i < head.len());
            assert(head[i] == "*"@);
        }
    }
}

/// Every login asks for the homeserver first and for the default room last. A password is asked
/// for only before a login with a password, a token only before one with a token, the user before
/// both of these, and the device before all but the one with a token.
pub proof fn law_logins_ask_for_what_they_need(login: Login)
    requires
        login != Login::Unset,
    ensures
        prompts_for(Login::Unset).len() == 0,
        prompts_for(login).len() >= 3,
        prompts_for(login)[0] == Prompt::Homeserver,
        prompts_for(login).last() == Prompt::RoomDefault,
        prompts_for(login).contains(Prompt::Password) <==> login == Login::Password,
        prompts_for(login).contains(Prompt::AccessToken) <==> login == Login::AccessToken,
        prompts_for(login).contains(Prompt::UserLogin) <==> login == Login::Password || login
            == Login::AccessToken,
        prompts_for(login).contains(Prompt::Device) <==> login == Login::Password || login
            == Login::Sso,
        prompts_for(login).no_duplicates(),
{
    let list = prompts_for(login);
    match login {
        Login::Password => {
            assert(list[1] == Prompt::UserLogin);
            assert(list[2] == Prompt::Password);
            assert(list[3] == Prompt::Device);
        },
        Login::AccessToken => {
            assert(list[1] == Prompt::UserLogin);
            assert(list[2] == Prompt::AccessToken);
        },
        _ => {
            assert(list[1] == Prompt::Device);
        },
    }
}

/// An empty answer is accepted by no prompt. A password is taken as it was typed, a device without
/// white space around it, and so a user and a room, where they have the sign and the colon that
/// they need; a homeserver is taken in its normal form, and a token never.
pub proof fn law_answers_that_are_accepted(
    prompt: Prompt,
    input: Seq<char>,
    url: Option<Seq<char>>,
)
    ensures
        trimmed(input).len() == 0 ==> accepted(prompt, input, url) is None,
        accepted(Prompt::AccessToken, input, url) is None,
        trimmed(input).len() > 0 ==> {
            &&& accepted(Prompt::Password, input, url) == Some(input)
            &&& accepted(Prompt::Device, input, url) == Some(trimmed(input))
            &&& accepted(Prompt::Homeserver, input, url) == url
            &&& accepted(Prompt::UserLogin, input, url) is Some <==> trimmed(input)[0] == '@'
                && trimmed(input).contains(':')
            &&& accepted(Prompt::RoomDefault, input, url) is Some <==> trimmed(input)[0] == '!'
                && count_char(trimmed(input), ':') == 1
            &&& accepted(Prompt::UserLogin, input, url) matches Some(t) ==> t == trimmed(input)
            &&& accepted(Prompt::RoomDefault, input, url) matches Some(t) ==> t == trimmed(input)
        },
{
}

/// Nothing is synced where the program listens, where syncing is switched off, or where nothing
/// needs it; otherwise for as long as the server is waited for, and half a minute at most.
pub proof fn law_sync_is_short(
    listen: Listen,
    fresh_login: bool,
    needs_sync: bool,
    sync: Sync,
    timeout: u64,
)
    ensures
        sync_seconds(listen, fresh_login, needs_sync, sync, timeout) is Some <==> listen
            == Listen::Never && sync == Sync::Full && (fresh_login || needs_sync),
        sync_seconds(listen, fresh_login, needs_sync, sync, timeout) matches Some(t) ==> {
            &&& t <= 30
            &&& t <= timeout
            &&& t == 30 || t == timeout
        },
{
}

/// Each user to verify is the one that was given at that position, and none where that is not
/// valid; for emojis the one user and the device are taken that were given.
pub proof fn law_verification_as_asked(
    plan: VerifyPlan,
    verify: Verify,
    users: Seq<Seq<char>>,
    device: Option<Seq<char>>,
    i: int,
)
    requires
        plan_matches(plan, verify, users, device),
    ensures
        verify != Verify::Unset,
        verify == Verify::ManualDevice <==> plan is Devices,
        verify == Verify::Emoji <==> plan is WaitForEmojis,
        verify == Verify::ManualUser <==> plan is Users,
        plan matches VerifyPlan::Users(list) ==> {
            &&& list@.len() == users.len()
            &&& 0 <= i < users.len() && user_id_ok(users[i]) ==> opt_text(list@[i]) == Some(users[i])
            &&& 0 <= i < users.len() && !user_id_ok(users[i]) ==> list@[i] is None
        },
        plan matches VerifyPlan::RequestEmojis(user, dev) ==> users.len() == 1 && user@ == users[0]
            && device == Some(dev@),
        verify == Verify::EmojiReq && users.len() == 1 && device is Some ==> plan is RequestEmojis,
{
    if let VerifyPlan::Users(list) = plan {
        let shown = list@.map_values(|u: Option<String>| opt_text(u));
        assert(shown == checked_users(users));
        assert(shown.len() == list@.len());
        if 0 <= i < users.len() {
            assert(shown[i] == opt_text(list@[i]));
            assert(checked_users(users)[i] == if user_id_ok(users[i]) {
                Some(users[i])
            } else {
                None
            });
        }
    }
}

/// Each entry names the device of its position; only the word for the own device stands for it.
pub proof fn law_devices_as_named(list: Seq<Seq<char>>, own: Seq<char>, i: int)
    requires
        0 <= i < list.len(),
    ensures
        devices_meant(list, own).len() == list.len(),
        lower_text(list[i]) == "me"@ ==> devices_meant(list, own)[i] == own,
        lower_text(list[i]) != "me"@ ==> devices_meant(list, own)[i] == list[i],
{
}

/// The entries that are no asterisk are kept, each of them and in their order.
pub proof fn law_named_devices_are_kept(a: Seq<Seq<char>>, b: Seq<Seq<char>>, t: Seq<char>)
    ensures
        without_star(a + b) == without_star(a) + without_star(b),
        t != "*"@ ==> without_star(seq![t]) == seq![t],
        without_star(seq!["*"@]).len() == 0,
    decreases b.len(),
{
    let none = Seq::<Seq<char>>::empty();
    assert(seq![t].drop_last() =~= none);
    assert(seq!["*"@].drop_last() =~= none);
    assert(without_star(none) =~= none);
    assert(none.push(t) =~= seq![t]);
    if b.len() == 0 {
        assert(a + b =~= a);
        assert(without_star(a) + without_star(b) =~= without_star(a));
    } else {
        law_named_devices_are_kept(a, b.drop_last(), t);
        assert((a + b).drop_last() =~= a + b.drop_last());
        assert((a + b).last() == b.last());
        assert(without_star(a + b) =~= without_star(a) + without_star(b));
    }
}

/// Logging out of this session ends it and leaves the other devices alone; logging out of all
/// deletes the devices; both remove the credentials, and without either nothing is done.
pub proof fn law_logging_out(which: Logout, plan: LogoutPlan)
    requires
        call_ensures(logout, (which,), plan),
    ensures
        which == Logout::Unset ==> !plan.delete_all_devices && !plan.end_session
            && !plan.remove_credentials,
        which == Logout::Me ==> !plan.delete_all_devices && plan.end_session
            && plan.remove_credentials,
        which == Logout::All ==> plan.delete_all_devices && !plan.end_session
            && plan.remove_credentials,
{
}

/// With an asterisk all devices are deleted, behind those that are named; without one only these.
pub proof fn law_devices_that_are_deleted(
    list: &Vec<String>,
    all: &Vec<String>,
    out: Vec<String>,
    d: Seq<char>,
)
    requires
        call_ensures(devices_to_delete, (list, all), out),
    ensures
        !texts(list@).contains("*"@) ==> texts(out@) == texts(list@),
        texts(list@).contains("*"@) ==> texts(all@).is_suffix_of(texts(out@)),
        texts(list@).contains("*"@) && texts(all@).contains(d) ==> texts(out@).contains(d),
{
    if texts(list@).contains("*"@) {
        let named = without_star(texts(list@));
        let every = texts(all@);
        assert(texts(out@) == named + every);
        let both = named + every;
        assert(both.subrange(both.len() - every.len(), both.len() as int) =~= every);
        if every.contains(d) {
            let i = choose|i: int| 0 <= i < every.len() && every[i] == d;
            assert(both[named.len() + i] == d);
        }
    }
}

} // verus!
