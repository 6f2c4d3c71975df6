//! What is printed of the answers of the server, and requests to its administration.

use vstd::prelude::*;

use crate::account::{or_empty, text_or_empty};
use crate::ids::{is_alias_id, is_event_id, is_room_id, alias_id_ok, event_id_ok, room_id_ok};
use crate::json::{
    array_of_texts, has_field, has_fields, lemma_has_field, nonempty_or_null, pretty_text,
    print_json, printed, text_array, write_pretty, Fields, Json, JsonDoc,
};
use crate::session::{host_of, url_host};
use crate::text::{
    all_ascii, ascii_lower, decimal, decimal_of, join, joined, lemma_joined_five,
    lemma_joined_three, lemma_joined_two, lower_text, opt_str, opt_text, same_text, string_of,
    texts, to_lower, trim, trimmed,
};
use crate::tokens::{
    byte_len, cuts_fit, display_token, number_in, parse_number, token_displayed,
};
use crate::types::{Error, Output};

verus! {

/// The word for a truth value.
pub open spec fn truth_word(b: bool) -> Seq<char> {
    if b {
        "True"@
    } else {
        "False"@
    }
}

/// The word for a truth value.
pub fn truth(b: bool) -> (out: &'static str)
    ensures
        out@ == truth_word(b),
{
    if b {
        "True"
    } else {
        "False"
    }
}

/// A token with which a user proves who they are to other services.
#[derive(Debug)]
pub struct OpenIdToken {
    pub access_token: String,
    /// How long the token is valid, in seconds.
    pub expires_in: u64,
    pub matrix_server_name: String,
    pub token_type: String,
}

/// What is printed of an OpenID token.
pub fn get_openid_token(user_id: &str, token: &OpenIdToken, output: Output, sep: &str) -> (out:
    String)
    ensures
        out@ == (match output {
            Output::Text => user_id@ + sep@ + token.access_token@ + sep@ + decimal(
                token.expires_in as nat,
            ) + sep@ + token.matrix_server_name@ + sep@ + token.token_type@ + "\n"@,
            _ => printed(
                JsonDoc::Object(
                    seq![("user_id"@, JsonDoc::Text(user_id@))].push(("access_token"@, JsonDoc::Text(token.access_token@))).push(("expires_in"@, JsonDoc::Uint(token.expires_in))).push(("matrix_server_name"@, JsonDoc::Text(token.matrix_server_name@))).push(("token_type"@, JsonDoc::Text(token.token_type@))),
                ),
                output,
            ),
        }),
{
    match output {
        Output::Text => {
            let secs = decimal_of(token.expires_in);
            let mut out = user_id.to_string();
            out.append(sep);
            out.append(token.access_token.as_str());
            out.append(sep);
            out.append(secs.as_str());
            out.append(sep);
            out.append(token.matrix_server_name.as_str());
            out.append(sep);
            out.append(token.token_type.as_str());
            out.append("\n");
            out
        },
        _ => {
            let mut f = Fields::new();
            f.put_text("user_id", user_id);
            f.put_text("access_token", token.access_token.as_str());
            f.put("expires_in", Json::Uint(token.expires_in));
            f.put_text("matrix_server_name", token.matrix_server_name.as_str());
            f.put_text("token_type", token.token_type.as_str());
            let doc = f.object();
            print_json(&doc, output)
        },
    }
}

/// Whether a user is there.
#[derive(Debug)]
pub struct PresenceInfo {
    pub presence: String,
    pub status_msg: Option<String>,
    /// How long ago the user was active, in milliseconds.
    pub last_active_ago: Option<u64>,
    pub currently_active: Option<bool>,
}

/// How long ago the user was active, zero where it is not known.
pub open spec fn active_ago(p: PresenceInfo) -> u64 {
    match p.last_active_ago {
        Some(ms) => ms,
        None => 0,
    }
}

/// Whether the user is active, which they are not where it is not known.
pub open spec fn is_active(p: PresenceInfo) -> bool {
    p.currently_active == Some(true)
}

/// What is printed of the presence of a user.
pub fn get_presence(user_id: &str, p: &PresenceInfo, output: Output, sep: &str) -> (out: String)
    ensures
        out@ == (match output {
            Output::Text => user_id@ + sep@ + p.presence@ + sep@ + decimal(active_ago(*p) as nat)
                + sep@ + truth_word(is_active(*p)) + sep@ + or_empty(p.status_msg) + "\n"@,
            _ => printed(
                JsonDoc::Object(
                    seq![("user_id"@, JsonDoc::Text(user_id@))].push(("presence"@, JsonDoc::Text(p.presence@))).push(("last_active_ago"@, JsonDoc::Uint(active_ago(*p)))).push(("currently_active"@, JsonDoc::Bool(is_active(*p)))).push(("status_msg"@, JsonDoc::Text(or_empty(p.status_msg)))),
                ),
                output,
            ),
        }),
{
    let ago: u64 = match p.last_active_ago {
        Some(ms) => ms,
        None => 0,
    };
    let active = match p.currently_active {
        Some(b) => b,
        None => false,
    };
    match output {
        Output::Text => {
            let ms = decimal_of(ago);
            let mut out = user_id.to_string();
            out.append(sep);
            out.append(p.presence.as_str());
            out.append(sep);
            out.append(ms.as_str());
            out.append(sep);
            out.append(truth(active));
            out.append(sep);
            out.append(text_or_empty(&p.status_msg));
            out.append("\n");
            out
        },
        _ => {
            let mut f = Fields::new();
            f.put_text("user_id", user_id);
            f.put_text("presence", p.presence.as_str());
            f.put("last_active_ago", Json::Uint(ago));
            f.put("currently_active", Json::Bool(active));
            f.put_text("status_msg", text_or_empty(&p.status_msg));
            let doc = f.object();
            print_json(&doc, output)
        },
    }
}

/// The text without the slashes at its end.
pub open spec fn without_slashes(s: Seq<char>) -> Seq<char>
    decreases s.len(),
{
    if s.len() > 0 && s.last() == '/' {
        without_slashes(s.drop_last())
    } else {
        s
    }
}

/// Removes the slashes at the end.
pub fn trim_slashes(s: &str) -> (out: String)
    ensures
        out@ == without_slashes(s@),
{
    let cs = crate::text::chars_of(s);
    let mut n: usize = cs.len();
    assert(cs@.take(n as int) =~= cs@);
    while n > 0 && cs[n - 1] == '/'
        invariant
            n <= cs.len(),
            without_slashes(cs@.take(n as int)) == without_slashes(cs@),
        decreases n,
    {
        assert(cs@.take(n as int).drop_last() =~= cs@.take(n - 1));
        n -= 1;
    }
    let out = string_of(&cs, 0, n);
    assert(out@ =~= cs@.take(n as int));
    out
}

/// The text without one slash at its end.
pub open spec fn without_slash(s: Seq<char>) -> Seq<char> {
    if s.len() > 0 && s.last() == '/' {
        s.drop_last()
    } else {
        s
    }
}

/// Removes one slash at the end.
pub fn trim_slash(s: &str) -> (out: String)
    ensures
        out@ == without_slash(s@),
{
    let cs = crate::text::chars_of(s);
    if cs.len() > 0 && cs[cs.len() - 1] == '/' {
        let out = string_of(&cs, 0, cs.len() - 1);
        assert(out@ =~= s@.drop_last());
        out
    } else {
        s.to_string()
    }
}

/// What the server says about itself.
#[derive(Debug)]
pub struct Discovery {
    pub homeserver: String,
    pub identity_server: Option<String>,
}

/// The address of the identity server, empty where there is none.
pub open spec fn identity_server_of(found: Option<Discovery>) -> Seq<char> {
    match found {
        Some(d) => match d.identity_server {
            Some(s) => without_slashes(s@),
            None => Seq::empty(),
        },
        None => Seq::empty(),
    }
}

/// The address of the homeserver: what the server says, else the one that is in use.
pub open spec fn homeserver_of(found: Option<Discovery>, in_use: Seq<char>) -> Seq<char> {
    match found {
        Some(d) => without_slashes(d.homeserver@),
        None => without_slashes(in_use),
    }
}

/// What is printed of what the server says about itself.
pub fn discovery_info(
    found: &Option<Discovery>,
    in_use: &str,
    output: Output,
    sep: &str,
) -> (out: String)
    ensures
        out@ == (match output {
            Output::Text => homeserver_of(*found, in_use@) + sep@ + crate::account::or_none(
                identity_server_of(*found),
            ) + "\n"@,
            _ => printed(
                JsonDoc::Object(
                    seq![("homeserver_url"@, JsonDoc::Text(homeserver_of(*found, in_use@)))].push(("identity_server_url"@, nonempty_or_null(identity_server_of(*found)))),
                ),
                output,
            ),
        }),
{
    let homeserver = match found {
        Some(d) => trim_slashes(d.homeserver.as_str()),
        None => trim_slashes(in_use),
    };
    let identity = match found {
        Some(d) => match &d.identity_server {
            Some(s) => trim_slashes(s.as_str()),
            None => String::new(),
        },
        None => String::new(),
    };
    match output {
        Output::Text => {
            let mut out = homeserver;
            out.append(sep);
            out.append(crate::account::text_or_none(identity.as_str()));
            out.append("\n");
            out
        },
        _ => {
            let mut f = Fields::new();
            f.put_text("homeserver_url", homeserver.as_str());
            f.put("identity_server_url", crate::json::json_nonempty(identity.as_str()));
            let doc = f.object();
            print_json(&doc, output)
        },
    }
}

/// What is printed of the ways to log in.
pub fn login_info(flows: &Vec<String>, output: Output) -> (out: String)
    ensures
        out@ == (match output {
            Output::Text => joined(texts(flows@), "\n"@) + "\n"@,
            _ => printed(JsonDoc::Object(seq![("flows"@, text_array(texts(flows@)))]), output),
        }),
{
    match output {
        Output::Text => {
            let mut out = join(flows, "\n");
            out.append("\n");
            out
        },
        _ => {
            let mut f = Fields::new();
            f.put("flows", array_of_texts(flows));
            let doc = f.object();
            print_json(&doc, output)
        },
    }
}

/// What is printed of the configuration of the content repository.
pub fn content_repository_config(upload_size: u64, output: Output) -> (out: String)
    ensures
        out@ == (match output {
            Output::Text => decimal(upload_size as nat) + "\n"@,
            _ => printed(
                JsonDoc::Object(seq![("upload_size"@, JsonDoc::Uint(upload_size))]),
                output,
            ),
        }),
{
    match output {
        Output::Text => {
            let mut out = decimal_of(upload_size);
            out.append("\n");
            out
        },
        _ => {
            let mut f = Fields::new();
            f.put("upload_size", Json::Uint(upload_size));
            let doc = f.object();
            print_json(&doc, output)
        },
    }
}

/// The first notation for a date and time.
pub const DATE_FORMAT: &'static str = "%d.%m.%Y %H:%M:%S";

/// The second notation for a date and time.
pub const ISO_FORMAT: &'static str = "%Y-%m-%dT%H:%M:%S";

/// The seconds since 1970 of the date and time that `NaiveDateTime::parse_from_str` reads.
pub uninterp spec fn date_seconds(text: Seq<char>, format: Seq<char>) -> Option<i64>;

/// Calls `NaiveDateTime::parse_from_str` and takes the time as one of UTC. The seconds depend on
/// the text and the format alone and are named; the years that can be read end with 262142.
#[verifier::external_body]
pub(crate) fn parse_date(text: &str, format: &str) -> (r: Option<i64>)
    requires
        format@ == DATE_FORMAT@ || format@ == ISO_FORMAT@,
    ensures
        r == date_seconds(text@, format@),
        r matches Some(t) ==> t < 10_000_000_000_000,
{
    chrono::NaiveDateTime::parse_from_str(text, format).ok().map(|d| d.and_utc().timestamp())
}

/// Seconds as milliseconds. Times before 1970, from which there are no media, count as its
/// beginning.
pub open spec fn seconds_as_millis(secs: int) -> int {
    if secs < 0 {
        0
    } else {
        secs * 1000
    }
}

/// Seconds as milliseconds.
pub fn to_millis(secs: i64) -> (ms: u64)
    requires
        secs < 10_000_000_000_000,
    ensures
        ms == seconds_as_millis(secs as int),
{
    if secs < 0 {
        0
    } else {
        (secs as u64) * 1000
    }
}

/// The time in milliseconds that a text gives: a number, or a date and time in one of two
/// notations.
pub open spec fn timestamp_in(
    number: Option<u64>,
    date: Option<i64>,
    iso: Option<i64>,
) -> Option<int> {
    match number {
        Some(ms) => Some(ms as int),
        None => match date {
            Some(t) => Some(seconds_as_millis(t as int)),
            None => match iso {
                Some(t) => Some(seconds_as_millis(t as int)),
                None => None,
            },
        },
    }
}

/// The time in milliseconds that a text gives.
pub fn parse_timestamp(text: &str) -> (r: Option<u64>)
    ensures
        match r {
            Some(ms) => timestamp_in(
                number_in(text@),
                date_seconds(text@, DATE_FORMAT@),
                date_seconds(text@, ISO_FORMAT@),
            ) == Some(ms as int),
            None => timestamp_in(
                number_in(text@),
                date_seconds(text@, DATE_FORMAT@),
                date_seconds(text@, ISO_FORMAT@),
            ) is None,
        },
{
    if let Some(ms) = parse_number(text) {
        return Some(ms);
    }
    if let Some(t) = parse_date(text, DATE_FORMAT) {
        return Some(to_millis(t));
    }
    match parse_date(text, ISO_FORMAT) {
        Some(t) => Some(to_millis(t)),
        None => None,
    }
}

/// The smallest size that an optional second argument gives.
pub open spec fn size_in(args: Seq<Seq<char>>) -> u64 {
    if args.len() == 2 && number_in(args[1]) is Some {
        number_in(args[1])->0
    } else {
        0
    }
}

/// The address for deleting media older than a time and greater than a size.
pub open spec fn delete_media_url(
    homeserver: Seq<char>,
    host: Option<Seq<char>>,
    ms: nat,
    size: nat,
) -> Seq<char> {
    without_slash(homeserver) + "/_synapse/admin/v1/media/"@ + (match host {
        Some(h) => h,
        None => "localhost"@,
    }) + "/delete?before_ts="@ + decimal(ms) + "&size_gt="@ + decimal(size)
}

/// The address for deleting media older than a time and greater than a size.
pub fn build_delete_media_url(
    homeserver: &str,
    host: Option<&str>,
    ms: u64,
    size: u64,
) -> (out: String)
    ensures
        out@ == delete_media_url(homeserver@, opt_str(host), ms as nat, size as nat),
{
    let ms_text = decimal_of(ms);
    let size_text = decimal_of(size);
    let mut out = trim_slash(homeserver);
    out.append("/_synapse/admin/v1/media/");
    match host {
        Some(h) => out.append(h),
        None => out.append("localhost"),
    }
    out.append("/delete?before_ts=");
    out.append(ms_text.as_str());
    out.append("&size_gt=");
    out.append(size_text.as_str());
    out
}

/// The time that the first argument gives.
pub open spec fn before_time(text: Seq<char>) -> Option<int> {
    timestamp_in(
        number_in(text),
        date_seconds(text, DATE_FORMAT@),
        date_seconds(text, ISO_FORMAT@),
    )
}

/// The address for deleting old media. There must be one argument, a time, or two, a time and a
/// size. The media are those of the host in the address of the homeserver.
pub fn delete_mxc_before(args: &Vec<String>, homeserver: &str) -> (r: Result<String, Error>)
    ensures
        args@.len() == 0 || args@.len() > 2 ==> (r matches Err(e) && e
            == Error::MissingCliParameter),
        1 <= args@.len() <= 2 ==> match before_time(args@[0]@) {
            Some(ms) => r matches Ok(url) && url@ == delete_media_url(
                homeserver@,
                url_host(homeserver@),
                ms as nat,
                size_in(texts(args@)) as nat,
            ),
            None => r matches Err(e) && e == Error::DeleteMxcBeforeFailed,
        },
{
    let host = host_of(homeserver);
    match &host {
        Some(h) => delete_mxc_before_on(args, homeserver, Some(h.as_str())),
        None => delete_mxc_before_on(args, homeserver, None),
    }
}

/// The address for deleting old media of a host.
pub fn delete_mxc_before_on(args: &Vec<String>, homeserver: &str, host: Option<&str>) -> (r: Result<
    String,
    Error,
>)
    ensures
        args@.len() == 0 || args@.len() > 2 ==> (r matches Err(e) && e
            == Error::MissingCliParameter),
        1 <= args@.len() <= 2 ==> match before_time(args@[0]@) {
            Some(ms) => r matches Ok(url) && url@ == delete_media_url(
                homeserver@,
                opt_str(host),
                ms as nat,
                size_in(texts(args@)) as nat,
            ),
            None => r matches Err(e) && e == Error::DeleteMxcBeforeFailed,
        },
{
    if args.len() == 0 || args.len() > 2 {
        return Err(Error::MissingCliParameter);
    }
    match parse_timestamp(args[0].as_str()) {
        Some(ms) => {
            let size: u64 = if args.len() == 2 {
                assert(texts(args@)[1] == args@[1]@);
                match parse_number(args[1].as_str()) {
                    Some(n) => n,
                    None => 0,
                }
            } else {
                0
            };
            Ok(build_delete_media_url(homeserver, host, ms, size))
        },
        None => Err(Error::DeleteMxcBeforeFailed),
    }
}

/// An answer of the server.
#[derive(Debug)]
pub struct Answer {
    pub success: bool,
    /// The status with its number and meaning.
    pub status: String,
    pub body: String,
}

/// What is printed of the answer to the deletion of old media, and its result. Without an answer
/// the deletion failed.
pub fn delete_mxc_answer(answer: &Option<Answer>, output: Output) -> (r: (
    String,
    Result<(), Error>,
))
    ensures
        match *answer {
            Some(a) => {
                &&& r.0@ == (match output {
                    Output::JsonSpec => Seq::empty(),
                    Output::Text => if a.success {
                        a.body@ + "\n"@
                    } else {
                        "Error: "@ + a.status@ + " "@ + a.body@ + "\n"@
                    },
                    _ => a.body@ + "\n"@,
                })
                &&& a.success ==> r.1 is Ok
                &&& !a.success ==> (r.1 matches Err(e) && e == Error::DeleteMxcBeforeFailed)
            },
            None => r.0@ == Seq::<char>::empty() && (r.1 matches Err(e) && e
                == Error::DeleteMxcBeforeFailed),
        },
{
    match answer {
        Some(a) => {
            let result = if a.success {
                Ok(())
            } else {
                Err(Error::DeleteMxcBeforeFailed)
            };
            let text = match output {
                Output::JsonSpec => String::new(),
                Output::Text => {
                    let mut out = String::new();
                    if !a.success {
                        out.append("Error: ");
                        out.append(a.status.as_str());
                        out.append(" ");
                    }
                    out.append(a.body.as_str());
                    out.append("\n");
                    out
                },
                _ => {
                    let mut out = a.body.clone();
                    out.append("\n");
                    out
                },
            };
            (text, result)
        },
        None => (String::new(), Err(Error::DeleteMxcBeforeFailed)),
    }
}

/// The client as a document.
pub open spec fn client_doc(
    creds: crate::credentials::Credentials,
    rooms: Seq<Seq<char>>,
) -> JsonDoc {
    JsonDoc::Object(
        seq![("user_id"@, JsonDoc::Text(creds.user_id@))].push(("device_id"@, JsonDoc::Text(creds.device_id@))).push(("homeserver"@, JsonDoc::Text(without_slash(creds.homeserver@)))).push(("room_id"@, JsonDoc::Text(creds.room_id@))).push(("access_token"@, JsonDoc::Text(token_displayed(creds.access_token@)))).push(("rooms"@, text_array(rooms))),
    )
}

/// What is printed of the client: always JSON, with the access token shown in part only.
pub fn get_client_info(
    creds: &crate::credentials::Credentials,
    rooms: &Vec<String>,
) -> (out: String)
    requires
        byte_len(creds.access_token@) > 8 ==> cuts_fit(creds.access_token@),
    ensures
        out@ == pretty_text(client_doc(*creds, texts(rooms@))) + "\n"@,
{
    let homeserver = trim_slash(creds.homeserver.as_str());
    let token = display_token(creds.access_token.as_str());
    let mut f = Fields::new();
    f.put_text("user_id", creds.user_id.as_str());
    f.put_text("device_id", creds.device_id.as_str());
    f.put_text("homeserver", homeserver.as_str());
    f.put_text("room_id", creds.room_id.as_str());
    f.put_text("access_token", token.as_str());
    f.put("rooms", array_of_texts(rooms));
    let doc = f.object();
    let mut out = write_pretty(&doc);
    out.append("\n");
    out
}

/// What is done with invitations.
#[derive(Clone, Copy, Debug, PartialEq, Eq, Structural)]
pub struct InviteMode {
    pub list: bool,
    pub join: bool,
}

/// What a word asks to be done with invitations.
pub open spec fn invite_mode_of(word: Seq<char>) -> Option<InviteMode> {
    if word == "list"@ {
        Some(InviteMode { list: true, join: false })
    } else if word == "join"@ {
        Some(InviteMode { list: false, join: true })
    } else if word == "list+join"@ {
        Some(InviteMode { list: true, join: true })
    } else {
        None
    }
}

/// What a word in small letters asks to be done with invitations.
pub fn read_invite_mode(word: &str) -> (r: Option<InviteMode>)
    ensures
        r == invite_mode_of(word@),
{
    if same_text(word, "list") {
        Some(InviteMode { list: true, join: false })
    } else if same_text(word, "join") {
        Some(InviteMode { list: false, join: true })
    } else if same_text(word, "list+join") {
        Some(InviteMode { list: true, join: true })
    } else {
        None
    }
}

/// The message where the argument of --room-invites is not valid.
pub const INVITES_MESSAGE: &'static str =
    "Invalid --room-invites argument. Use list, join, or list+join.";

/// What the argument of --room-invites asks for, whatever its case.
pub fn room_invites(mode: &str) -> (r: Result<InviteMode, Error>)
    ensures
        match invite_mode_of(lower_text(mode@)) {
            Some(m) => r == Ok::<InviteMode, Error>(m),
            None => r matches Err(Error::UnsupportedCliParameter(what)) && what@
                == INVITES_MESSAGE@,
        },
        all_ascii(mode@) ==> match invite_mode_of(ascii_lower(mode@)) {
            Some(m) => r == Ok::<InviteMode, Error>(m),
            None => r is Err,
        },
{
    let word = to_lower(mode);
    match read_invite_mode(word.as_str()) {
        Some(m) => Ok(m),
        None => Err(Error::UnsupportedCliParameter(INVITES_MESSAGE)),
    }
}

/// What is printed of an invitation.
pub fn print_invite(room_id: &str, mode: InviteMode, output: Output, sep: &str) -> (out: String)
    ensures
        out@ == (if !mode.list {
            Seq::empty()
        } else {
            match output {
                Output::Text => room_id@ + sep@ + "m.room.member"@ + sep@ + "invite\n"@,
                Output::JsonSpec => Seq::empty(),
                _ => "{\"room_id\": \""@ + room_id@
                    + "\", \"event\": \"m.room.member\", \"membership\": \"invite\"}\n"@,
            }
        }),
{
    if !mode.list {
        return String::new();
    }
    match output {
        Output::Text => {
            let mut out = room_id.to_string();
            out.append(sep);
            out.append("m.room.member");
            out.append(sep);
            out.append("invite\n");
            out
        },
        Output::JsonSpec => String::new(),
        _ => {
            let mut out = "{\"room_id\": \"".to_string();
            out.append(room_id);
            out.append("\", \"event\": \"m.room.member\", \"membership\": \"invite\"}\n");
            out
        },
    }
}

/// An event whose content is removed.
#[derive(Debug)]
pub struct Redaction {
    pub room_id: String,
    pub event_id: String,
    pub reason: Option<String>,
}

/// Whether the arguments of --room-redact come in threes; a reason may be missing where there is
/// one event only.
pub open spec fn redact_args_ok(n: nat) -> bool {
    n == 2 || n % 3 == 0
}

/// How many redactions the arguments ask for.
pub open spec fn redact_count(n: nat) -> nat {
    if n == 2 {
        1
    } else {
        n / 3
    }
}

/// The text, none where nothing is left of it once trimmed.
pub open spec fn reason_of(text: Seq<char>) -> Option<Seq<char>> {
    if trimmed(text).len() == 0 {
        None
    } else {
        Some(trimmed(text))
    }
}

/// Whether a redaction is the one that the arguments at a position ask for.
pub open spec fn redaction_matches(r: Option<Redaction>, args: Seq<Seq<char>>, i: int) -> bool {
    let room = args[3 * i];
    let event = args[3 * i + 1];
    match r {
        Some(red) => {
            &&& room_id_ok(room)
            &&& event_id_ok(event)
            &&& red.room_id@ == room
            &&& red.event_id@ == event
            &&& opt_text(red.reason) == reason_of(
                crate::room_create::entry_or_empty(args, 3 * i + 2),
            )
        },
        None => !room_id_ok(room) || !event_id_ok(event),
    }
}

/// The redactions that the arguments of --room-redact ask for: a room id, an event id and a
/// reason each. There is none where an id is not valid.
pub fn room_redact(args: &Vec<String>) -> (r: Result<Vec<Option<Redaction>>, Error>)
    ensures
        !redact_args_ok(args@.len()) ==> (r matches Err(e) && e == Error::RoomRedactFailed),
        redact_args_ok(args@.len()) ==> (r matches Ok(list) && list@.len() == redact_count(
            args@.len(),
        ) && (forall|i: int|
            0 <= i < list@.len() ==> redaction_matches(
                #[trigger] list@[i],
                texts(args@),
                i,
            ))),
{
    if args.len() != 2 && args.len() % 3 != 0 {
        return Err(Error::RoomRedactFailed);
    }
    let count: usize = if args.len() == 2 {
        1
    } else {
        args.len() / 3
    };
    let mut list: Vec<Option<Redaction>> = Vec::new();
    let mut i: usize = 0;
    while i < count
        invariant
            i <= count,
            count == redact_count(args@.len()),
            redact_args_ok(args@.len()),
            list.len() == i,
            forall|j: int| 0 <= j < i ==> redaction_matches(#[trigger] list@[j], texts(args@), j),
        decreases count - i,
    {
        assert(3 * i + 1 < args.len());
        let room = args[3 * i].as_str();
        let event = args[3 * i + 1].as_str();
        assert(texts(args@)[3 * i] == room@);
        assert(texts(args@)[3 * i + 1] == event@);
        let red = if is_room_id(room) && is_event_id(event) {
            let given = crate::room_create::entry(args, 3 * i + 2);
            let reason = trim(given.as_str());
            let reason = if reason.as_str().is_empty() {
                None
            } else {
                Some(reason)
            };
            Some(Redaction { room_id: room.to_string(), event_id: event.to_string(), reason })
        } else {
            None
        };
        list.push(red);
        i += 1;
    }
    Ok(list)
}

/// The room to which aliases are added: the first one.
pub fn room_set_alias(rooms: &Vec<String>, aliases: &Vec<String>) -> (r: Result<String, Error>)
    ensures
        rooms@.len() == 0 || aliases@.len() == 0 ==> (r matches Err(e) && e
            == Error::MissingCliParameter),
        rooms@.len() > 0 && aliases@.len() > 0 ==> if room_id_ok(rooms@[0]@) {
            r matches Ok(id) && id@ == rooms@[0]@
        } else {
            r matches Err(e) && e == Error::InvalidRoom
        },
{
    if rooms.len() == 0 || aliases.len() == 0 {
        return Err(Error::MissingCliParameter);
    }
    if is_room_id(rooms[0].as_str()) {
        Ok(rooms[0].clone())
    } else {
        Err(Error::InvalidRoom)
    }
}

/// The aliases that are set or deleted, none where a text is no valid alias.
pub fn checked_aliases(list: &Vec<String>) -> (out: Vec<Option<String>>)
    ensures
        out@.map_values(|a: Option<String>| opt_text(a)) == texts(list@).map_values(
            |t: Seq<char>|
                if alias_id_ok(t) {
                    Some(t)
                } else {
                    None
                },
        ),
{
    let mut out: Vec<Option<String>> = Vec::new();
    let mut i: usize = 0;
    while i < list.len()
        invariant
            i <= list.len(),
            out.len() == i,
            forall|j: int|
                0 <= j < i ==> opt_text(#[trigger] out@[j]) == if alias_id_ok(list@[j]@) {
                    Some(list@[j]@)
                } else {
                    None
                },
        decreases list.len() - i,
    {
        if is_alias_id(list[i].as_str()) {
            out.push(Some(list[i].clone()));
        } else {
            out.push(None);
        }
        i += 1;
    }
    assert(out@.map_values(|a: Option<String>| opt_text(a)) =~= texts(list@).map_values(
        |t: Seq<char>|
            if alias_id_ok(t) {
                Some(t)
            } else {
                None
            },
    ));
    out
}

/// A time that is given in milliseconds is handed on as it is.
pub proof fn law_milliseconds_are_kept(ms: u64)
    ensures
        before_time(decimal(ms as nat)) == Some(ms as int),
{
    crate::tokens::law_number_reads_back(ms);
}

/// A truth value is told by one of two words, the one for what is true and the other for what is
/// not.
pub proof fn law_truth_is_told(b: bool)
    ensures
        b <==> truth_word(b) == "True"@,
        !b <==> truth_word(b) == "False"@,
{
    reveal_strlit("True");
    reveal_strlit("False");
    assert("True"@.len() == 4);
    assert("False"@.len() == 5);
}

/// A user is active only where the server says so, and the time since then is what it says.
pub proof fn law_presence_as_known(p: PresenceInfo)
    ensures
        p.last_active_ago matches Some(ms) ==> active_ago(p) == ms,
        p.last_active_ago is None ==> active_ago(p) == 0,
        p.currently_active matches Some(b) ==> is_active(p) == b,
        p.currently_active is None ==> !is_active(p),
{
}

/// Slashes at the end make no difference, however many there are, and all else of an address is
/// kept; where one slash is taken away, no more than one is.
pub proof fn law_slashes_at_the_end(s: Seq<char>)
    ensures
        without_slashes(s.push('/')) == without_slashes(s),
        without_slash(s.push('/')) == s,
        !(s.len() > 0 && s.last() == '/') ==> without_slashes(s) == s && without_slash(s) == s,
        without_slashes(s).len() > 0 ==> without_slashes(s).last() != '/',
        without_slashes(s).is_prefix_of(s),
    decreases s.len(),
{
    assert(s.push('/').drop_last() =~= s);
    if s.len() > 0 && s.last() == '/' {
        law_slashes_at_the_end(s.drop_last());
        let kept = without_slashes(s);
        assert(kept =~= s.take(kept.len() as int)) by {
            assert(kept =~= s.drop_last().take(kept.len() as int));
        }
    } else {
        assert(s =~= s.take(s.len() as int));
    }
}

/// The homeserver is the one that the server names, and the one in use only where it names none;
/// the identity server is the one that it names.
pub proof fn law_servers_as_named(d: Discovery, in_use: Seq<char>)
    ensures
        homeserver_of(Some(d), in_use) == without_slashes(d.homeserver@),
        homeserver_of(None, in_use) == without_slashes(in_use),
        d.identity_server matches Some(s) ==> identity_server_of(Some(d)) == without_slashes(s@),
        d.identity_server is None ==> identity_server_of(Some(d)).len() == 0,
        identity_server_of(None).len() == 0,
{
}

/// A second has a thousand milliseconds; times before 1970 count as its beginning.
pub proof fn law_seconds_in_milliseconds(secs: int)
    ensures
        secs <= 0 ==> seconds_as_millis(secs) == 0,
        secs >= 0 ==> seconds_as_millis(secs + 1) == seconds_as_millis(secs) + 1000,
        secs >= 0 ==> seconds_as_millis(secs) / 1000 == secs && seconds_as_millis(secs) % 1000 == 0,
{
}

/// A number goes before a date, and a date in the first notation before one in the second; only
/// what is none of them gives no time.
pub proof fn law_number_before_dates(
    number: Option<u64>,
    date: Option<i64>,
    iso: Option<i64>,
)
    ensures
        number matches Some(ms) ==> timestamp_in(number, date, iso) == Some(ms as int),
        number is None ==> (date matches Some(t) ==> timestamp_in(number, date, iso) == Some(
            seconds_as_millis(t as int),
        )),
        number is None && date is None ==> (iso matches Some(t) ==> timestamp_in(number, date, iso)
            == Some(seconds_as_millis(t as int))),
        timestamp_in(number, date, iso) is None <==> number is None && date is None && iso is None,
{
}

/// The smallest size is the number in the second argument, and zero without one.
pub proof fn law_size_as_given(first: Seq<char>, size: u64, other: Seq<char>)
    ensures
        size_in(seq![first]) == 0,
        size_in(seq![first].push(decimal(size as nat))) == size,
        number_in(other) is None ==> size_in(seq![first].push(other)) == 0,
{
    crate::tokens::law_number_reads_back(size);
}

/// The address for deleting media begins with the homeserver, with or without a slash at its end,
/// and names the host, the time and the size; without a host it names the local one.
pub proof fn law_deletion_address(
    homeserver: Seq<char>,
    host: Seq<char>,
    ms: nat,
    size: nat,
)
    requires
        !(homeserver.len() > 0 && homeserver.last() == '/'),
    ensures
        delete_media_url(homeserver.push('/'), Some(host), ms, size) == delete_media_url(
            homeserver,
            Some(host),
            ms,
            size,
        ),
        delete_media_url(homeserver, None, ms, size) == delete_media_url(
            homeserver,
            Some("localhost"@),
            ms,
            size,
        ),
        delete_media_url(homeserver, Some(host), ms, size) == homeserver + joined(
            seq!["/_synapse/admin/v1/media"@].push(host).push(
                "delete?before_ts="@ + decimal(ms) + "&size_gt="@ + decimal(size),
            ),
            "/"@,
        ),
{
    law_slashes_at_the_end(homeserver);
    reveal_strlit("/");
    reveal_strlit("/_synapse/admin/v1/media");
    reveal_strlit("/_synapse/admin/v1/media/");
    reveal_strlit("/delete?before_ts=");
    reveal_strlit("delete?before_ts=");
    assert("/_synapse/admin/v1/media/"@ =~= "/_synapse/admin/v1/media"@ + "/"@);
    assert("/delete?before_ts="@ =~= "/"@ + "delete?before_ts="@);
    let query = "delete?before_ts="@ + decimal(ms) + "&size_gt="@ + decimal(size);
    lemma_joined_three("/_synapse/admin/v1/media"@, host, query, "/"@);
    assert(delete_media_url(homeserver, Some(host), ms, size) =~= homeserver + (
    "/_synapse/admin/v1/media"@ + "/"@ + host + "/"@ + query));
}

/// The client is told with its user, device, homeserver, room and rooms, each as it is stored; the
/// access token is told only as far as tokens are shown.
pub proof fn law_client_is_told(
    creds: crate::credentials::Credentials,
    rooms: Seq<Seq<char>>,
)
    ensures
        ({
            let doc = client_doc(creds, rooms);
            &&& has_fields(doc, 6)
            &&& has_field(doc, "user_id"@, JsonDoc::Text(creds.user_id@))
            &&& has_field(doc, "device_id"@, JsonDoc::Text(creds.device_id@))
            &&& has_field(doc, "homeserver"@, JsonDoc::Text(without_slash(creds.homeserver@)))
            &&& has_field(doc, "room_id"@, JsonDoc::Text(creds.room_id@))
            &&& has_field(doc, "access_token"@, JsonDoc::Text(token_displayed(creds.access_token@)))
            &&& has_field(doc, "rooms"@, text_array(rooms))
        }),
{
    let items = client_doc(creds, rooms)->Object_0;
    lemma_has_field(items, 0);
    lemma_has_field(items, 1);
    lemma_has_field(items, 2);
    lemma_has_field(items, 3);
    lemma_has_field(items, 4);
    lemma_has_field(items, 5);
}

/// Invitations are listed exactly where the word asks for it, alone or with the other, and so they
/// are accepted; no other word is understood.
pub proof fn law_invitations_as_asked(word: Seq<char>)
    ensures
        invite_mode_of(word) is Some <==> word == "list"@ || word == "join"@ || word == "list+join"@,
        invite_mode_of(word) matches Some(mode) ==> {
            &&& mode.list <==> word == "list"@ || word == "list+join"@
            &&& mode.join <==> word == "join"@ || word == "list+join"@
        },
{
    reveal_strlit("list");
    reveal_strlit("join");
    reveal_strlit("list+join");
    assert("list"@[0] == 'l');
    assert("join"@[0] == 'j');
    assert("list"@.len() == 4);
    assert("list+join"@.len() == 9);
}

/// The arguments for removing the content of events come in threes, one event for each three; a
/// single event needs no reason.
pub proof fn law_three_arguments_for_an_event(n: nat)
    ensures
        redact_args_ok(3 * n),
        redact_count(3 * n) == n,
        redact_args_ok(2),
        redact_count(2) == 1,
        !redact_args_ok(3 * n + 1),
        n > 0 ==> !redact_args_ok(3 * n + 2),
{
}

/// The content of an event is removed exactly where the ids of the room and of the event are
/// valid; these are the ones that were given, with the reason without white space around it.
pub proof fn law_redaction_as_given(r: Option<Redaction>, args: Seq<Seq<char>>, i: int)
    requires
        0 <= i,
        3 * i + 1 < args.len(),
        redaction_matches(r, args, i),
    ensures
        r is Some <==> room_id_ok(args[3 * i]) && event_id_ok(args[3 * i + 1]),
        r matches Some(red) ==> {
            &&& red.room_id@ == args[3 * i]
            &&& red.event_id@ == args[3 * i + 1]
            &&& 3 * i + 2 == args.len() ==> red.reason is None
            &&& 3 * i + 2 < args.len() && trimmed(args[3 * i + 2]).len() > 0 ==> opt_text(red.reason)
                == Some(trimmed(args[3 * i + 2]))
            &&& 3 * i + 2 < args.len() && trimmed(args[3 * i + 2]).len() == 0 ==> red.reason is None
        },
{
    assert(trimmed(Seq::<char>::empty()) =~= Seq::empty());
}

/// A token for other services is printed whole with its user, its validity, its server and its
/// type: in plain text as the columns of a line, in JSON as the fields of an object.
pub proof fn law_token_is_printed(
    user_id: &str,
    token: &OpenIdToken,
    output: Output,
    sep: &str,
    line: String,
    json: String,
)
    requires
        call_ensures(get_openid_token, (user_id, token, Output::Text, sep), line),
        call_ensures(get_openid_token, (user_id, token, output, sep), json),
        output != Output::Text,
    ensures
        line@ == joined(
            seq![user_id@].push(token.access_token@).push(decimal(token.expires_in as nat)).push(
                token.matrix_server_name@,
            ).push(token.token_type@),
            sep@,
        ) + "\n"@,
        exists|doc: JsonDoc|
            {
                &&& json@ == #[trigger] printed(doc, output)
                &&& has_fields(doc, 5)
                &&& has_field(doc, "user_id"@, JsonDoc::Text(user_id@))
                &&& has_field(doc, "access_token"@, JsonDoc::Text(token.access_token@))
                &&& has_field(doc, "expires_in"@, JsonDoc::Uint(token.expires_in))
                &&& has_field(doc, "matrix_server_name"@, JsonDoc::Text(token.matrix_server_name@))
                &&& has_field(doc, "token_type"@, JsonDoc::Text(token.token_type@))
            },
{
    lemma_joined_five(
        user_id@,
        token.access_token@,
        decimal(token.expires_in as nat),
        token.matrix_server_name@,
        token.token_type@,
        sep@,
    );
    let items = seq![("user_id"@, JsonDoc::Text(user_id@))].push(
        ("access_token"@, JsonDoc::Text(token.access_token@)),
    ).push(("expires_in"@, JsonDoc::Uint(token.expires_in))).push(
        ("matrix_server_name"@, JsonDoc::Text(token.matrix_server_name@)),
    ).push(("token_type"@, JsonDoc::Text(token.token_type@)));
    lemma_has_field(items, 0);
    lemma_has_field(items, 1);
    lemma_has_field(items, 2);
    lemma_has_field(items, 3);
    lemma_has_field(items, 4);
    assert(json@ == printed(JsonDoc::Object(items), output));
}

/// The presence of a user is printed with the time since they were active, whether they are, and
/// what they say about it.
pub proof fn law_presence_is_printed(
    user_id: &str,
    p: &PresenceInfo,
    message: Seq<char>,
    truth: Seq<char>,
    output: Output,
    sep: &str,
    line: String,
    json: String,
)
    requires
        call_ensures(get_presence, (user_id, p, Output::Text, sep), line),
        call_ensures(get_presence, (user_id, p, output, sep), json),
        output != Output::Text,
        opt_text(p.status_msg) == Some(message) || p.status_msg is None && message.len() == 0,
        p.currently_active == Some(true) ==> truth == "True"@,
        p.currently_active != Some(true) ==> truth == "False"@,
    ensures
        line@ == joined(
            seq![user_id@].push(p.presence@).push(decimal(active_ago(*p) as nat)).push(truth).push(
                message,
            ),
            sep@,
        ) + "\n"@,
        exists|doc: JsonDoc|
            {
                &&& json@ == #[trigger] printed(doc, output)
                &&& has_fields(doc, 5)
                &&& has_field(doc, "user_id"@, JsonDoc::Text(user_id@))
                &&& has_field(doc, "presence"@, JsonDoc::Text(p.presence@))
                &&& has_field(doc, "last_active_ago"@, JsonDoc::Uint(active_ago(*p)))
                &&& has_field(
                    doc,
                    "currently_active"@,
                    JsonDoc::Bool(p.currently_active == Some(true)),
                )
                &&& has_field(doc, "status_msg"@, JsonDoc::Text(message))
            },
{
    let ago = active_ago(*p);
    assert(or_empty(p.status_msg) =~= message);
    lemma_joined_five(user_id@, p.presence@, decimal(ago as nat), truth, message, sep@);
    let items = seq![("user_id"@, JsonDoc::Text(user_id@))].push(
        ("presence"@, JsonDoc::Text(p.presence@)),
    ).push(("last_active_ago"@, JsonDoc::Uint(ago))).push(
        ("currently_active"@, JsonDoc::Bool(is_active(*p))),
    ).push(("status_msg"@, JsonDoc::Text(message)));
    lemma_has_field(items, 0);
    lemma_has_field(items, 1);
    lemma_has_field(items, 2);
    lemma_has_field(items, 3);
    lemma_has_field(items, 4);
    assert(json@ == printed(JsonDoc::Object(items), output));
}

/// Both servers are printed, and the word for none where there is no identity server.
pub proof fn law_servers_are_printed(
    found: &Option<Discovery>,
    in_use: &str,
    shown: Seq<char>,
    output: Output,
    sep: &str,
    line: String,
    json: String,
)
    requires
        call_ensures(discovery_info, (found, in_use, Output::Text, sep), line),
        call_ensures(discovery_info, (found, in_use, output, sep), json),
        output != Output::Text,
        crate::account::shows_or_none(shown, identity_server_of(*found)),
    ensures
        line@ == joined(seq![homeserver_of(*found, in_use@)].push(shown), sep@) + "\n"@,
        exists|doc: JsonDoc|
            {
                &&& json@ == #[trigger] printed(doc, output)
                &&& has_fields(doc, 2)
                &&& has_field(
                    doc,
                    "homeserver_url"@,
                    JsonDoc::Text(homeserver_of(*found, in_use@)),
                )
                &&& identity_server_of(*found).len() > 0 ==> has_field(
                    doc,
                    "identity_server_url"@,
                    JsonDoc::Text(identity_server_of(*found)),
                )
                &&& identity_server_of(*found).len() == 0 ==> has_field(
                    doc,
                    "identity_server_url"@,
                    JsonDoc::Null,
                )
            },
{
    lemma_joined_two(homeserver_of(*found, in_use@), shown, sep@);
    let items = seq![("homeserver_url"@, JsonDoc::Text(homeserver_of(*found, in_use@)))].push(
        ("identity_server_url"@, nonempty_or_null(identity_server_of(*found))),
    );
    lemma_has_field(items, 0);
    lemma_has_field(items, 1);
    assert(json@ == printed(JsonDoc::Object(items), output));
}

/// Every way to log in is printed, and the greatest size of an upload so that it can be read back.
pub proof fn law_all_flows_and_the_size_are_printed(
    flows: &Vec<String>,
    i: int,
    size: u64,
    line: String,
    number: String,
)
    requires
        call_ensures(login_info, (flows, Output::Text), line),
        call_ensures(content_repository_config, (size, Output::Text), number),
        0 <= i < flows@.len(),
    ensures
        crate::text::occurs(line@, flows@[i]@),
        line@.last() == '\n',
        number_in(number@.drop_last()) == Some(size),
        number@.last() == '\n',
{
    reveal_strlit("\n");
    let parts = texts(flows@);
    crate::text::law_joined_parts_stand_in_it(parts, "\n"@, i);
    let all = joined(parts, "\n"@);
    let k = choose|k: int| crate::text::occurs_at(all, parts[i], k);
    let p = parts[i];
    assert(line@.subrange(k, k + p.len()) =~= all.subrange(k, k + p.len()));
    assert(crate::text::occurs_at(line@, p, k));
    assert(number@.drop_last() =~= decimal(size as nat));
    crate::tokens::law_number_reads_back(size);
}

/// What the server answers to the deletion of media is printed whole; it succeeded exactly where
/// the server says so.
pub proof fn law_deletion_answer_is_told(
    answer: &Option<Answer>,
    output: Output,
    r: (String, Result<(), Error>),
)
    requires
        call_ensures(delete_mxc_answer, (answer, output), r),
    ensures
        r.1 is Ok <==> (answer matches Some(a) && a.success),
        r.1 matches Err(e) ==> e == Error::DeleteMxcBeforeFailed,
        answer is None || output == Output::JsonSpec ==> r.0@.len() == 0,
        answer matches Some(a) ==> (output != Output::JsonSpec ==> (a.body@ + "\n"@).is_suffix_of(
            r.0@,
        )),
        answer matches Some(a) ==> (output == Output::Text && !a.success ==> ("Error: "@
            + a.status@).is_prefix_of(r.0@)),
{
    if let Some(a) = answer {
        if output != Output::JsonSpec {
            let end = a.body@ + "\n"@;
            assert(r.0@.subrange(r.0@.len() - end.len(), r.0@.len() as int) =~= end);
            if output == Output::Text && !a.success {
                let front = "Error: "@ + a.status@;
                assert(r.0@.subrange(0, front.len() as int) =~= front);
            }
        }
    }
}

/// Invitations are printed only where they are to be listed, each with its room: in plain text as
/// the columns of a line.
pub proof fn law_listed_invitations_are_printed(
    room_id: &str,
    mode: InviteMode,
    output: Output,
    sep: &str,
    out: String,
    line: String,
)
    requires
        call_ensures(print_invite, (room_id, mode, output, sep), out),
        call_ensures(print_invite, (room_id, mode, Output::Text, sep), line),
    ensures
        !mode.list ==> out@.len() == 0,
        mode.list ==> line@ == joined(
            seq![room_id@].push("m.room.member"@).push("invite"@),
            sep@,
        ) + "\n"@,
{
    if mode.list {
        assert("invite\n"@ =~= "invite"@ + "\n"@) by {
            reveal_strlit("invite");
            reveal_strlit("invite\n");
            reveal_strlit("\n");
        }
        lemma_joined_three(room_id@, "m.room.member"@, "invite"@, sep@);
        let front = room_id@ + sep@ + "m.room.member"@ + sep@;
        assert(front + ("invite"@ + "\n"@) =~= front + "invite"@ + "\n"@);
    }
}

/// An invitation that is printed as JSON names its room.
pub proof fn law_invitation_names_its_room(
    room_id: &str,
    mode: InviteMode,
    output: Output,
    sep: &str,
    out: String,
)
    requires
        call_ensures(print_invite, (room_id, mode, output, sep), out),
        mode.list,
        output == Output::Json || output == Output::JsonMax,
    ensures
        ("{\"room_id\": \""@ + room_id@ + "\""@).is_prefix_of(out@),
{
    reveal_strlit("\"");
    reveal_strlit("\", \"event\": \"m.room.member\", \"membership\": \"invite\"}\n");
    let front = "{\"room_id\": \""@ + room_id@ + "\""@;
    assert(out@.subrange(0, front.len() as int) =~= front);
}

} // verus!
