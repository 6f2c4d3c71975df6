//! What is printed about the account: its devices, avatar, display name, profile and keys.

use vstd::prelude::*;

use crate::ids::{mxc_parts, mxc_parts_of, mxc_short};
use crate::json::{
    compact_text, fields, has_field, has_fields, json_nonempty, lemma_has_field, member,
    nonempty_or_null, print_json, printed, text_member, write_compact, Fields, Json, JsonDoc,
};
use crate::text::{
    decimal, decimal_of, joined, law_split_at_the_first_separator, lemma_joined_four,
    lemma_joined_two, opt_text, same_text, split_on, split_text, texts,
};
use crate::tokens::is_digit;
use crate::types::Output;

verus! {

/// The notation in which dates and times are shown.
pub const TIME_FORMAT: &'static str = "%Y-%m-%d %H:%M:%S";

/// The last second that has a date: the end of the year 262142.
pub const LAST_SECOND: i64 = 8_210_266_876_799;

/// The second with which the last day of the year 9999 begins. Up to then years have four digits
/// in every time zone.
pub const LAST_DAY_OF_9999: i64 = 253_402_214_400;

/// What `DateTime::format` writes of the time that lies these seconds and nanoseconds after the
/// beginning of 1970, where clocks are `offset` seconds ahead of UTC.
pub uninterp spec fn time_text(secs: i64, nanos: u32, offset: int, format: Seq<char>) -> Seq<char>;

/// Whether clocks can differ from UTC by so many seconds: by less than a day.
pub open spec fn is_offset(offset: int) -> bool {
    -86_400 < offset < 86_400
}

/// Whether a text is written like `2024-05-31 08:15:00`.
pub open spec fn is_date_time(t: Seq<char>) -> bool {
    &&& t.len() == 19
    &&& forall|i: int|
        0 <= i < 19 ==> if i == 4 || i == 7 {
            #[trigger] t[i] == '-'
        } else if i == 10 {
            t[i] == ' '
        } else if i == 13 || i == 16 {
            t[i] == ':'
        } else {
            is_digit(t[i])
        }
}

/// Calls `DateTime::from_timestamp`, `with_timezone` with the zone of the machine, and `format`.
/// There is a text up to the end of the year 262142. It is that of the time for the offset from
/// UTC that the zone of the machine has at that time; which offset that is is left open, but that
/// it is less than a day. While years have four digits the text has the shape of a date and time.
#[verifier::external_body]
pub(crate) fn local_time(secs: i64, nanos: u32, format: &str) -> (r: Option<String>)
    requires
        0 <= secs,
        nanos < 1_000_000_000,
        format@ == TIME_FORMAT@,
    ensures
        r is Some <==> secs <= LAST_SECOND,
        r matches Some(t) ==> exists|offset: int|
            is_offset(offset) && t@ == #[trigger] time_text(secs, nanos, offset, format@),
        r matches Some(t) ==> (secs < LAST_DAY_OF_9999 ==> is_date_time(t@)),
{
    let time = chrono::DateTime::from_timestamp(secs, nanos)?;
    Some(time.with_timezone(&chrono::Local).format(format).to_string())
}

/// The seconds of a time in milliseconds, and the rest in nanoseconds.
pub fn split_millis(ms: u64) -> (r: (i64, u32))
    ensures
        r.0 == ms / 1000,
        r.1 == (ms % 1000) * 1_000_000,
{
    ((ms / 1000) as i64, ((ms % 1000) * 1_000_000) as u32)
}

/// A time in milliseconds as it is shown: by its local notation, where there is one, else as the
/// number.
pub open spec fn millis_shown(ms: u64, local: Option<Seq<char>>) -> Seq<char> {
    match local {
        Some(t) => t,
        None => decimal(ms as nat),
    }
}

/// A time in milliseconds as it is shown where clocks are `offset` seconds ahead of UTC: as date
/// and time, and as the number where it is too late to have a date.
pub open spec fn millis_text(ms: u64, offset: int) -> Seq<char> {
    if ms / 1000 <= LAST_SECOND {
        time_text((ms / 1000) as i64, ((ms % 1000) * 1_000_000) as u32, offset, TIME_FORMAT@)
    } else {
        decimal(ms as nat)
    }
}

/// Whether the text that shows a time has the shape of a date and time, as it must have while
/// years have four digits.
pub open spec fn well_shown(ms: u64, shown: Seq<char>) -> bool {
    ms / 1000 < LAST_DAY_OF_9999 ==> is_date_time(shown)
}

/// Whether a text shows a time in milliseconds in some time zone.
pub open spec fn shows_millis(ms: u64, shown: Seq<char>) -> bool {
    &&& exists|offset: int| is_offset(offset) && shown == #[trigger] millis_text(ms, offset)
    &&& well_shown(ms, shown)
}

/// A time in milliseconds, given its local notation.
pub fn show_millis_as(ms: u64, local: Option<String>) -> (out: String)
    ensures
        out@ == millis_shown(ms, opt_text(local)),
{
    match local {
        Some(t) => t,
        None => decimal_of(ms),
    }
}

/// A time in milliseconds in the time zone of the machine.
pub fn show_millis(ms: u64) -> (out: String)
    ensures
        shows_millis(ms, out@),
{
    let (secs, nanos) = split_millis(ms);
    let local = local_time(secs, nanos, TIME_FORMAT);
    proof {
        if local is Some {
            let offset = choose|offset: int|
                is_offset(offset) && local->Some_0@ == #[trigger] time_text(
                    secs,
                    nanos,
                    offset,
                    TIME_FORMAT@,
                );
            assert(local->Some_0@ == millis_text(ms, offset));
        } else {
            assert(is_offset(0) && decimal(ms as nat) == millis_text(ms, 0));
        }
    }
    show_millis_as(ms, local)
}

/// A device of the user.
#[derive(Debug)]
pub struct Device {
    pub device_id: String,
    pub display_name: Option<String>,
    pub last_seen_ip: Option<String>,
    /// When it was last seen, in milliseconds.
    pub last_seen_ts: Option<u64>,
}

/// The text, or an empty one where there is none.
pub open spec fn or_empty(t: Option<String>) -> Seq<char> {
    match t {
        Some(s) => s@,
        None => Seq::empty(),
    }
}

/// The text, or an empty one where there is none.
pub fn text_or_empty(t: &Option<String>) -> (out: &str)
    ensures
        out@ == or_empty(*t),
{
    match t {
        Some(s) => s.as_str(),
        None => {
            proof {
                reveal_strlit("");
            }
            assert(""@ =~= Seq::<char>::empty());
            ""
        },
    }
}

/// What is printed of a device, given how the time is shown at which it was last seen.
pub open spec fn device_printed(d: Device, seen: Seq<char>, output: Output, sep: Seq<char>) -> Seq<
    char,
> {
    match output {
        Output::Text => d.device_id@ + sep + or_empty(d.display_name) + sep + or_empty(
            d.last_seen_ip,
        ) + sep + seen + "\n"@,
        _ => printed(
            JsonDoc::Object(
                seq![("device_id"@, JsonDoc::Text(d.device_id@))].push(("display_name"@, JsonDoc::Text(or_empty(d.display_name)))).push(("last_seen_ip"@, JsonDoc::Text(or_empty(d.last_seen_ip)))).push(("last_seen_ts"@, JsonDoc::Text(seen))),
            ),
            output,
        ),
    }
}

/// What is printed of a device, given how the time is shown at which it was last seen.
pub fn print_device(d: &Device, seen: &str, output: Output, sep: &str) -> (out: String)
    ensures
        out@ == device_printed(*d, seen@, output, sep@),
{
    match output {
        Output::Text => {
            let mut out = d.device_id.clone();
            out.append(sep);
            out.append(text_or_empty(&d.display_name));
            out.append(sep);
            out.append(text_or_empty(&d.last_seen_ip));
            out.append(sep);
            out.append(seen);
            out.append("\n");
            out
        },
        _ => {
            let mut f = Fields::new();
            f.put_text("device_id", d.device_id.as_str());
            f.put_text("display_name", text_or_empty(&d.display_name));
            f.put_text("last_seen_ip", text_or_empty(&d.last_seen_ip));
            f.put_text("last_seen_ts", seen);
            let doc = f.object();
            print_json(&doc, output)
        },
    }
}

/// What is printed of the first `n` devices, given how the times are shown.
pub open spec fn devices_printed(
    list: Seq<Device>,
    seen: Seq<Seq<char>>,
    output: Output,
    sep: Seq<char>,
    n: nat,
) -> Seq<char>
    decreases n,
{
    if n == 0 {
        Seq::empty()
    } else {
        devices_printed(list, seen, output, sep, (n - 1) as nat) + device_printed(
            list[n - 1],
            seen[n - 1],
            output,
            sep,
        )
    }
}

/// Whether these texts show when the devices were last seen, each time in some time zone.
pub open spec fn seen_shown(list: Seq<Device>, seen: Seq<Seq<char>>) -> bool {
    &&& seen.len() == list.len()
    &&& forall|i: int|
        0 <= i < list.len() ==> match (#[trigger] list[i]).last_seen_ts {
            Some(ms) => shows_millis(ms, seen[i]),
            None => seen[i] == Seq::<char>::empty(),
        }
}

/// What is printed of the devices of the user. How the times are shown depends on the time zone
/// of the machine.
pub fn devices(list: &Vec<Device>, output: Output, sep: &str) -> (out: String)
    ensures
        exists|seen: Seq<Seq<char>>|
            seen_shown(list@, seen) && out@ == #[trigger] devices_printed(
                list@,
                seen,
                output,
                sep@,
                list@.len(),
            ),
{
    let mut out = String::new();
    let mut i: usize = 0;
    let ghost mut seen: Seq<Seq<char>> = Seq::empty();
    while i < list.len()
        invariant
            i <= list.len(),
            seen.len() == i,
            forall|j: int|
                0 <= j < i ==> match (#[trigger] list@[j]).last_seen_ts {
                    Some(ms) => shows_millis(ms, seen[j]),
                    None => seen[j] == Seq::<char>::empty(),
                },
            out@ == devices_printed(list@, seen, output, sep@, i as nat),
        decreases list.len() - i,
    {
        let shown = match list[i].last_seen_ts {
            Some(ms) => show_millis(ms),
            None => String::new(),
        };
        let ghost before = seen;
        proof {
            seen = seen.push(shown@);
            lemma_devices_prefix(list@, before, shown@, output, sep@, i as nat);
        }
        let line = print_device(&list[i], shown.as_str(), output, sep);
        out.append(line.as_str());
        i += 1;
    }
    assert(seen_shown(list@, seen));
    out
}

/// What is printed of the first devices does not depend on the times of later ones.
proof fn lemma_devices_prefix(
    list: Seq<Device>,
    seen: Seq<Seq<char>>,
    more: Seq<char>,
    output: Output,
    sep: Seq<char>,
    n: nat,
)
    requires
        n <= seen.len(),
    ensures
        devices_printed(list, seen.push(more), output, sep, n) == devices_printed(
            list,
            seen,
            output,
            sep,
            n,
        ),
    decreases n,
{
    if n > 0 {
        lemma_devices_prefix(list, seen, more, output, sep, (n - 1) as nat);
    }
}

/// The address under which a web browser finds a medium, given the server name and media id of
/// its URI; nothing where the URI is not valid.
pub open spec fn download_address(
    parts: Option<(Seq<char>, Seq<char>)>,
    homeserver: Seq<char>,
) -> Seq<char> {
    match parts {
        Some((server, media)) => split_on(homeserver, "://"@)[0] + "://"@ + server
            + "/_matrix/media/r0/download/"@ + server + "/"@ + media,
        None => Seq::empty(),
    }
}

/// The parts of a media URI as mathematical values.
pub open spec fn parts_view(parts: Option<(String, String)>) -> Option<(Seq<char>, Seq<char>)> {
    match parts {
        Some((server, media)) => Some((server@, media@)),
        None => None,
    }
}

/// The address of a medium, given the parts of its URI.
pub fn address_of(parts: &Option<(String, String)>, homeserver: &str) -> (out: String)
    ensures
        out@ == download_address(parts_view(*parts), homeserver@),
{
    match parts {
        Some((server, media)) => {
            let pieces = split_text(homeserver, "://");
            proof {
                reveal_strlit("://");
                crate::text::lemma_split_nonempty(Seq::empty(), homeserver@, "://"@);
            }
            assert(texts(pieces@)[0] == pieces@[0]@);
            let mut out = pieces[0].clone();
            out.append("://");
            out.append(server.as_str());
            out.append("/_matrix/media/r0/download/");
            out.append(server.as_str());
            out.append("/");
            out.append(media.as_str());
            out
        },
        None => String::new(),
    }
}

/// The address under which a web browser finds a medium, nothing where its URI is not valid.
pub fn mxc_address(mxc: &str, homeserver: &str) -> (out: String)
    requires
        mxc_short(mxc@),
    ensures
        out@ == download_address(mxc_parts_of(mxc@), homeserver@),
{
    let parts = mxc_parts(mxc);
    address_of(&parts, homeserver)
}

/// What is printed of the avatar of the user.
pub open spec fn avatar_url_printed(
    mxc: Seq<char>,
    http: Seq<char>,
    output: Output,
    sep: Seq<char>,
) -> Seq<char> {
    match output {
        Output::Text => mxc + sep + http + "\n"@,
        _ => printed(
            JsonDoc::Object(
                seq![("avatar_url"@, JsonDoc::Text(mxc))].push(("avatar_http"@, JsonDoc::Text(http))),
            ),
            output,
        ),
    }
}

/// What is printed of the avatar of the user, given its address for a web browser.
pub fn print_avatar_url(mxc: &str, http: &str, output: Output, sep: &str) -> (out: String)
    ensures
        out@ == avatar_url_printed(mxc@, http@, output, sep@),
{
    match output {
        Output::Text => {
            let mut out = mxc.to_string();
            out.append(sep);
            out.append(http);
            out.append("\n");
            out
        },
        _ => {
            let mut f = Fields::new();
            f.put_text("avatar_url", mxc);
            f.put_text("avatar_http", http);
            let doc = f.object();
            print_json(&doc, output)
        },
    }
}

/// What is printed of the avatar of the user.
pub fn get_avatar_url(mxc: &str, homeserver: &str, output: Output, sep: &str) -> (out: String)
    requires
        mxc_short(mxc@),
    ensures
        out@ == avatar_url_printed(
            mxc@,
            download_address(mxc_parts_of(mxc@), homeserver@),
            output,
            sep@,
        ),
{
    let http = mxc_address(mxc, homeserver);
    print_avatar_url(mxc, http.as_str(), output, sep)
}

/// What is printed once a new avatar was uploaded. A path that is not a text is shown as null.
pub fn print_set_avatar(path: Option<&str>, mxc: &str, output: Output) -> (out: String)
    ensures
        out@ == printed(
            JsonDoc::Object(
                seq![("filename"@, crate::json::text_or_null(crate::text::opt_str(path)))].push(("avatar_mxc_uri"@, JsonDoc::Text(mxc@))),
            ),
            output,
        ),
{
    let mut f = Fields::new();
    f.put("filename", crate::json::json_opt_text(path));
    f.put_text("avatar_mxc_uri", mxc);
    let doc = f.object();
    print_json(&doc, output)
}

/// What is printed of the display name of the user.
pub fn get_display_name(user_id: &str, name: &str, output: Output, sep: &str) -> (out: String)
    ensures
        out@ == (match output {
            Output::Text => user_id@ + sep@ + name@ + "\n"@,
            _ => printed(
                JsonDoc::Object(
                    seq![("displayname"@, JsonDoc::Text(name@))].push(("user"@, JsonDoc::Text(user_id@))),
                ),
                output,
            ),
        }),
{
    match output {
        Output::Text => {
            let mut out = user_id.to_string();
            out.append(sep);
            out.append(name);
            out.append("\n");
            out
        },
        _ => {
            let mut f = Fields::new();
            f.put_text("displayname", name);
            f.put_text("user", user_id);
            let doc = f.object();
            print_json(&doc, output)
        },
    }
}

/// What is printed of the master key of the user.
pub fn print_masterkey(masterkey: &str, output: Output) -> (out: String)
    ensures
        out@ == printed(JsonDoc::Object(seq![("masterkey"@, JsonDoc::Text(masterkey@))]), output),
{
    let mut f = Fields::new();
    f.put_text("masterkey", masterkey);
    let doc = f.object();
    print_json(&doc, output)
}

/// The first characters of a secret, and asterisks.
pub fn obfuscate(text: &str, count: usize) -> (out: String)
    ensures
        out@ == (if count <= text@.len() {
            text@.take(count as int)
        } else {
            text@
        }) + "****"@,
{
    let cs = crate::text::chars_of(text);
    let n: usize = if count <= cs.len() {
        count
    } else {
        cs.len()
    };
    let mut out = crate::text::string_of(&cs, 0, n);
    assert(out@ =~= text@.take(n as int));
    assert(text@.take(text@.len() as int) =~= text@);
    out.append("****");
    out
}

/// The text, or none where it is empty.
pub fn to_opt(s: &str) -> (r: Option<&str>)
    ensures
        match r {
            Some(t) => s@.len() > 0 && t@ == s@,
            None => s@.len() == 0,
        },
{
    if s.is_empty() {
        None
    } else {
        Some(s)
    }
}

/// The text in the field of that name, or an empty one.
pub open spec fn text_field(profile: JsonDoc, key: Seq<char>) -> Seq<char> {
    match text_member(profile, key) {
        Some(t) => t,
        None => Seq::empty(),
    }
}

/// The fields of a profile other than the display name and the avatar.
pub open spec fn other_info(items: Seq<(Seq<char>, JsonDoc)>) -> Seq<(Seq<char>, JsonDoc)>
    decreases items.len(),
{
    if items.len() == 0 {
        items
    } else if items.last().0 == "displayname"@ || items.last().0 == "avatar_url"@ {
        other_info(items.drop_last())
    } else {
        other_info(items.drop_last()).push(items.last())
    }
}

/// The text, or the word None where it is empty.
pub open spec fn or_none(t: Seq<char>) -> Seq<char> {
    if t.len() == 0 {
        "None"@
    } else {
        t
    }
}

/// The text, or the word None where it is empty.
pub fn text_or_none(t: &str) -> (out: &str)
    ensures
        out@ == or_none(t@),
{
    if t.is_empty() {
        "None"
    } else {
        t
    }
}

/// The address of the avatar in a profile.
pub open spec fn profile_avatar_http(avatar: Seq<char>, homeserver: Seq<char>) -> Seq<char> {
    if avatar.len() == 0 {
        Seq::empty()
    } else {
        download_address(mxc_parts_of(avatar), homeserver)
    }
}

/// What is printed of a profile, given the address of the avatar.
pub open spec fn profile_printed(
    name: Seq<char>,
    avatar: Seq<char>,
    http: Seq<char>,
    others: Seq<(Seq<char>, JsonDoc)>,
    output: Output,
    sep: Seq<char>,
) -> Seq<char> {
    match output {
        Output::Text => or_none(name) + sep + or_none(avatar) + sep + or_none(http) + sep + (
        if others.len() == 0 {
            Seq::empty()
        } else {
            compact_text(JsonDoc::Object(others))
        }) + "\n"@,
        _ => printed(
            JsonDoc::Object(
                seq![("displayname"@, nonempty_or_null(name))].push(("avatar_url"@, nonempty_or_null(avatar))).push(("avatar_http"@, nonempty_or_null(http))).push(("other_info"@, JsonDoc::Object(others))),
            ),
            output,
        ),
    }
}

/// What is printed of a profile, given the address of the avatar.
pub fn print_profile(
    name: &str,
    avatar: &str,
    http: &str,
    others: Json,
    output: Output,
    sep: &str,
) -> (out: String)
    requires
        others@ is Object,
    ensures
        out@ == profile_printed(name@, avatar@, http@, others@->Object_0, output, sep@),
{
    match output {
        Output::Text => {
            let mut out = text_or_none(name).to_string();
            out.append(sep);
            out.append(text_or_none(avatar));
            out.append(sep);
            out.append(text_or_none(http));
            out.append(sep);
            if let Json::Object(items) = &others {
                assert(others@->Object_0 =~= fields(items@));
                if items.len() > 0 {
                    let t = write_compact(&others);
                    out.append(t.as_str());
                }
            }
            out.append("\n");
            out
        },
        _ => {
            let mut f = Fields::new();
            f.put("displayname", json_nonempty(name));
            f.put("avatar_url", json_nonempty(avatar));
            f.put("avatar_http", json_nonempty(http));
            f.put("other_info", others);
            let doc = f.object();
            print_json(&doc, output)
        },
    }
}

/// The profile of the user without the display name and the avatar.
fn take_other_info(profile: Json) -> (others: Json)
    requires
        profile@ is Object,
    ensures
        others@ == JsonDoc::Object(other_info(profile@->Object_0)),
{
    let ghost all = profile@->Object_0;
    let mut items: Vec<(String, Json)> = match profile {
        Json::Object(items) => items,
        _ => Vec::new(),
    };
    assert(all =~= fields(items@));
    let mut kept: Vec<(String, Json)> = Vec::new();
    let ghost full = items@;
    assert(full.take(full.len() as int) =~= full);
    assert(fields(kept@) =~= Seq::empty());
    let ghost mut back: Seq<(Seq<char>, JsonDoc)> = Seq::empty();
    while items.len() > 0
        invariant
            items.len() <= full.len(),
            items@ == full.take(items.len() as int),
            back.reverse() == fields(kept@),
            other_info(fields(full)) == other_info(fields(items@)) + back,
        decreases items.len(),
    {
        let ghost n = items.len() as int;
        let ghost head = fields(items@);
        assert(head.drop_last() =~= fields(full.take(n - 1)));
        let e = items.pop();
        if let Some(entry) = e {
            assert(head.last() == (entry.0@, entry.1@));
            assert(items@ =~= full.take(n - 1));
            let drop = same_text(entry.0.as_str(), "displayname") || same_text(
                entry.0.as_str(),
                "avatar_url",
            );
            if !drop {
                let ghost v = (entry.0@, entry.1@);
                let ghost kb = fields(kept@);
                kept.push(entry);
                assert(fields(kept@) =~= kb.push(v));
                proof {
                    let b2 = seq![v] + back;
                    assert(b2.reverse() =~= back.reverse().push(v));
                    assert(other_info(fields(items@)).push(v) + back =~= other_info(fields(items@)) + b2);
                    back = b2;
                }
            }
        }
    }
    assert(fields(items@) =~= Seq::empty());
    assert(other_info(fields(full)) =~= back);
    let mut out: Vec<(String, Json)> = Vec::new();
    let ghost kept_all = fields(kept@);
    assert(fields(out@) =~= Seq::empty());
    assert(kept_all.take(kept_all.len() as int) =~= kept_all);
    while kept.len() > 0
        invariant
            kept.len() <= kept_all.len(),
            fields(kept@) == kept_all.take(kept.len() as int),
            fields(out@) == kept_all.skip(kept.len() as int).reverse(),
        decreases kept.len(),
    {
        let ghost n = kept.len() as int;
        let ghost kf = fields(kept@);
        let e = kept.pop();
        if let Some(entry) = e {
            assert(kf.last() == (entry.0@, entry.1@));
            assert(fields(kept@) =~= kf.drop_last());
            assert(fields(kept@) =~= kept_all.take(n - 1));
            let ghost ob = fields(out@);
            let ghost v = (entry.0@, entry.1@);
            out.push(entry);
            assert(fields(out@) =~= ob.push(v));
            assert(kept_all.skip(n - 1) =~= seq![v] + kept_all.skip(n));
            assert(kept_all.skip(n - 1).reverse() =~= kept_all.skip(n).reverse().push(v));
        }
    }
    assert(kept_all.skip(0) =~= kept_all);
    assert(back =~= back.reverse().reverse());
    let others = Json::Object(out);
    assert(others@->Object_0 =~= fields(out@));
    others
}

/// What is printed of the profile of the user.
pub fn get_profile(profile: Json, homeserver: &str, output: Output, sep: &str) -> (out: String)
    requires
        profile@ is Object,
        mxc_short(text_field(profile@, "avatar_url"@)),
    ensures
        out@ == profile_printed(
            text_field(profile@, "displayname"@),
            text_field(profile@, "avatar_url"@),
            profile_avatar_http(text_field(profile@, "avatar_url"@), homeserver@),
            other_info(profile@->Object_0),
            output,
            sep@,
        ),
{
    let name = match profile.get_text("displayname") {
        Some(t) => t.to_string(),
        None => String::new(),
    };
    let avatar = match profile.get_text("avatar_url") {
        Some(t) => t.to_string(),
        None => String::new(),
    };
    let http = if avatar.as_str().is_empty() {
        String::new()
    } else {
        mxc_address(avatar.as_str(), homeserver)
    };
    let others = take_other_info(profile);
    print_profile(name.as_str(), avatar.as_str(), http.as_str(), others, output, sep)
}

/// A time is shown by its local notation where there is one, and as the number where there is
/// none; the second and the rest of it that are written add up to the time, and every time that
/// has a date is written as one.
pub proof fn law_time_is_shown(ms: u64, local: Seq<char>, offset: int)
    ensures
        millis_shown(ms, Some(local)) == local,
        millis_shown(ms, None) == decimal(ms as nat),
        ms / 1000 > LAST_SECOND ==> millis_text(ms, offset) == decimal(ms as nat),
        ms / 1000 <= LAST_SECOND ==> exists|secs: i64, nanos: u32|
            {
                &&& millis_text(ms, offset) == #[trigger] time_text(secs, nanos, offset, TIME_FORMAT@)
                &&& secs * 1000 + nanos / 1_000_000 == ms
                &&& nanos % 1_000_000 == 0
                &&& nanos < 1_000_000_000
            },
{
    if ms / 1000 <= LAST_SECOND {
        let secs = (ms / 1000) as i64;
        let nanos = ((ms % 1000) * 1_000_000) as u32;
        assert(millis_text(ms, offset) == time_text(secs, nanos, offset, TIME_FORMAT@));
    }
}

/// Of a device its id, its name, the address and the time at which it was last seen are shown:
/// in plain text as the columns of a line, in JSON as the fields of an object. What is not known
/// is empty.
pub proof fn law_device_is_shown(
    d: Device,
    name: Seq<char>,
    ip: Seq<char>,
    seen: Seq<char>,
    output: Output,
    sep: Seq<char>,
)
    requires
        match d.display_name {
            Some(n) => name == n@,
            None => name.len() == 0,
        },
        match d.last_seen_ip {
            Some(a) => ip == a@,
            None => ip.len() == 0,
        },
    ensures
        device_printed(d, seen, Output::Text, sep) == joined(
            seq![d.device_id@].push(name).push(ip).push(seen),
            sep,
        ) + "\n"@,
        output != Output::Text ==> exists|doc: JsonDoc|
            {
                &&& device_printed(d, seen, output, sep) == #[trigger] printed(doc, output)
                &&& has_fields(doc, 4)
                &&& has_field(doc, "device_id"@, JsonDoc::Text(d.device_id@))
                &&& has_field(doc, "display_name"@, JsonDoc::Text(name))
                &&& has_field(doc, "last_seen_ip"@, JsonDoc::Text(ip))
                &&& has_field(doc, "last_seen_ts"@, JsonDoc::Text(seen))
            },
{
    assert(or_empty(d.display_name) =~= name);
    assert(or_empty(d.last_seen_ip) =~= ip);
    lemma_joined_four(d.device_id@, name, ip, seen, sep);
    let items = seq![("device_id"@, JsonDoc::Text(d.device_id@))].push(
        ("display_name"@, JsonDoc::Text(name)),
    ).push(("last_seen_ip"@, JsonDoc::Text(ip))).push(("last_seen_ts"@, JsonDoc::Text(seen)));
    lemma_has_field(items, 0);
    lemma_has_field(items, 1);
    lemma_has_field(items, 2);
    lemma_has_field(items, 3);
    if output != Output::Text {
        assert(device_printed(d, seen, output, sep) == printed(JsonDoc::Object(items), output));
    }
}

/// All devices are shown, one after the other and in their order.
pub proof fn law_every_device_is_shown(
    a: Seq<Device>,
    b: Seq<Device>,
    d: Device,
    seen_a: Seq<Seq<char>>,
    seen_b: Seq<Seq<char>>,
    seen: Seq<char>,
    output: Output,
    sep: Seq<char>,
)
    requires
        seen_a.len() == a.len(),
        seen_b.len() == b.len(),
    ensures
        devices_printed(a + b, seen_a + seen_b, output, sep, (a + b).len()) == devices_printed(
            a,
            seen_a,
            output,
            sep,
            a.len(),
        ) + devices_printed(b, seen_b, output, sep, b.len()),
        devices_printed(seq![d], seq![seen], output, sep, 1) == device_printed(
            d,
            seen,
            output,
            sep,
        ),
{
    lemma_devices_in_pieces(a, b, seen_a, seen_b, output, sep, (a + b).len());
    assert(devices_printed(seq![d], seq![seen], output, sep, 0) =~= Seq::empty());
    assert(devices_printed(seq![d], seq![seen], output, sep, 1) =~= device_printed(
        d,
        seen,
        output,
        sep,
    ));
}

/// The same for the first `n` devices.
proof fn lemma_devices_in_pieces(
    a: Seq<Device>,
    b: Seq<Device>,
    seen_a: Seq<Seq<char>>,
    seen_b: Seq<Seq<char>>,
    output: Output,
    sep: Seq<char>,
    n: nat,
)
    requires
        seen_a.len() == a.len(),
        seen_b.len() == b.len(),
        n <= a.len() + b.len(),
    ensures
        n <= a.len() ==> devices_printed(a + b, seen_a + seen_b, output, sep, n) == devices_printed(
            a,
            seen_a,
            output,
            sep,
            n,
        ),
        n >= a.len() ==> devices_printed(a + b, seen_a + seen_b, output, sep, n) == devices_printed(
            a,
            seen_a,
            output,
            sep,
            a.len(),
        ) + devices_printed(b, seen_b, output, sep, (n - a.len()) as nat),
    decreases n,
{
    let all = a + b;
    let seen = seen_a + seen_b;
    let first = devices_printed(a, seen_a, output, sep, a.len());
    if n > 0 {
        lemma_devices_in_pieces(a, b, seen_a, seen_b, output, sep, (n - 1) as nat);
        if n <= a.len() {
            assert(all[n - 1] == a[n - 1]);
            assert(seen[n - 1] == seen_a[n - 1]);
        } else {
            let m = (n - a.len()) as nat;
            assert(all[n - 1] == b[m - 1]);
            assert(seen[n - 1] == seen_b[m - 1]);
            assert(devices_printed(all, seen, output, sep, n) =~= first + devices_printed(
                b,
                seen_b,
                output,
                sep,
                m,
            ));
        }
    }
    if n == a.len() {
        assert(devices_printed(b, seen_b, output, sep, 0) =~= Seq::empty());
        assert(first + Seq::<char>::empty() =~= first);
    }
}

/// The address of a medium has the protocol of the homeserver and, behind it, the server of the
/// medium as its host; its path names the server once more and then the medium. A URI that is not
/// valid has none.
pub proof fn law_address_of_a_medium(
    protocol: Seq<char>,
    rest: Seq<char>,
    server: Seq<char>,
    media: Seq<char>,
)
    requires
        !protocol.contains(':'),
    ensures
        download_address(Some((server, media)), protocol + "://"@ + rest) == protocol + "://"@
            + joined(
            seq![server].push("_matrix/media/r0/download"@).push(server).push(media),
            "/"@,
        ),
        download_address(None, protocol + "://"@ + rest) == Seq::<char>::empty(),
{
    reveal_strlit("://");
    reveal_strlit("/");
    reveal_strlit("_matrix/media/r0/download");
    reveal_strlit("/_matrix/media/r0/download/");
    law_split_at_the_first_separator(protocol, "://"@, rest);
    let parts = split_on(protocol + "://"@ + rest, "://"@);
    assert(parts[0] == protocol);
    lemma_joined_four(server, "_matrix/media/r0/download"@, server, media, "/"@);
    assert("/_matrix/media/r0/download/"@ =~= "/"@ + "_matrix/media/r0/download"@ + "/"@);
    assert(download_address(Some((server, media)), protocol + "://"@ + rest) =~= protocol + "://"@
        + (server + "/"@ + "_matrix/media/r0/download"@ + "/"@ + server + "/"@ + media));
}

/// The avatar is shown by its URI and its address, in plain text as columns, in JSON as fields.
pub proof fn law_avatar_is_shown(
    mxc: Seq<char>,
    http: Seq<char>,
    homeserver: Seq<char>,
    output: Output,
    sep: Seq<char>,
)
    ensures
        avatar_url_printed(mxc, http, Output::Text, sep) == joined(seq![mxc].push(http), sep)
            + "\n"@,
        output != Output::Text ==> exists|doc: JsonDoc|
            {
                &&& avatar_url_printed(mxc, http, output, sep) == #[trigger] printed(doc, output)
                &&& has_fields(doc, 2)
                &&& has_field(doc, "avatar_url"@, JsonDoc::Text(mxc))
                &&& has_field(doc, "avatar_http"@, JsonDoc::Text(http))
            },
        mxc.len() > 0 ==> profile_avatar_http(mxc, homeserver) == download_address(
            mxc_parts_of(mxc),
            homeserver,
        ),
        mxc.len() == 0 ==> profile_avatar_http(mxc, homeserver).len() == 0,
{
    lemma_joined_two(mxc, http, sep);
    let items = seq![("avatar_url"@, JsonDoc::Text(mxc))].push(("avatar_http"@, JsonDoc::Text(http)));
    lemma_has_field(items, 0);
    lemma_has_field(items, 1);
    if output != Output::Text {
        assert(avatar_url_printed(mxc, http, output, sep) == printed(JsonDoc::Object(items), output));
    }
}

/// The fields of a profile that are neither the display name nor the avatar are kept, each of them
/// and in their order.
pub proof fn law_other_fields_are_kept(
    a: Seq<(Seq<char>, JsonDoc)>,
    b: Seq<(Seq<char>, JsonDoc)>,
    key: Seq<char>,
    value: JsonDoc,
)
    ensures
        other_info(a + b) == other_info(a) + other_info(b),
        key == "displayname"@ || key == "avatar_url"@ ==> other_info(seq![(key, value)]).len() == 0,
        key != "displayname"@ && key != "avatar_url"@ ==> other_info(seq![(key, value)]) == seq![
            (key, value),
        ],
    decreases b.len(),
{
    let one = seq![(key, value)];
    let none = Seq::<(Seq<char>, JsonDoc)>::empty();
    assert(one.drop_last() =~= none);
    assert(other_info(none) =~= none);
    assert(none.push((key, value)) =~= one);
    if b.len() == 0 {
        assert(a + b =~= a);
        assert(other_info(a) + other_info(b) =~= other_info(a));
    } else {
        law_other_fields_are_kept(a, b.drop_last(), key, value);
        assert((a + b).drop_last() =~= a + b.drop_last());
        assert((a + b).last() == b.last());
        assert(other_info(a + b) =~= other_info(a) + other_info(b));
    }
}

/// A text in a profile is what the field of that name holds, and empty where there is no such
/// field or it holds no text.
pub proof fn law_profile_text(profile: JsonDoc, key: Seq<char>, t: Seq<char>)
    ensures
        member(profile, key) == Some(JsonDoc::Text(t)) ==> text_field(profile, key) == t,
        !(member(profile, key) matches Some(JsonDoc::Text(_))) ==> text_field(profile, key).len()
            == 0,
{
}

/// Whether a column shows a text, or the word for none where the text is empty.
pub open spec fn shows_or_none(column: Seq<char>, t: Seq<char>) -> bool {
    &&& t.len() > 0 ==> column == t
    &&& t.len() == 0 ==> column == "None"@
}

/// Of a profile the name, the avatar and its address are shown, or the word for none in their
/// place, and the other fields where there are any.
pub proof fn law_profile_columns(
    name: Seq<char>,
    avatar: Seq<char>,
    http: Seq<char>,
    others: Seq<(Seq<char>, JsonDoc)>,
    columns: (Seq<char>, Seq<char>, Seq<char>, Seq<char>),
    sep: Seq<char>,
)
    requires
        shows_or_none(columns.0, name),
        shows_or_none(columns.1, avatar),
        shows_or_none(columns.2, http),
        others.len() > 0 ==> columns.3 == compact_text(JsonDoc::Object(others)),
        others.len() == 0 ==> columns.3.len() == 0,
    ensures
        profile_printed(name, avatar, http, others, Output::Text, sep) == joined(
            seq![columns.0].push(columns.1).push(columns.2).push(columns.3),
            sep,
        ) + "\n"@,
{
    if others.len() == 0 {
        assert(columns.3 =~= Seq::empty());
    }
    lemma_joined_four(columns.0, columns.1, columns.2, columns.3, sep);
}

/// In JSON the name, the avatar and its address are fields, null where they are empty, and the
/// other fields of the profile stand in an object of their own.
pub proof fn law_profile_fields(
    name: Seq<char>,
    avatar: Seq<char>,
    http: Seq<char>,
    others: Seq<(Seq<char>, JsonDoc)>,
    output: Output,
    sep: Seq<char>,
)
    requires
        output != Output::Text,
    ensures
        exists|doc: JsonDoc|
            {
                &&& profile_printed(name, avatar, http, others, output, sep) == #[trigger] printed(
                    doc,
                    output,
                )
                &&& has_fields(doc, 4)
                &&& name.len() > 0 ==> has_field(doc, "displayname"@, JsonDoc::Text(name))
                &&& name.len() == 0 ==> has_field(doc, "displayname"@, JsonDoc::Null)
                &&& avatar.len() > 0 ==> has_field(doc, "avatar_url"@, JsonDoc::Text(avatar))
                &&& avatar.len() == 0 ==> has_field(doc, "avatar_url"@, JsonDoc::Null)
                &&& http.len() > 0 ==> has_field(doc, "avatar_http"@, JsonDoc::Text(http))
                &&& http.len() == 0 ==> has_field(doc, "avatar_http"@, JsonDoc::Null)
                &&& has_field(doc, "other_info"@, JsonDoc::Object(others))
            },
{
    let items = seq![("displayname"@, nonempty_or_null(name))].push(
        ("avatar_url"@, nonempty_or_null(avatar)),
    ).push(("avatar_http"@, nonempty_or_null(http))).push(("other_info"@, JsonDoc::Object(others)));
    lemma_has_field(items, 0);
    lemma_has_field(items, 1);
    lemma_has_field(items, 2);
    lemma_has_field(items, 3);
    assert(profile_printed(name, avatar, http, others, output, sep) == printed(
        JsonDoc::Object(items),
        output,
    ));
}

/// Up to the last day of the year 9999 a time is shown as a date and time: four digits, two and
/// two between hyphens, a blank, and three times two digits between colons.
pub proof fn law_dates_have_their_shape(ms: u64, shown: Seq<char>)
    requires
        shows_millis(ms, shown),
        ms < 253_402_214_400_000,
    ensures
        shown.len() == 19,
        shown[4] == '-' && shown[7] == '-' && shown[10] == ' ' && shown[13] == ':' && shown[16] == ':',
        '0' <= shown[0] <= '9' && '0' <= shown[3] <= '9' && '0' <= shown[5] <= '9' && '0' <= shown[18]
            <= '9',
{
}

/// The display name is printed with its user: in plain text as the columns of a line, in JSON as
/// the fields of an object.
pub proof fn law_display_name_is_printed(
    user_id: &str,
    name: &str,
    output: Output,
    sep: &str,
    line: String,
    json: String,
)
    requires
        call_ensures(get_display_name, (user_id, name, Output::Text, sep), line),
        call_ensures(get_display_name, (user_id, name, output, sep), json),
        output != Output::Text,
    ensures
        line@ == joined(seq![user_id@].push(name@), sep@) + "\n"@,
        exists|doc: JsonDoc|
            {
                &&& json@ == #[trigger] printed(doc, output)
                &&& has_fields(doc, 2)
                &&& has_field(doc, "displayname"@, JsonDoc::Text(name@))
                &&& has_field(doc, "user"@, JsonDoc::Text(user_id@))
            },
{
    lemma_joined_two(user_id@, name@, sep@);
    let items = seq![("displayname"@, JsonDoc::Text(name@))].push(
        ("user"@, JsonDoc::Text(user_id@)),
    );
    lemma_has_field(items, 0);
    lemma_has_field(items, 1);
    assert(json@ == printed(JsonDoc::Object(items), output));
}

/// The avatar that was set is printed with the name of its file and its URI, and the master key as
/// it is.
pub proof fn law_avatar_and_key_are_printed(
    path: Option<&str>,
    mxc: &str,
    key: &str,
    output: Output,
    set: String,
    shown: String,
)
    requires
        call_ensures(print_set_avatar, (path, mxc, output), set),
        call_ensures(print_masterkey, (key, output), shown),
    ensures
        exists|doc: JsonDoc|
            {
                &&& set@ == #[trigger] printed(doc, output)
                &&& has_fields(doc, 2)
                &&& path matches Some(p) ==> has_field(doc, "filename"@, JsonDoc::Text(p@))
                &&& path is None ==> has_field(doc, "filename"@, JsonDoc::Null)
                &&& has_field(doc, "avatar_mxc_uri"@, JsonDoc::Text(mxc@))
            },
        exists|doc: JsonDoc|
            {
                &&& shown@ == #[trigger] printed(doc, output)
                &&& has_fields(doc, 1)
                &&& has_field(doc, "masterkey"@, JsonDoc::Text(key@))
            },
{
    let items = seq![("filename"@, crate::json::text_or_null(crate::text::opt_str(path)))].push(
        ("avatar_mxc_uri"@, JsonDoc::Text(mxc@)),
    );
    lemma_has_field(items, 0);
    lemma_has_field(items, 1);
    assert(set@ == printed(JsonDoc::Object(items), output));
    let one = seq![("masterkey"@, JsonDoc::Text(key@))];
    lemma_has_field(one, 0);
    assert(shown@ == printed(JsonDoc::Object(one), output));
}

/// Of an obfuscated text no more than the first characters are told, as many as are allowed, and
/// texts that begin alike cannot be told apart.
pub proof fn law_obfuscated_text_tells_its_beginning(
    text: &str,
    other: &str,
    count: usize,
    a: String,
    b: String,
)
    requires
        call_ensures(obfuscate, (text, count), a),
        call_ensures(obfuscate, (other, count), b),
    ensures
        a@.len() <= count + 4,
        count <= text@.len() ==> a@.take(count as int) == text@.take(count as int) && a@.skip(
            count as int,
        ) == "****"@,
        count > text@.len() ==> a@ == text@ + "****"@,
        count <= text@.len() && count <= other@.len() && text@.take(count as int) == other@.take(
            count as int,
        ) ==> a@ == b@,
{
    reveal_strlit("****");
    if count <= text@.len() {
        assert(a@.take(count as int) =~= text@.take(count as int));
        assert(a@.skip(count as int) =~= "****"@);
    }
}

/// The seconds of a time and the rest of it add up to the time.
pub proof fn law_time_is_split(ms: u64, parts: (i64, u32))
    requires
        call_ensures(split_millis, (ms,), parts),
    ensures
        parts.0 * 1000 + parts.1 / 1_000_000 == ms,
        parts.1 % 1_000_000 == 0,
        parts.1 < 1_000_000_000,
{
}

} // verus!
