//! What is printed about a room.

use vstd::prelude::*;

use crate::account::{or_none, text_or_none};
use crate::ids::{is_room_id, room_id_ok};
use crate::json::{
    array_of, array_of_texts, compact_text, docs, has_field, has_fields, json_opt_string,
    lemma_has_field, lemma_has_first_fields, nonempty_or_null, print_json, printed, text_array,
    text_or_null, Fields, Json, JsonDoc,
};
use crate::text::{
    all_ascii, ascii_lower, chars_of, joined, law_absent_text_is_not_replaced, lemma_joined_five,
    lemma_occurs_contains, lower_text, occurs, occurs_at, opt_text, replace_text, replaced, texts,
    to_lower,
};
use crate::types::{Error, Output};

verus! {

/// A member of a room.
#[derive(Debug)]
pub struct Member {
    pub user_id: String,
    pub display_name: Option<String>,
    pub avatar_url: Option<String>,
    /// The power level; none where it has no bound.
    pub power_level: Option<i64>,
}

/// The power levels that a room asks for.
#[derive(Debug)]
pub struct PowerLevels {
    pub ban: i64,
    pub invite: i64,
    pub kick: i64,
    pub redact: i64,
    pub state_default: i64,
    pub events_default: i64,
    pub users_default: i64,
    pub notifications_room: i64,
    /// The levels of single users.
    pub users: Vec<(String, i64)>,
    /// The levels for single types of events.
    pub events: Vec<(String, i64)>,
}

/// What is known about a room.
#[derive(Debug)]
pub struct RoomInfo {
    pub room_id: String,
    pub own_user_id: String,
    pub name: Option<String>,
    pub canonical_alias: Option<String>,
    /// The name that is made up for a room that has neither name nor alias.
    pub computed_name: String,
    pub topic: Option<String>,
    pub avatar_url: Option<String>,
    pub encrypted: bool,
    /// The rule for joining the room.
    pub join_rule: Option<String>,
    /// The versions in the events that created the room.
    pub versions: Vec<String>,
    /// The values in the events on guest access.
    pub guest_access: Vec<String>,
    /// The values in the events on the visibility of the history.
    pub history_visibility: Vec<String>,
    pub members: Vec<Member>,
    /// The power levels in the events that set them.
    pub power_levels: Vec<PowerLevels>,
    pub unread_notifications: u64,
    pub unread_highlights: u64,
}

/// The room id that a text on the command line gives, with the escape removed, where it is valid.
pub open spec fn room_id_in(text: Seq<char>) -> Option<Seq<char>> {
    let id = replaced(text, "\\!"@, "!"@);
    if room_id_ok(id) {
        Some(id)
    } else {
        None
    }
}

/// The room id that a text on the command line gives, with the escape removed, where it is valid.
pub fn parse_room_id(text: &str) -> (r: Option<String>)
    ensures
        opt_text(r) == room_id_in(text@),
{
    let id = replace_text(text, "\\!", "!");
    if is_room_id(id.as_str()) {
        Some(id)
    } else {
        None
    }
}

/// The name under which a room is shown: its name, else its alias, else the made-up name.
pub open spec fn display_name_of(info: RoomInfo) -> Seq<char> {
    if info.name is Some && info.name->0@.len() > 0 {
        info.name->0@
    } else {
        match info.canonical_alias {
            Some(alias) => alias@,
            None => info.computed_name@,
        }
    }
}

/// The name under which a room is shown.
pub fn display_name(info: &RoomInfo) -> (out: String)
    ensures
        out@ == display_name_of(*info),
{
    if let Some(n) = &info.name {
        if !n.as_str().is_empty() {
            return n.clone();
        }
    }
    match &info.canonical_alias {
        Some(alias) => alias.clone(),
        None => info.computed_name.clone(),
    }
}

/// The last value of a list, or another one where it is empty.
pub open spec fn last_or(list: Seq<String>, other: Seq<char>) -> Seq<char> {
    if list.len() == 0 {
        other
    } else {
        list.last()@
    }
}

/// The last value of a list, or another one where it is empty.
fn last_text(list: &Vec<String>, other: &str) -> (out: String)
    ensures
        out@ == last_or(list@, other@),
{
    if list.len() == 0 {
        other.to_string()
    } else {
        list[list.len() - 1].clone()
    }
}

/// Whether `a` comes before `b` in the order of the characters' code points.
pub open spec fn text_less(a: Seq<char>, b: Seq<char>) -> bool
    decreases a.len(),
{
    if b.len() == 0 {
        false
    } else if a.len() == 0 {
        true
    } else if a[0] != b[0] {
        (a[0] as u32) < (b[0] as u32)
    } else {
        text_less(a.skip(1), b.skip(1))
    }
}

/// Whether `a` comes before `b`.
pub fn comes_before(a: &str, b: &str) -> (r: bool)
    ensures
        r == text_less(a@, b@),
{
    let x = chars_of(a);
    let y = chars_of(b);
    let mut i: usize = 0;
    assert(x@.skip(0) =~= x@);
    assert(y@.skip(0) =~= y@);
    while i < x.len() && i < y.len() && x[i] == y[i]
        invariant
            i <= x.len(),
            i <= y.len(),
            text_less(x@.skip(i as int), y@.skip(i as int)) == text_less(x@, y@),
        decreases x.len() - i,
    {
        assert(x@.skip(i as int).skip(1) =~= x@.skip(i + 1));
        assert(y@.skip(i as int).skip(1) =~= y@.skip(i + 1));
        i += 1;
    }
    if i >= y.len() {
        false
    } else if i >= x.len() {
        true
    } else {
        (x[i] as u32) < (y[i] as u32)
    }
}

/// The names of members, in order, each with the users of that name.
pub type NameTable = Seq<(Seq<char>, Seq<Seq<char>>)>;

/// The table with one more user of a name.
pub open spec fn name_added(table: NameTable, name: Seq<char>, user: Seq<char>) -> NameTable
    decreases table.len(),
{
    if table.len() == 0 || text_less(name, table[0].0) {
        seq![(name, seq![user])] + table
    } else if table[0].0 == name {
        seq![(name, table[0].1.push(user))] + table.skip(1)
    } else {
        seq![table[0]] + name_added(table.skip(1), name, user)
    }
}

/// The names of the first `n` members.
pub open spec fn names_of(members: Seq<Member>, n: nat) -> NameTable
    decreases n,
{
    if n == 0 {
        Seq::empty()
    } else {
        let m = members[n - 1];
        match m.display_name {
            Some(name) => name_added(names_of(members, (n - 1) as nat), name@, m.user_id@),
            None => names_of(members, (n - 1) as nat),
        }
    }
}

/// The contents of a list of names with their users.
pub open spec fn table_view(list: Seq<(String, Vec<String>)>) -> NameTable {
    list.map_values(|e: (String, Vec<String>)| (e.0@, texts(e.1@)))
}

/// Adds a user to a table of names.
fn add_name(table: &mut Vec<(String, Vec<String>)>, name: &str, user: &str)
    ensures
        table_view(final(table)@) == name_added(table_view(old(table)@), name@, user@),
{
    let ghost all = table_view(table@);
    let mut i: usize = 0;
    assert(all.skip(0) =~= all);
    assert(all.take(0) + name_added(all, name@, user@) =~= name_added(all, name@, user@));
    while i < table.len() && !comes_before(name, table[i].0.as_str())
        invariant
            i <= table.len(),
            all == table_view(table@),
            table_view(old(table)@) == all,
            *table == *old(table),
            all.take(i as int) + name_added(all.skip(i as int), name@, user@) == name_added(
                all,
                name@,
                user@,
            ),
        decreases table.len() - i,
    {
        let ghost rest = all.skip(i as int);
        assert(rest[0] == (table@[i as int].0@, texts(table@[i as int].1@)));
        if crate::text::same_text(table[i].0.as_str(), name) {
            let ghost ids = texts(table@[i as int].1@);
            let mut users = crate::text::copy_texts(&table[i].1);
            users.push(user.to_string());
            assert(texts(users@) =~= ids.push(user@));
            let entry = (name.to_string(), users);
            table.set(i, entry);
            assert(table_view(table@) =~= all.take(i as int) + (seq![(name@, ids.push(user@))]
                + rest.skip(1)));
            return;
        }
        assert(rest.skip(1) =~= all.skip(i + 1));
        assert(all.take(i as int) + (seq![rest[0]] + name_added(all.skip(i + 1), name@, user@))
            =~= all.take(i + 1) + name_added(all.skip(i + 1), name@, user@));
        i += 1;
    }
    assert(i < table.len() ==> all.skip(i as int)[0].0 == table@[i as int].0@);
    let mut users: Vec<String> = Vec::new();
    users.push(user.to_string());
    assert(texts(users@) =~= seq![user@]);
    let entry = (name.to_string(), users);
    table.insert(i, entry);
    assert(table_view(table@) =~= all.take(i as int) + (seq![(name@, seq![user@])] + all.skip(
        i as int,
    )));
}

/// The names of members, each with the users of that name.
fn collect_names(members: &Vec<Member>) -> (table: Vec<(String, Vec<String>)>)
    ensures
        table_view(table@) == names_of(members@, members@.len()),
{
    let mut table: Vec<(String, Vec<String>)> = Vec::new();
    let mut i: usize = 0;
    assert(table_view(table@) =~= Seq::empty());
    while i < members.len()
        invariant
            i <= members.len(),
            table_view(table@) == names_of(members@, i as nat),
        decreases members.len() - i,
    {
        if let Some(name) = &members[i].display_name {
            add_name(&mut table, name.as_str(), members[i].user_id.as_str());
        }
        i += 1;
    }
    table
}

/// Whether the names of a table come in order, each once.
pub open spec fn table_sorted(table: NameTable) -> bool {
    forall|i: int, j: int|
        0 <= i < j < table.len() ==> text_less((#[trigger] table[i]).0, (#[trigger] table[j]).0)
}

/// Different characters have different code points.
proof fn lemma_code_points(c: char, d: char)
    ensures
        c != d ==> (c as u32) != (d as u32),
{
}

/// The order of texts is irreflexive and transitive, and of two different texts one comes first.
pub proof fn lemma_text_order(a: Seq<char>, b: Seq<char>, c: Seq<char>)
    ensures
        !text_less(a, a),
        text_less(a, b) && text_less(b, c) ==> text_less(a, c),
        a != b ==> text_less(a, b) || text_less(b, a),
    decreases a.len(),
{
    if a.len() > 0 {
        lemma_code_points(a[0], b[0]);
        if b.len() > 0 && c.len() > 0 {
            lemma_text_order(a.skip(1), b.skip(1), c.skip(1));
        } else {
            lemma_text_order(a.skip(1), b.skip(1), c);
        }
        if b.len() > 0 && a[0] == b[0] && a.skip(1) == b.skip(1) {
            assert(a =~= seq![a[0]] + a.skip(1));
            assert(b =~= seq![b[0]] + b.skip(1));
        }
    } else if b.len() == 0 {
        assert(a =~= b);
    }
}

/// Adding a user keeps a table in order.
proof fn lemma_name_added_sorted(table: NameTable, name: Seq<char>, user: Seq<char>)
    requires
        table_sorted(table),
    ensures
        table_sorted(name_added(table, name, user)),
        forall|j: int|
            0 <= j < name_added(table, name, user).len() ==> (#[trigger] name_added(
                table,
                name,
                user,
            )[j]).0 == name || exists|k: int|
                0 <= k < table.len() && table[k].0 == name_added(table, name, user)[j].0,
    decreases table.len(),
{
    let out = name_added(table, name, user);
    if table.len() == 0 || text_less(name, table[0].0) {
        assert forall|i: int, j: int| 0 <= i < j < out.len() implies text_less(
            (#[trigger] out[i]).0,
            (#[trigger] out[j]).0,
        ) by {
            assert(out[j] == table[j - 1]);
            if i > 0 {
                assert(out[i] == table[i - 1]);
            } else if j > 1 {
                assert(text_less(table[0].0, table[j - 1].0));
                lemma_text_order(name, table[0].0, table[j - 1].0);
            }
        }
        assert forall|j: int| 0 <= j < out.len() implies (#[trigger] out[j]).0 == name || exists|
            k: int,
        |
            0 <= k < table.len() && table[k].0 == out[j].0 by {
            if j > 0 {
                assert(table[j - 1].0 == out[j].0);
            }
        }
    } else if table[0].0 == name {
        assert forall|i: int, j: int| 0 <= i < j < out.len() implies text_less(
            (#[trigger] out[i]).0,
            (#[trigger] out[j]).0,
        ) by {
            assert(out[j] == table[j]);
            assert(out[i].0 == table[i].0);
        }
        assert forall|j: int| 0 <= j < out.len() implies (#[trigger] out[j]).0 == name || exists|
            k: int,
        |
            0 <= k < table.len() && table[k].0 == out[j].0 by {
            assert(table[j].0 == out[j].0);
        }
    } else {
        let rest = table.skip(1);
        assert forall|i: int, j: int| 0 <= i < j < rest.len() implies text_less(
            (#[trigger] rest[i]).0,
            (#[trigger] rest[j]).0,
        ) by {
            assert(rest[i] == table[i + 1]);
            assert(rest[j] == table[j + 1]);
        }
        lemma_name_added_sorted(rest, name, user);
        let tail = name_added(rest, name, user);
        lemma_text_order(table[0].0, name, name);
        assert forall|j: int| 0 <= j < tail.len() implies text_less(
            table[0].0,
            (#[trigger] tail[j]).0,
        ) by {
            if tail[j].0 != name {
                let k = choose|k: int| 0 <= k < rest.len() && rest[k].0 == tail[j].0;
                assert(rest[k] == table[k + 1]);
                assert(text_less(table[0].0, table[k + 1].0));
            }
        }
        assert forall|i: int, j: int| 0 <= i < j < out.len() implies text_less(
            (#[trigger] out[i]).0,
            (#[trigger] out[j]).0,
        ) by {
            assert(out[j] == tail[j - 1]);
            if i > 0 {
                assert(out[i] == tail[i - 1]);
            }
        }
        assert forall|j: int| 0 <= j < out.len() implies (#[trigger] out[j]).0 == name || exists|
            k: int,
        |
            0 <= k < table.len() && table[k].0 == out[j].0 by {
            if j == 0 {
                assert(table[0].0 == out[0].0);
            } else {
                assert(out[j] == tail[j - 1]);
                if tail[j - 1].0 != name {
                    let k = choose|k: int| 0 <= k < rest.len() && rest[k].0 == tail[j - 1].0;
                    assert(table[k + 1].0 == out[j].0);
                }
            }
        }
    }
}

/// The names of members come in order, each of them once.
pub proof fn law_names_in_order(members: Seq<Member>, n: nat)
    ensures
        table_sorted(names_of(members, n)),
    decreases n,
{
    if n > 0 {
        law_names_in_order(members, (n - 1) as nat);
        if let Some(name) = members[n - 1].display_name {
            lemma_name_added_sorted(
                names_of(members, (n - 1) as nat),
                name@,
                members[n - 1].user_id@,
            );
        }
    }
}

/// The entry for a member.
pub open spec fn member_doc(m: Member) -> JsonDoc {
    JsonDoc::Object(
        seq![("user_id"@, JsonDoc::Text(m.user_id@))].push(("display_name"@, text_or_null(opt_text(m.display_name)))).push(("avatar_url"@, text_or_null(opt_text(m.avatar_url)))).push(("power_level"@, JsonDoc::Int(match m.power_level {
                Some(n) => n,
                None => 100,
            }))).push(("invited"@, JsonDoc::Bool(false))).push(("presence"@, JsonDoc::Text("offline"@))).push(("last_active_ago"@, JsonDoc::Null)).push(("currently_active"@, JsonDoc::Null)).push(("status_msg"@, JsonDoc::Null)),
    )
}

/// The entry for a member.
fn json_member(m: &Member) -> (doc: Json)
    ensures
        doc@ == member_doc(*m),
{
    let mut f = Fields::new();
    f.put_text("user_id", m.user_id.as_str());
    f.put("display_name", json_opt_string(&m.display_name));
    f.put("avatar_url", json_opt_string(&m.avatar_url));
    let level: i64 = match m.power_level {
        Some(n) => n,
        None => 100,
    };
    f.put("power_level", Json::Int(level));
    f.put("invited", Json::Bool(false));
    f.put_text("presence", "offline");
    f.put("last_active_ago", Json::Null);
    f.put("currently_active", Json::Null);
    f.put("status_msg", Json::Null);
    f.object()
}

/// The members under their user ids.
pub open spec fn members_doc(members: Seq<Member>) -> JsonDoc {
    JsonDoc::Object(members.map_values(|m: Member| (m.user_id@, member_doc(m))))
}

/// The members under their user ids.
fn json_members(members: &Vec<Member>) -> (doc: Json)
    ensures
        doc@ == members_doc(members@),
{
    let mut f = Fields::new();
    let mut i: usize = 0;
    while i < members.len()
        invariant
            i <= members.len(),
            f@ == members@.take(i as int).map_values(|m: Member| (m.user_id@, member_doc(m))),
        decreases members.len() - i,
    {
        let ghost before = f@;
        f.put(members[i].user_id.as_str(), json_member(&members[i]));
        i += 1;
        assert(members@.take(i as int).map_values(|m: Member| (m.user_id@, member_doc(m)))
            =~= before.push((members@[i - 1].user_id@, member_doc(members@[i - 1]))));
    }
    assert(members@.take(members@.len() as int) =~= members@);
    f.object()
}

/// The table of names as a document.
pub open spec fn names_doc(table: NameTable) -> JsonDoc {
    JsonDoc::Object(table.map_values(|e: (Seq<char>, Seq<Seq<char>>)| (e.0, text_array(e.1))))
}

/// The table of names as a document.
fn json_names(table: &Vec<(String, Vec<String>)>) -> (doc: Json)
    ensures
        doc@ == names_doc(table_view(table@)),
{
    let mut f = Fields::new();
    let mut i: usize = 0;
    let ghost all = table_view(table@);
    while i < table.len()
        invariant
            i <= table.len(),
            all == table_view(table@),
            f@ == all.take(i as int).map_values(
                |e: (Seq<char>, Seq<Seq<char>>)| (e.0, text_array(e.1)),
            ),
        decreases table.len() - i,
    {
        let ghost before = f@;
        f.put(table[i].0.as_str(), array_of_texts(&table[i].1));
        i += 1;
        assert(all.take(i as int).map_values(
            |e: (Seq<char>, Seq<Seq<char>>)| (e.0, text_array(e.1)),
        ) =~= before.push((all[i - 1].0, text_array(all[i - 1].1))));
    }
    assert(all.take(all.len() as int) =~= all);
    f.object()
}

/// Levels under their names.
pub open spec fn levels_doc(levels: Seq<(String, i64)>) -> JsonDoc {
    JsonDoc::Object(levels.map_values(|e: (String, i64)| (e.0@, JsonDoc::Int(e.1))))
}

/// Levels under their names.
fn json_levels(levels: &Vec<(String, i64)>) -> (doc: Json)
    ensures
        doc@ == levels_doc(levels@),
{
    let mut f = Fields::new();
    let mut i: usize = 0;
    while i < levels.len()
        invariant
            i <= levels.len(),
            f@ == levels@.take(i as int).map_values(
                |e: (String, i64)| (e.0@, JsonDoc::Int(e.1)),
            ),
        decreases levels.len() - i,
    {
        let ghost before = f@;
        f.put(levels[i].0.as_str(), Json::Int(levels[i].1));
        i += 1;
        assert(levels@.take(i as int).map_values(|e: (String, i64)| (e.0@, JsonDoc::Int(e.1)))
            =~= before.push((levels@[i - 1].0@, JsonDoc::Int(levels@[i - 1].1))));
    }
    assert(levels@.take(levels@.len() as int) =~= levels@);
    f.object()
}

/// The power levels of a room.
pub open spec fn power_levels_doc(pl: PowerLevels) -> JsonDoc {
    JsonDoc::Object(
        seq![(
                "defaults"@,
                JsonDoc::Object(
                    seq![("ban"@, JsonDoc::Int(pl.ban))].push(("invite"@, JsonDoc::Int(pl.invite))).push(("kick"@, JsonDoc::Int(pl.kick))).push(("redact"@, JsonDoc::Int(pl.redact))).push(("state_default"@, JsonDoc::Int(pl.state_default))).push(("events_default"@, JsonDoc::Int(pl.events_default))).push(("users_default"@, JsonDoc::Int(pl.users_default))).push((
                            "notifications"@,
                            JsonDoc::Object(seq![("room"@, JsonDoc::Int(pl.notifications_room))]),
                        )),
                ),
            )].push(("users"@, levels_doc(pl.users@))).push(("events"@, levels_doc(pl.events@))),
    )
}

/// The last power levels that were set, nothing where none were.
pub open spec fn last_levels_doc(list: Seq<PowerLevels>) -> JsonDoc {
    if list.len() == 0 {
        JsonDoc::Object(Seq::empty())
    } else {
        power_levels_doc(list.last())
    }
}

/// The power levels of a room.
fn json_power_levels(list: &Vec<PowerLevels>) -> (doc: Json)
    ensures
        doc@ == last_levels_doc(list@),
{
    if list.len() == 0 {
        return Fields::new().object();
    }
    let pl = &list[list.len() - 1];
    let mut n = Fields::new();
    n.put("room", Json::Int(pl.notifications_room));
    let mut d = Fields::new();
    d.put("ban", Json::Int(pl.ban));
    d.put("invite", Json::Int(pl.invite));
    d.put("kick", Json::Int(pl.kick));
    d.put("redact", Json::Int(pl.redact));
    d.put("state_default", Json::Int(pl.state_default));
    d.put("events_default", Json::Int(pl.events_default));
    d.put("users_default", Json::Int(pl.users_default));
    d.put("notifications", n.object());
    let mut f = Fields::new();
    f.put("defaults", d.object());
    f.put("users", json_levels(&pl.users));
    f.put("events", json_levels(&pl.events));
    f.object()
}

/// An object without fields.
pub open spec fn empty_object() -> JsonDoc {
    JsonDoc::Object(Seq::empty())
}

/// The room as a document, given its rule for joining.
pub open spec fn room_doc(info: RoomInfo, join_rule: Seq<char>) -> JsonDoc {
    JsonDoc::Object(
        seq![("room_id"@, JsonDoc::Text(info.room_id@))].push(("own_user_id"@, JsonDoc::Text(info.own_user_id@))).push(("federate"@, JsonDoc::Bool(true))).push(("room_version"@, JsonDoc::Text(last_or(info.versions@, "1"@)))).push(("room_type"@, JsonDoc::Text(Seq::empty()))).push(("guest_access"@, JsonDoc::Text(last_or(info.guest_access@, "forbidden"@)))).push(("join_rule"@, JsonDoc::Text(join_rule))).push(("history_visibility"@, JsonDoc::Text(last_or(info.history_visibility@, "shared"@)))).push(("canonical_alias"@, text_or_null(opt_text(info.canonical_alias)))).push(("topic"@, nonempty_or_null(crate::account::or_empty(info.topic)))).push(("name"@, text_or_null(opt_text(info.name)))).push(("parents"@, JsonDoc::Object(seq![("set"@, JsonDoc::Text("set()"@))]))).push(("children"@, JsonDoc::Object(seq![("set"@, JsonDoc::Text("set()"@))]))).push(("users"@, members_doc(info.members@))).push(("invited_users"@, empty_object())).push(("names"@, names_doc(names_of(info.members@, info.members@.len())))).push(("encrypted"@, JsonDoc::Bool(info.encrypted))).push(("power_levels"@, last_levels_doc(info.power_levels@))).push(("typing_users"@, JsonDoc::Array(Seq::empty()))).push(("read_receipts"@, empty_object())).push(("threaded_read_receipts"@, empty_object())).push((
                "summary"@,
                JsonDoc::Object(
                    seq![("invited_member_count"@, JsonDoc::Null)].push(("joined_member_count"@, JsonDoc::Null)).push(("heroes"@, JsonDoc::Null)),
                ),
            )).push(("room_avatar_url"@, text_or_null(opt_text(info.avatar_url)))).push(("fully_read_marker"@, JsonDoc::Null)).push(("tags"@, empty_object())).push(("unread_notifications"@, JsonDoc::Uint(info.unread_notifications))).push(("unread_highlights"@, JsonDoc::Uint(info.unread_highlights))).push(("members_synced"@, JsonDoc::Bool(false))).push(("replacement_room"@, JsonDoc::Null)).push(("display_name"@, JsonDoc::Text(display_name_of(info)))).push(("alias"@, text_or_null(opt_text(info.canonical_alias)))),
    )
}

/// The room as a document, given its rule for joining.
#[verifier::rlimit(60)]
fn json_room(info: &RoomInfo, join_rule: &str) -> (doc: Json)
    ensures
        doc@ == room_doc(*info, join_rule@),
{
    let version = last_text(&info.versions, "1");
    let guest_access = last_text(&info.guest_access, "forbidden");
    let history = last_text(&info.history_visibility, "shared");
    let shown = display_name(info);
    let table = collect_names(&info.members);
    let mut parents = Fields::new();
    parents.put_text("set", "set()");
    let mut children = Fields::new();
    children.put_text("set", "set()");
    let mut summary = Fields::new();
    summary.put("invited_member_count", Json::Null);
    summary.put("joined_member_count", Json::Null);
    summary.put("heroes", Json::Null);
    let no_items: Vec<Json> = Vec::new();
    assert(docs(no_items@) =~= Seq::empty());
    let topic = crate::json::json_nonempty(crate::account::text_or_empty(&info.topic));
    let mut f = Fields::new();
    f.put_text("room_id", info.room_id.as_str());
    f.put_text("own_user_id", info.own_user_id.as_str());
    f.put("federate", Json::Bool(true));
    f.put_text("room_version", version.as_str());
    f.put("room_type", Json::Text(String::new()));
    f.put_text("guest_access", guest_access.as_str());
    f.put_text("join_rule", join_rule);
    f.put_text("history_visibility", history.as_str());
    f.put("canonical_alias", json_opt_string(&info.canonical_alias));
    f.put("topic", topic);
    f.put("name", json_opt_string(&info.name));
    f.put("parents", parents.object());
    f.put("children", children.object());
    f.put("users", json_members(&info.members));
    f.put("invited_users", Fields::new().object());
    f.put("names", json_names(&table));
    f.put("encrypted", Json::Bool(info.encrypted));
    f.put("power_levels", json_power_levels(&info.power_levels));
    f.put("typing_users", array_of(no_items));
    f.put("read_receipts", Fields::new().object());
    f.put("threaded_read_receipts", Fields::new().object());
    f.put("summary", summary.object());
    f.put("room_avatar_url", json_opt_string(&info.avatar_url));
    f.put("fully_read_marker", Json::Null);
    f.put("tags", Fields::new().object());
    f.put("unread_notifications", Json::Uint(info.unread_notifications));
    f.put("unread_highlights", Json::Uint(info.unread_highlights));
    f.put("members_synced", Json::Bool(false));
    f.put("replacement_room", Json::Null);
    f.put_text("display_name", shown.as_str());
    f.put("alias", json_opt_string(&info.canonical_alias));
    f.object()
}

/// What is printed of a room, given its rule for joining.
pub open spec fn room_printed(
    info: RoomInfo,
    join_rule: Seq<char>,
    output: Output,
    sep: Seq<char>,
) -> Seq<char> {
    match output {
        Output::Text => info.room_id@ + sep + display_name_of(info) + sep + or_none(
            crate::account::or_empty(info.canonical_alias),
        ) + sep + or_none(crate::account::or_empty(info.topic)) + sep + (if info.encrypted {
            "True"@
        } else {
            "False"@
        }) + "\n"@,
        _ => printed(room_doc(info, join_rule), output),
    }
}

/// What is printed of a room, given its rule for joining.
pub fn print_room_info(info: &RoomInfo, join_rule: &str, output: Output, sep: &str) -> (out: String)
    ensures
        out@ == room_printed(*info, join_rule@, output, sep@),
{
    match output {
        Output::Text => {
            let shown = display_name(info);
            let mut out = info.room_id.clone();
            out.append(sep);
            out.append(shown.as_str());
            out.append(sep);
            out.append(text_or_none(crate::account::text_or_empty(&info.canonical_alias)));
            out.append(sep);
            out.append(text_or_none(crate::account::text_or_empty(&info.topic)));
            out.append(sep);
            if info.encrypted {
                out.append("True");
            } else {
                out.append("False");
            }
            out.append("\n");
            out
        },
        _ => {
            let doc = json_room(info, join_rule);
            print_json(&doc, output)
        },
    }
}

/// The rule for joining a room, in small letters; by invitation where none is known.
pub open spec fn join_rule_of(rule: Option<Seq<char>>) -> Seq<char> {
    match rule {
        Some(r) => lower_text(r),
        None => "invite"@,
    }
}

/// The rooms of --get-room-info, none where a text gives no valid room id.
pub fn rooms_to_show(list: &Vec<String>) -> (out: Vec<Option<String>>)
    ensures
        out@.map_values(|r: Option<String>| opt_text(r)) == texts(list@).map_values(
            |t: Seq<char>| room_id_in(t),
        ),
{
    let mut out: Vec<Option<String>> = Vec::new();
    let mut i: usize = 0;
    while i < list.len()
        invariant
            i <= list.len(),
            out.len() == i,
            forall|j: int| 0 <= j < i ==> opt_text(#[trigger] out@[j]) == room_id_in(list@[j]@),
        decreases list.len() - i,
    {
        out.push(parse_room_id(list[i].as_str()));
        i += 1;
    }
    assert(out@.map_values(|r: Option<String>| opt_text(r)) =~= texts(list@).map_values(
        |t: Seq<char>| room_id_in(t),
    ));
    out
}

/// What is printed of a room. A room that is not known is an error.
pub fn get_room_info(info: Option<&RoomInfo>, output: Output, sep: &str) -> (r: Result<
    String,
    Error,
>)
    ensures
        match info {
            Some(i) => r matches Ok(out) && out@ == room_printed(
                *i,
                join_rule_of(opt_text(i.join_rule)),
                output,
                sep@,
            ),
            None => r matches Err(e) && e == Error::InvalidRoom,
        },
        match info {
            Some(i) => match i.join_rule {
                Some(rule) => all_ascii(rule@) ==> (r matches Ok(out) && out@ == room_printed(
                    *i,
                    ascii_lower(rule@),
                    output,
                    sep@,
                )),
                None => true,
            },
            None => true,
        },
{
    match info {
        Some(i) => {
            let rule = match &i.join_rule {
                Some(r) => to_lower(r.as_str()),
                None => "invite".to_string(),
            };
            Ok(print_room_info(i, rule.as_str(), output, sep))
        },
        None => Err(Error::InvalidRoom),
    }
}

/// The last column tells whether a room is encrypted: the line ends with the word for true exactly
/// where it is, and with that for false where it is not.
pub proof fn law_encryption_is_told(info: RoomInfo, join_rule: Seq<char>, sep: Seq<char>)
    ensures
        info.encrypted ==> (sep + "True\n"@).is_suffix_of(
            room_printed(info, join_rule, Output::Text, sep),
        ),
        !info.encrypted ==> (sep + "False\n"@).is_suffix_of(
            room_printed(info, join_rule, Output::Text, sep),
        ),
{
    reveal_strlit("True");
    reveal_strlit("False");
    reveal_strlit("True\n");
    reveal_strlit("False\n");
    reveal_strlit("\n");
    let line = room_printed(info, join_rule, Output::Text, sep);
    if info.encrypted {
        let end = sep + "True\n"@;
        assert(line.subrange(line.len() - end.len(), line.len() as int) =~= end);
    } else {
        let end = sep + "False\n"@;
        assert(line.subrange(line.len() - end.len(), line.len() as int) =~= end);
    }
}

/// Two rooms of which one is encrypted and the other not are printed differently, whatever else
/// they have in common.
pub proof fn law_encrypted_rooms_differ(
    a: RoomInfo,
    b: RoomInfo,
    join_rule: Seq<char>,
    sep: Seq<char>,
)
    requires
        a.encrypted,
        !b.encrypted,
    ensures
        room_printed(a, join_rule, Output::Text, sep) != room_printed(
            b,
            join_rule,
            Output::Text,
            sep,
        ),
{
    reveal_strlit("True");
    reveal_strlit("False");
    reveal_strlit("\n");
    let x = room_printed(a, join_rule, Output::Text, sep);
    let y = room_printed(b, join_rule, Output::Text, sep);
    assert(x[x.len() - 3] == 'u');
    assert(y[y.len() - 3] == 's');
}

/// A room is shown under its name; without one, or with an empty one, under its alias; and without
/// that under the name that is made up for it.
pub proof fn law_name_before_alias(info: RoomInfo)
    ensures
        info.name matches Some(name) ==> (name@.len() > 0 ==> display_name_of(info) == name@),
        (info.name matches Some(name) ==> name@.len() == 0) ==> {
            &&& info.canonical_alias matches Some(alias) ==> display_name_of(info) == alias@
            &&& info.canonical_alias is None ==> display_name_of(info) == info.computed_name@
        },
{
}

/// The line for a room has its id, the name under which it is shown, its alias and its topic, or
/// the word for none in their place, and whether it is encrypted as its columns.
pub proof fn law_room_columns(
    info: RoomInfo,
    alias: Seq<char>,
    topic: Seq<char>,
    truth: Seq<char>,
    join_rule: Seq<char>,
    sep: Seq<char>,
)
    requires
        match info.canonical_alias {
            Some(a) => if a@.len() > 0 {
                alias == a@
            } else {
                alias == "None"@
            },
            None => alias == "None"@,
        },
        match info.topic {
            Some(t) => if t@.len() > 0 {
                topic == t@
            } else {
                topic == "None"@
            },
            None => topic == "None"@,
        },
        info.encrypted ==> truth == "True"@,
        !info.encrypted ==> truth == "False"@,
    ensures
        room_printed(info, join_rule, Output::Text, sep) == joined(
            seq![info.room_id@].push(display_name_of(info)).push(alias).push(topic).push(truth),
            sep,
        ) + "\n"@,
{
    lemma_joined_five(info.room_id@, display_name_of(info), alias, topic, truth, sep);
}

/// The document of a room holds what is known about it, each part under its own name.
#[verifier::rlimit(60)]
pub proof fn law_room_document_holds_the_room(info: RoomInfo, join_rule: Seq<char>)
    ensures
        ({
            let doc = room_doc(info, join_rule);
            &&& has_field(doc, "room_id"@, JsonDoc::Text(info.room_id@))
            &&& has_field(doc, "own_user_id"@, JsonDoc::Text(info.own_user_id@))
            &&& has_field(doc, "room_version"@, JsonDoc::Text(last_or(info.versions@, "1"@)))
            &&& has_field(
                doc,
                "guest_access"@,
                JsonDoc::Text(last_or(info.guest_access@, "forbidden"@)),
            )
            &&& has_field(doc, "join_rule"@, JsonDoc::Text(join_rule))
            &&& has_field(
                doc,
                "history_visibility"@,
                JsonDoc::Text(last_or(info.history_visibility@, "shared"@)),
            )
            &&& has_field(doc, "users"@, members_doc(info.members@))
            &&& has_field(doc, "names"@, names_doc(names_of(info.members@, info.members@.len())))
            &&& has_field(doc, "encrypted"@, JsonDoc::Bool(info.encrypted))
            &&& has_field(doc, "unread_notifications"@, JsonDoc::Uint(info.unread_notifications))
            &&& has_field(doc, "unread_highlights"@, JsonDoc::Uint(info.unread_highlights))
            &&& has_field(doc, "display_name"@, JsonDoc::Text(display_name_of(info)))
            &&& match info.name {
                Some(name) => has_field(doc, "name"@, JsonDoc::Text(name@)),
                None => has_field(doc, "name"@, JsonDoc::Null),
            }
            &&& match info.canonical_alias {
                Some(alias) => has_field(doc, "canonical_alias"@, JsonDoc::Text(alias@))
                    && has_field(doc, "alias"@, JsonDoc::Text(alias@)),
                None => has_field(doc, "canonical_alias"@, JsonDoc::Null) && has_field(
                    doc,
                    "alias"@,
                    JsonDoc::Null,
                ),
            }
            &&& match info.topic {
                Some(topic) => if topic@.len() > 0 {
                    has_field(doc, "topic"@, JsonDoc::Text(topic@))
                } else {
                    has_field(doc, "topic"@, JsonDoc::Null)
                },
                None => has_field(doc, "topic"@, JsonDoc::Null),
            }
            &&& match info.avatar_url {
                Some(url) => has_field(doc, "room_avatar_url"@, JsonDoc::Text(url@)),
                None => has_field(doc, "room_avatar_url"@, JsonDoc::Null),
            }
            &&& info.power_levels@.len() > 0 ==> has_field(
                doc,
                "power_levels"@,
                power_levels_doc(info.power_levels@.last()),
            )
            &&& info.power_levels@.len() == 0 ==> has_field(
                doc,
                "power_levels"@,
                JsonDoc::Object(Seq::empty()),
            )
            &&& has_fields(doc, 31)
        }),
{
    let items = room_doc(info, join_rule)->Object_0;
    lemma_has_first_fields(items);
    assert(items[0].0 == "room_id"@);
    assert(items[1].0 == "own_user_id"@);
    assert(items[3].0 == "room_version"@);
    assert(items[5].0 == "guest_access"@);
    assert(items[6].0 == "join_rule"@);
    assert(items[7].0 == "history_visibility"@);
    assert(items[8].0 == "canonical_alias"@);
    assert(items[9].0 == "topic"@);
    assert(items[10].0 == "name"@);
    assert(items[13].0 == "users"@);
    assert(items[15].0 == "names"@);
    assert(items[16].0 == "encrypted"@);
    assert(items[17].0 == "power_levels"@);
    assert(items[22].0 == "room_avatar_url"@);
    assert(items[25].0 == "unread_notifications"@);
    assert(items[26].0 == "unread_highlights"@);
    assert(items[29].0 == "display_name"@);
    assert(items[30].0 == "alias"@);
}

/// As JSON the document of the room is printed, given its rule for joining: in small letters, and
/// by invitation where none is known.
pub proof fn law_room_is_printed_as_its_document(
    info: RoomInfo,
    rule: Seq<char>,
    join_rule: Seq<char>,
    sep: Seq<char>,
)
    ensures
        room_printed(info, join_rule, Output::Json, sep) == compact_text(room_doc(info, join_rule))
            + "\n"@,
        room_printed(info, join_rule, Output::JsonMax, sep) == room_printed(
            info,
            join_rule,
            Output::Json,
            sep,
        ),
        room_printed(info, join_rule, Output::JsonSpec, sep).len() == 0,
        join_rule_of(None) == "invite"@,
        join_rule_of(Some(rule)) == lower_text(rule),
{
}

/// Every member has an entry under their user id, at their place in the list, that tells what is
/// known about them; a power level without bound is shown as the highest.
pub proof fn law_every_member_has_an_entry(members: Seq<Member>, i: int)
    requires
        0 <= i < members.len(),
    ensures
        ({
            let m = members[i];
            &&& members_doc(members)->Object_0.len() == members.len()
            &&& members_doc(members)->Object_0[i] == (m.user_id@, member_doc(m))
            &&& has_field(member_doc(m), "user_id"@, JsonDoc::Text(m.user_id@))
            &&& m.display_name matches Some(name) ==> has_field(
                member_doc(m),
                "display_name"@,
                JsonDoc::Text(name@),
            )
            &&& m.display_name is None ==> has_field(member_doc(m), "display_name"@, JsonDoc::Null)
            &&& m.avatar_url matches Some(url) ==> has_field(
                member_doc(m),
                "avatar_url"@,
                JsonDoc::Text(url@),
            )
            &&& m.avatar_url is None ==> has_field(member_doc(m), "avatar_url"@, JsonDoc::Null)
            &&& m.power_level matches Some(n) ==> has_field(
                member_doc(m),
                "power_level"@,
                JsonDoc::Int(n),
            )
            &&& m.power_level is None ==> has_field(
                member_doc(m),
                "power_level"@,
                JsonDoc::Int(100),
            )
            &&& has_fields(member_doc(m), 9)
        }),
{
    let items = member_doc(members[i])->Object_0;
    lemma_has_field(items, 0);
    lemma_has_field(items, 1);
    lemma_has_field(items, 2);
    lemma_has_field(items, 3);
}

/// The power levels of a room are all told, each under its name: the defaults, those of single
/// users and those for single types of events. Where several were set, the last count.
pub proof fn law_power_levels_are_told(pl: PowerLevels, before: Seq<PowerLevels>, i: int)
    ensures
        last_levels_doc(before.push(pl)) == power_levels_doc(pl),
        has_field(power_levels_doc(pl), "users"@, levels_doc(pl.users@)),
        has_field(power_levels_doc(pl), "events"@, levels_doc(pl.events@)),
        has_fields(power_levels_doc(pl), 3),
        0 <= i < pl.users@.len() ==> levels_doc(pl.users@)->Object_0[i] == (
            pl.users@[i].0@,
            JsonDoc::Int(pl.users@[i].1),
        ),
        levels_doc(pl.users@)->Object_0.len() == pl.users@.len(),
        exists|doc: JsonDoc|
            {
                &&& #[trigger] has_field(power_levels_doc(pl), "defaults"@, doc)
                &&& has_fields(doc, 8)
                &&& has_field(doc, "ban"@, JsonDoc::Int(pl.ban))
                &&& has_field(doc, "invite"@, JsonDoc::Int(pl.invite))
                &&& has_field(doc, "kick"@, JsonDoc::Int(pl.kick))
                &&& has_field(doc, "redact"@, JsonDoc::Int(pl.redact))
                &&& has_field(doc, "state_default"@, JsonDoc::Int(pl.state_default))
                &&& has_field(doc, "events_default"@, JsonDoc::Int(pl.events_default))
                &&& has_field(doc, "users_default"@, JsonDoc::Int(pl.users_default))
                &&& has_field(
                    doc,
                    "notifications"@,
                    JsonDoc::Object(seq![("room"@, JsonDoc::Int(pl.notifications_room))]),
                )
            },
{
    let items = power_levels_doc(pl)->Object_0;
    lemma_has_field(items, 0);
    lemma_has_field(items, 1);
    lemma_has_field(items, 2);
    let defaults = items[0].1->Object_0;
    lemma_has_field(defaults, 0);
    lemma_has_field(defaults, 1);
    lemma_has_field(defaults, 2);
    lemma_has_field(defaults, 3);
    lemma_has_field(defaults, 4);
    lemma_has_field(defaults, 5);
    lemma_has_field(defaults, 6);
    lemma_has_field(defaults, 7);
    assert(has_field(power_levels_doc(pl), "defaults"@, JsonDoc::Object(defaults)));
}

/// The last value of a list counts, and only an empty list gives the other one.
pub proof fn law_last_value_counts(before: Seq<String>, last: String, other: Seq<char>)
    ensures
        last_or(before.push(last), other) == last@,
        last_or(Seq::empty(), other) == other,
{
}

/// Whether a user has that name in a table of names.
pub open spec fn bears_name(table: NameTable, name: Seq<char>, user: Seq<char>) -> bool {
    exists|i: int| 0 <= i < table.len() && (#[trigger] table[i]).0 == name && table[i].1.contains(user)
}

/// In the table of names a user stands under a name exactly where some member is that user and has
/// that name.
pub proof fn law_every_name_is_listed(
    members: Seq<Member>,
    n: nat,
    name: Seq<char>,
    user: Seq<char>,
)
    requires
        n <= members.len(),
    ensures
        bears_name(names_of(members, n), name, user) <==> exists|i: int|
            0 <= i < n && opt_text((#[trigger] members[i]).display_name) == Some(name)
                && members[i].user_id@ == user,
    decreases n,
{
    if n > 0 {
        law_every_name_is_listed(members, (n - 1) as nat, name, user);
        let m = members[n - 1];
        if let Some(own) = m.display_name {
            lemma_name_added_bears(
                names_of(members, (n - 1) as nat),
                own@,
                m.user_id@,
                name,
                user,
            );
            if own@ == name && m.user_id@ == user {
                assert(opt_text(members[n - 1].display_name) == Some(name));
            }
        }
        if bears_name(names_of(members, (n - 1) as nat), name, user) {
            let i = choose|i: int|
                0 <= i < n - 1 && opt_text((#[trigger] members[i]).display_name) == Some(name)
                    && members[i].user_id@ == user;
            assert(0 <= i < n && opt_text(members[i].display_name) == Some(name));
        }
    }
}

/// Adding a user under a name adds that user under that name and changes nothing else.
proof fn lemma_name_added_bears(
    table: NameTable,
    own: Seq<char>,
    who: Seq<char>,
    name: Seq<char>,
    user: Seq<char>,
)
    ensures
        bears_name(name_added(table, own, who), name, user) <==> bears_name(table, name, user) || (
        own == name && who == user),
    decreases table.len(),
{
    let added = name_added(table, own, who);
    if table.len() == 0 || text_less(own, table[0].0) {
        assert(added =~= seq![(own, seq![who])] + table);
        assert(added[0] == (own, seq![who]));
        assert(seq![who][0] == who);
        lemma_bears_front(added, name, user);
        assert(added.skip(1) =~= table);
    } else if table[0].0 == own {
        let more = table[0].1.push(who);
        assert(added[0] == (own, more));
        assert(more[more.len() - 1] == who);
        lemma_bears_front(added, name, user);
        lemma_bears_front(table, name, user);
        assert(added.skip(1) =~= table.skip(1));
        if table[0].1.contains(user) {
            let k = choose|k: int| 0 <= k < table[0].1.len() && table[0].1[k] == user;
            assert(more[k] == user);
        }
        if more.contains(user) && who != user {
            let k = choose|k: int| 0 <= k < more.len() && more[k] == user;
            assert(table[0].1[k] == user);
        }
    } else {
        assert(added[0] == table[0]);
        lemma_bears_front(added, name, user);
        lemma_bears_front(table, name, user);
        assert(added.skip(1) =~= name_added(table.skip(1), own, who));
        lemma_name_added_bears(table.skip(1), own, who, name, user);
    }
}

/// A user stands under a name in the first entry or behind it.
proof fn lemma_bears_front(table: NameTable, name: Seq<char>, user: Seq<char>)
    requires
        table.len() > 0,
    ensures
        bears_name(table, name, user) <==> (table[0].0 == name && table[0].1.contains(user))
            || bears_name(table.skip(1), name, user),
{
    let rest = table.skip(1);
    if bears_name(table, name, user) {
        let i = choose|i: int|
            0 <= i < table.len() && (#[trigger] table[i]).0 == name && table[i].1.contains(user);
        if i > 0 {
            assert(rest[i - 1] == table[i]);
        }
    }
    if bears_name(rest, name, user) {
        let i = choose|i: int|
            0 <= i < rest.len() && (#[trigger] rest[i]).0 == name && rest[i].1.contains(user);
        assert(table[i + 1] == rest[i]);
    }
}

/// Of two texts with the same beginning the one comes first whose next character is smaller, or
/// that has none; no text comes before itself.
pub proof fn law_first_difference_decides(
    front: Seq<char>,
    c: char,
    d: char,
    x: Seq<char>,
    y: Seq<char>,
)
    ensures
        c != d ==> text_less(front.push(c) + x, front.push(d) + y) == ((c as u32) < (d as u32)),
        text_less(front, front.push(c) + x),
        !text_less(front.push(c) + x, front),
        !text_less(front, front),
    decreases front.len(),
{
    let a = front.push(c) + x;
    let b = front.push(d) + y;
    if front.len() == 0 {
        assert(a[0] == c);
        assert(b[0] == d);
    } else {
        law_first_difference_decides(front.skip(1), c, d, x, y);
        assert(a[0] == front[0]);
        assert(b[0] == front[0]);
        assert(a.skip(1) =~= front.skip(1).push(c) + x);
        assert(b.skip(1) =~= front.skip(1).push(d) + y);
    }
}

/// A valid room id is taken as it is given, also with a backslash before its exclamation mark, and
/// nothing else is taken.
pub proof fn law_room_id_is_taken_as_given(text: Seq<char>)
    requires
        !text.contains('\\'),
    ensures
        room_id_ok(text) ==> room_id_in(text) == Some(text),
        !room_id_ok(text) ==> room_id_in(text) is None,
        room_id_ok("!"@ + text) ==> room_id_in("\\!"@ + text) == Some("!"@ + text),
{
    reveal_strlit("\\!");
    if occurs(text, "\\!"@) {
        lemma_occurs_contains(text, "\\!"@, 0);
    }
    law_absent_text_is_not_replaced(text, "\\!"@, "!"@);
    let escaped = "\\!"@ + text;
    assert(escaped.subrange(0, 2) =~= "\\!"@);
    assert(occurs_at(escaped, "\\!"@, 0));
    assert(escaped.skip(2) =~= text);
}

/// What is the same for every room is told of each: it may be federated, has no type, its members
/// are not synced, and of the rest nothing is known.
#[verifier::rlimit(60)]
pub proof fn law_room_document_has_the_common_fields(info: RoomInfo, join_rule: Seq<char>)
    ensures
        ({
            let doc = room_doc(info, join_rule);
            &&& has_field(doc, "federate"@, JsonDoc::Bool(true))
            &&& has_field(doc, "room_type"@, JsonDoc::Text(Seq::empty()))
            &&& has_field(doc, "members_synced"@, JsonDoc::Bool(false))
            &&& has_field(doc, "replacement_room"@, JsonDoc::Null)
            &&& has_field(doc, "fully_read_marker"@, JsonDoc::Null)
            &&& has_field(doc, "typing_users"@, JsonDoc::Array(Seq::empty()))
            &&& has_field(doc, "invited_users"@, JsonDoc::Object(Seq::empty()))
            &&& has_field(doc, "read_receipts"@, JsonDoc::Object(Seq::empty()))
            &&& has_field(doc, "threaded_read_receipts"@, JsonDoc::Object(Seq::empty()))
            &&& has_field(doc, "tags"@, JsonDoc::Object(Seq::empty()))
        }),
{
    let items = room_doc(info, join_rule)->Object_0;
    lemma_has_first_fields(items);
    assert(items[2].0 == "federate"@);
    assert(items[4].0 == "room_type"@);
    assert(items[14].0 == "invited_users"@);
    assert(items[18].0 == "typing_users"@);
    assert(items[19].0 == "read_receipts"@);
    assert(items[20].0 == "threaded_read_receipts"@);
    assert(items[23].0 == "fully_read_marker"@);
    assert(items[24].0 == "tags"@);
    assert(items[27].0 == "members_synced"@);
    assert(items[28].0 == "replacement_room"@);
}

} // verus!
