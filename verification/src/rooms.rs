//! What is printed about lists of rooms, their visibility, members and state, and about aliases.

use vstd::prelude::*;

use crate::account::{or_empty, text_or_empty};
use crate::ids::{alias_id_ok, is_alias_id};
use crate::json::{
    array_of, array_of_texts, compact_text, docs, has_field, has_fields, json_opt_string,
    lemma_has_field, print_json, printed, text_array, text_or_null, write_compact, Fields, Json,
    JsonDoc,
};
use crate::room_info::Member;
use crate::text::{
    copy_texts, join, joined, law_absent_text_is_not_replaced, lemma_joined_five,
    lemma_joined_three, lemma_joined_two, lemma_occurs_contains, occurs, occurs_at, opt_text,
    replace_text, replaced, same_text, texts,
};
use crate::types::Output;

verus! {

/// The list with only the first of equal entries kept.
pub open spec fn deduped(list: Seq<Seq<char>>) -> Seq<Seq<char>>
    decreases list.len(),
{
    if list.len() == 0 {
        list
    } else {
        let head = deduped(list.drop_last());
        if head.contains(list.last()) {
            head
        } else {
            head.push(list.last())
        }
    }
}

/// Whether the text is in the list.
pub fn list_contains(list: &Vec<String>, t: &str) -> (r: bool)
    ensures
        r == texts(list@).contains(t@),
{
    let mut i: usize = 0;
    while i < list.len()
        invariant
            i <= list.len(),
            forall|j: int| 0 <= j < i ==> texts(list@)[j] != t@,
        decreases list.len() - i,
    {
        assert(texts(list@)[i as int] == list@[i as int]@);
        if same_text(list[i].as_str(), t) {
            return true;
        }
        i += 1;
    }
    false
}

/// Keeps only the first of equal entries.
pub fn dedup(list: &Vec<String>) -> (out: Vec<String>)
    ensures
        texts(out@) == deduped(texts(list@)),
{
    let mut out: Vec<String> = Vec::new();
    let mut i: usize = 0;
    let ghost all = texts(list@);
    assert(texts(out@) =~= Seq::empty());
    while i < list.len()
        invariant
            i <= list.len(),
            all == texts(list@),
            texts(out@) == deduped(all.take(i as int)),
        decreases list.len() - i,
    {
        let ghost before = texts(out@);
        assert(all.take(i + 1).drop_last() =~= all.take(i as int));
        if !list_contains(&out, list[i].as_str()) {
            out.push(list[i].clone());
            assert(texts(out@) =~= before.push(all[i as int]));
        }
        i += 1;
    }
    assert(all.take(all.len() as int) =~= all);
    out
}

/// Keeping the first of equal entries leaves the same entries, each once.
pub proof fn law_dedup_keeps_each_once(list: Seq<Seq<char>>)
    ensures
        deduped(list).no_duplicates(),
        forall|t: Seq<char>| deduped(list).contains(t) == list.contains(t),
    decreases list.len(),
{
    if list.len() > 0 {
        law_dedup_keeps_each_once(list.drop_last());
        let head = deduped(list.drop_last());
        assert forall|t: Seq<char>| deduped(list).contains(t) == list.contains(t) by {
            if list.contains(t) {
                let k = choose|k: int| 0 <= k < list.len() && list[k] == t;
                if k < list.len() - 1 {
                    assert(list.drop_last()[k] == t);
                    assert(list.drop_last().contains(t));
                    assert(head.contains(t));
                    let m = choose|m: int| 0 <= m < head.len() && head[m] == t;
                    assert(deduped(list)[m] == t);
                } else if !head.contains(t) {
                    assert(deduped(list)[head.len() as int] == t);
                }
            }
            if deduped(list).contains(t) {
                let m = choose|m: int| 0 <= m < deduped(list).len() && deduped(list)[m] == t;
                if m < head.len() {
                    assert(head[m] == t);
                    assert(head.contains(t));
                    assert(list.drop_last().contains(t));
                    let k = choose|k: int| 0 <= k < list.drop_last().len() && list.drop_last()[k] == t;
                    assert(list[k] == t);
                } else {
                    assert(list[list.len() - 1] == t);
                }
            }
        }
    }
}

/// The entries of a list, each on a line of its own.
pub open spec fn lines(list: Seq<Seq<char>>) -> Seq<char>
    decreases list.len(),
{
    if list.len() == 0 {
        Seq::empty()
    } else {
        lines(list.drop_last()) + list.last() + "\n"@
    }
}

/// What is printed of a list of rooms.
pub open spec fn rooms_printed(rooms: Seq<Seq<char>>, output: Output) -> Seq<char> {
    match output {
        Output::Text => lines(deduped(rooms)),
        _ => printed(JsonDoc::Object(seq![("rooms"@, text_array(deduped(rooms)))]), output),
    }
}

/// What is printed of a list of rooms, each of them once.
pub fn print_rooms(rooms: &Vec<String>, output: Output) -> (out: String)
    ensures
        out@ == rooms_printed(texts(rooms@), output),
{
    let ids = dedup(rooms);
    match output {
        Output::Text => {
            let mut out = String::new();
            let mut i: usize = 0;
            let ghost all = texts(ids@);
            while i < ids.len()
                invariant
                    i <= ids.len(),
                    all == texts(ids@),
                    out@ == lines(all.take(i as int)),
                decreases ids.len() - i,
            {
                assert(all.take(i + 1).drop_last() =~= all.take(i as int));
                out.append(ids[i].as_str());
                out.append("\n");
                i += 1;
            }
            assert(all.take(all.len() as int) =~= all);
            out
        },
        _ => {
            let mut f = Fields::new();
            f.put("rooms", array_of_texts(&ids));
            let doc = f.object();
            print_json(&doc, output)
        },
    }
}

/// The word for the visibility of a room; one that is not known to be public is private.
pub open spec fn visibility_word(public: Option<bool>) -> Seq<char> {
    if public == Some(true) {
        "public"@
    } else {
        "private"@
    }
}

/// What is printed of the visibility of a room.
pub fn print_room_visibility(
    room_id: &str,
    public: Option<bool>,
    output: Output,
    sep: &str,
) -> (out: String)
    ensures
        out@ == (match output {
            Output::Text => visibility_word(public) + sep@ + room_id@ + "\n"@,
            _ => printed(
                JsonDoc::Object(
                    seq![("room_id"@, JsonDoc::Text(room_id@))].push(("visibility"@, JsonDoc::Text(visibility_word(public)))),
                ),
                output,
            ),
        }),
{
    let word = match public {
        Some(true) => "public",
        _ => "private",
    };
    match output {
        Output::Text => {
            let mut out = word.to_string();
            out.append(sep);
            out.append(room_id);
            out.append("\n");
            out
        },
        _ => {
            let mut f = Fields::new();
            f.put_text("room_id", room_id);
            f.put_text("visibility", word);
            let doc = f.object();
            print_json(&doc, output)
        },
    }
}

/// The lines for the first `n` members of a room.
pub open spec fn member_lines(members: Seq<Member>, sep: Seq<char>, n: nat) -> Seq<char>
    decreases n,
{
    if n == 0 {
        Seq::empty()
    } else {
        let m = members[n - 1];
        member_lines(members, sep, (n - 1) as nat) + "\n"@ + sep + m.user_id@ + sep + or_empty(
            m.display_name,
        ) + sep + or_empty(m.avatar_url)
    }
}

/// A member in the list of the members of a room.
pub open spec fn listed_member(m: Member) -> JsonDoc {
    JsonDoc::Object(
        seq![("user_id"@, JsonDoc::Text(m.user_id@))].push(("display_name"@, text_or_null(opt_text(m.display_name)))).push(("avatar_url"@, text_or_null(opt_text(m.avatar_url)))),
    )
}

/// What is printed of the members of a room.
pub open spec fn members_printed(
    room_id: Seq<char>,
    members: Seq<Member>,
    output: Output,
    sep: Seq<char>,
) -> Seq<char> {
    match output {
        Output::Text => room_id + member_lines(members, sep, members.len()) + "\n"@,
        _ => printed(
            JsonDoc::Object(
                seq![("room_id"@, JsonDoc::Text(room_id))].push(("members"@, JsonDoc::Array(members.map_values(|m: Member| listed_member(m))))),
            ),
            output,
        ),
    }
}

/// The members as an array.
fn json_listed(members: &Vec<Member>) -> (doc: Json)
    ensures
        doc@ == JsonDoc::Array(members@.map_values(|m: Member| listed_member(m))),
{
    let mut items: Vec<Json> = Vec::new();
    let mut i: usize = 0;
    while i < members.len()
        invariant
            i <= members.len(),
            items.len() == i,
            forall|j: int| 0 <= j < i ==> (#[trigger] items@[j])@ == listed_member(members@[j]),
        decreases members.len() - i,
    {
        let mut f = Fields::new();
        f.put_text("user_id", members[i].user_id.as_str());
        f.put("display_name", json_opt_string(&members[i].display_name));
        f.put("avatar_url", json_opt_string(&members[i].avatar_url));
        items.push(f.object());
        i += 1;
    }
    assert(docs(items@) =~= members@.map_values(|m: Member| listed_member(m)));
    array_of(items)
}

/// What is printed of the members of a room.
pub fn print_room_members(
    room_id: &str,
    members: &Vec<Member>,
    output: Output,
    sep: &str,
) -> (out: String)
    ensures
        out@ == members_printed(room_id@, members@, output, sep@),
{
    match output {
        Output::Text => {
            let mut out = room_id.to_string();
            let mut i: usize = 0;
            assert(out@ =~= room_id@ + member_lines(members@, sep@, 0));
            while i < members.len()
                invariant
                    i <= members.len(),
                    out@ == room_id@ + member_lines(members@, sep@, i as nat),
                decreases members.len() - i,
            {
                out.append("\n");
                out.append(sep);
                out.append(members[i].user_id.as_str());
                out.append(sep);
                out.append(text_or_empty(&members[i].display_name));
                out.append(sep);
                out.append(text_or_empty(&members[i].avatar_url));
                i += 1;
                assert(out@ =~= room_id@ + member_lines(members@, sep@, i as nat));
            }
            out.append("\n");
            out
        },
        _ => {
            let list = json_listed(members);
            let mut f = Fields::new();
            f.put_text("room_id", room_id);
            f.put("members", list);
            let doc = f.object();
            print_json(&doc, output)
        },
    }
}

/// Part of the state of a room: its events as they were received, by type.
#[derive(Debug)]
pub struct RoomState {
    pub member: Vec<String>,
    pub power_levels: Vec<String>,
    pub name: Vec<String>,
    pub topic: Vec<String>,
}

/// The events of all types, one type after the other.
pub open spec fn all_events(s: RoomState) -> Seq<Seq<char>> {
    texts(s.member@) + texts(s.power_levels@) + texts(s.name@) + texts(s.topic@)
}

/// The documents that can be read from texts, in order.
pub open spec fn readable(list: Seq<Seq<char>>) -> Seq<JsonDoc>
    decreases list.len(),
{
    if list.len() == 0 {
        Seq::empty()
    } else {
        match crate::json::parsed_json(list.last()) {
            Some(doc) => readable(list.drop_last()).push(doc),
            None => readable(list.drop_last()),
        }
    }
}

/// The documents that can be read from texts, in order.
fn read_all(list: &Vec<String>) -> (out: Vec<Json>)
    ensures
        docs(out@) == readable(texts(list@)),
{
    let mut out: Vec<Json> = Vec::new();
    let mut i: usize = 0;
    let ghost all = texts(list@);
    assert(docs(out@) =~= Seq::empty());
    assert(all.take(0) =~= Seq::empty());
    while i < list.len()
        invariant
            i <= list.len(),
            all == texts(list@),
            docs(out@) == readable(all.take(i as int)),
        decreases list.len() - i,
    {
        let ghost before = docs(out@);
        assert(all.take(i + 1).drop_last() =~= all.take(i as int));
        assert(all[i as int] == list@[i as int]@);
        if let Some(doc) = crate::json::read_json(list[i].as_str()) {
            let ghost d = doc@;
            out.push(doc);
            assert(docs(out@) =~= before.push(d));
        }
        i += 1;
    }
    assert(all.take(all.len() as int) =~= all);
    out
}

/// A list of events as they were received, in brackets.
pub open spec fn event_list(list: Seq<Seq<char>>) -> Seq<char> {
    "["@ + joined(list, ","@) + "]"@
}

/// What is printed of the state of a room. In JSON the events are shown as they were received.
pub open spec fn state_printed(
    room_id: Seq<char>,
    s: RoomState,
    output: Output,
    sep: Seq<char>,
) -> Seq<char> {
    match output {
        Output::Text => compact_text(JsonDoc::Array(readable(all_events(s)))) + sep + room_id
            + "\n"@,
        _ => "{\"room_id\":"@ + compact_text(JsonDoc::Text(room_id))
            + ",\"room_member_event_content\":"@ + event_list(texts(s.member@))
            + ",\"room_power_levels_event_content\":"@ + event_list(texts(s.power_levels@))
            + ",\"room_name_event_content\":"@ + event_list(texts(s.name@))
            + ",\"room_topic_event_content\":"@ + event_list(texts(s.topic@)) + "}\n"@,
    }
}

/// Appends a list of events in brackets.
fn append_events(out: &mut String, list: &Vec<String>)
    ensures
        final(out)@ == old(out)@ + event_list(texts(list@)),
{
    let inner = join(list, ",");
    out.append("[");
    out.append(inner.as_str());
    out.append("]");
    assert(out@ =~= old(out)@ + event_list(texts(list@)));
}

/// What is printed of the state of a room.
pub fn print_room_state(room_id: &str, s: &RoomState, output: Output, sep: &str) -> (out: String)
    ensures
        out@ == state_printed(room_id@, *s, output, sep@),
{
    match output {
        Output::Text => {
            let mut list = copy_texts(&s.member);
            let mut more = copy_texts(&s.power_levels);
            list.append(&mut more);
            let mut more = copy_texts(&s.name);
            list.append(&mut more);
            let mut more = copy_texts(&s.topic);
            list.append(&mut more);
            assert(texts(list@) =~= all_events(*s));
            let events = array_of(read_all(&list));
            let mut out = write_compact(&events);
            out.append(sep);
            out.append(room_id);
            out.append("\n");
            out
        },
        _ => {
            let id = write_compact(&Json::Text(room_id.to_string()));
            let mut out = "{\"room_id\":".to_string();
            out.append(id.as_str());
            out.append(",\"room_member_event_content\":");
            append_events(&mut out, &s.member);
            out.append(",\"room_power_levels_event_content\":");
            append_events(&mut out, &s.power_levels);
            out.append(",\"room_name_event_content\":");
            append_events(&mut out, &s.name);
            out.append(",\"room_topic_event_content\":");
            append_events(&mut out, &s.topic);
            out.append("}\n");
            out
        },
    }
}

/// The alias that a text on the command line gives, with the escape removed, where it is valid.
pub open spec fn alias_in(text: Seq<char>) -> Option<Seq<char>> {
    let id = replaced(text, "\\#"@, "#"@);
    if alias_id_ok(id) {
        Some(id)
    } else {
        None
    }
}

/// The alias that a text on the command line gives, where it is valid.
pub fn parse_alias(text: &str) -> (r: Option<String>)
    ensures
        opt_text(r) == alias_in(text@),
{
    let id = replace_text(text, "\\#", "#");
    if is_alias_id(id.as_str()) {
        Some(id)
    } else {
        None
    }
}

/// The valid aliases of a list, in order.
pub open spec fn valid_aliases(list: Seq<Seq<char>>) -> Seq<Seq<char>>
    decreases list.len(),
{
    if list.len() == 0 {
        list
    } else {
        match alias_in(list.last()) {
            Some(id) => valid_aliases(list.drop_last()).push(id),
            None => valid_aliases(list.drop_last()),
        }
    }
}

/// The valid aliases of a list; others are skipped.
pub fn parse_aliases(list: &Vec<String>) -> (out: Vec<String>)
    ensures
        texts(out@) == valid_aliases(texts(list@)),
{
    let mut out: Vec<String> = Vec::new();
    let mut i: usize = 0;
    let ghost all = texts(list@);
    assert(all.take(0) =~= Seq::empty());
    assert(texts(out@) =~= Seq::empty());
    while i < list.len()
        invariant
            i <= list.len(),
            all == texts(list@),
            texts(out@) == valid_aliases(all.take(i as int)),
        decreases list.len() - i,
    {
        let ghost before = texts(out@);
        assert(all.take(i + 1).drop_last() =~= all.take(i as int));
        if let Some(id) = parse_alias(list[i].as_str()) {
            let ghost t = id@;
            out.push(id);
            assert(texts(out@) =~= before.push(t));
        }
        i += 1;
    }
    assert(all.take(all.len() as int) =~= all);
    out
}

/// The texts, each between single quotes.
pub open spec fn single_quoted(list: Seq<Seq<char>>) -> Seq<Seq<char>> {
    list.map_values(|s: Seq<char>| "'"@ + s + "'"@)
}

/// What is printed of an alias that was resolved.
pub open spec fn alias_printed(
    alias: Seq<char>,
    room_id: Seq<char>,
    servers: Seq<Seq<char>>,
    output: Output,
    sep: Seq<char>,
) -> Seq<char> {
    match output {
        Output::Text => alias + sep + room_id + sep + "["@ + joined(single_quoted(servers), ", "@)
            + "]\n"@,
        _ => printed(
            JsonDoc::Object(
                seq![("room_alias"@, JsonDoc::Text(alias))].push(("room_id"@, JsonDoc::Text(room_id))).push(("servers"@, text_array(servers))),
            ),
            output,
        ),
    }
}

/// What is printed of an alias that was resolved.
pub fn print_resolved_alias(
    alias: &str,
    room_id: &str,
    servers: &Vec<String>,
    output: Output,
    sep: &str,
) -> (out: String)
    ensures
        out@ == alias_printed(alias@, room_id@, texts(servers@), output, sep@),
{
    match output {
        Output::Text => {
            let mut quoted: Vec<String> = Vec::new();
            let mut i: usize = 0;
            while i < servers.len()
                invariant
                    i <= servers.len(),
                    quoted.len() == i,
                    forall|j: int|
                        0 <= j < i ==> (#[trigger] quoted@[j])@ == "'"@ + servers@[j]@ + "'"@,
                decreases servers.len() - i,
            {
                let mut q = "'".to_string();
                q.append(servers[i].as_str());
                q.append("'");
                quoted.push(q);
                i += 1;
            }
            assert(texts(quoted@) =~= single_quoted(texts(servers@)));
            let list = join(&quoted, ", ");
            let mut out = alias.to_string();
            out.append(sep);
            out.append(room_id);
            out.append(sep);
            out.append("[");
            out.append(list.as_str());
            out.append("]\n");
            out
        },
        _ => {
            let mut f = Fields::new();
            f.put_text("room_alias", alias);
            f.put_text("room_id", room_id);
            f.put("servers", array_of_texts(servers));
            let doc = f.object();
            print_json(&doc, output)
        },
    }
}

/// An entry that a list does not have yet is added at the end, and one that it has changes
/// nothing.
pub proof fn law_dedup_keeps_the_first(list: Seq<Seq<char>>, t: Seq<char>)
    ensures
        list.contains(t) ==> deduped(list.push(t)) == deduped(list),
        !list.contains(t) ==> deduped(list.push(t)) == deduped(list).push(t),
{
    law_dedup_keeps_each_once(list);
    assert(list.push(t).drop_last() =~= list);
    assert(deduped(list).contains(t) == list.contains(t));
}

/// Rooms are printed in their order, each once: in plain text each on a line of its own, in JSON
/// as the texts of an array.
pub proof fn law_rooms_are_printed(
    rooms: Seq<Seq<char>>,
    more: Seq<Seq<char>>,
    room: Seq<char>,
    output: Output,
)
    ensures
        lines(rooms + more) == lines(rooms) + lines(more),
        lines(seq![room]) == room + "\n"@,
        rooms_printed(rooms, Output::Text) == lines(deduped(rooms)),
        deduped(rooms).len() > 0 ==> rooms_printed(rooms, Output::Text) == joined(
            deduped(rooms),
            "\n"@,
        ) + "\n"@,
        rooms.len() == 0 ==> rooms_printed(rooms, Output::Text).len() == 0,
        output != Output::Text ==> exists|doc: JsonDoc|
            {
                &&& rooms_printed(rooms, output) == #[trigger] printed(doc, output)
                &&& has_fields(doc, 1)
                &&& has_field(doc, "rooms"@, text_array(deduped(rooms)))
            },
{
    lemma_lines_in_pieces(rooms, more);
    assert(seq![room].drop_last() =~= Seq::<Seq<char>>::empty());
    assert(lines(Seq::<Seq<char>>::empty()) =~= Seq::empty());
    assert(lines(seq![room]) =~= room + "\n"@);
    if deduped(rooms).len() > 0 {
        lemma_lines_joined(deduped(rooms));
    }
    let items = seq![("rooms"@, text_array(deduped(rooms)))];
    lemma_has_field(items, 0);
    if output != Output::Text {
        assert(rooms_printed(rooms, output) == printed(JsonDoc::Object(items), output));
    }
}

/// Lines of two lists follow one another.
proof fn lemma_lines_in_pieces(a: Seq<Seq<char>>, b: Seq<Seq<char>>)
    ensures
        lines(a + b) == lines(a) + lines(b),
    decreases b.len(),
{
    if b.len() == 0 {
        assert(a + b =~= a);
        assert(lines(a) + lines(b) =~= lines(a));
    } else {
        lemma_lines_in_pieces(a, b.drop_last());
        assert((a + b).drop_last() =~= a + b.drop_last());
        assert((a + b).last() == b.last());
        assert(lines(a + b) =~= lines(a) + lines(b));
    }
}

/// Lines are the texts with line ends between them and one behind.
proof fn lemma_lines_joined(list: Seq<Seq<char>>)
    requires
        list.len() > 0,
    ensures
        lines(list) == joined(list, "\n"@) + "\n"@,
    decreases list.len(),
{
    if list.len() == 1 {
        assert(lines(list.drop_last()) =~= Seq::empty());
        assert(lines(list) =~= list[0] + "\n"@);
    } else {
        lemma_lines_joined(list.drop_last());
    }
}

/// A room is called public exactly where it is known to be, and private otherwise.
pub proof fn law_public_only_where_known(public: Option<bool>)
    ensures
        public == Some(true) <==> visibility_word(public) == "public"@,
        public != Some(true) <==> visibility_word(public) == "private"@,
{
    reveal_strlit("public");
    reveal_strlit("private");
    assert("public"@.len() == 6);
    assert("private"@.len() == 7);
}

/// The members of a room stand behind its id, each on a line of their own with their id, name and
/// avatar.
pub proof fn law_every_member_is_printed(
    room_id: Seq<char>,
    members: Seq<Member>,
    m: Member,
    sep: Seq<char>,
)
    ensures
        members_printed(room_id, Seq::empty(), Output::Text, sep) == room_id + "\n"@,
        members_printed(room_id, members.push(m), Output::Text, sep) == members_printed(
            room_id,
            members,
            Output::Text,
            sep,
        ) + (sep + joined(
            seq![m.user_id@].push(match m.display_name {
                Some(name) => name@,
                None => Seq::empty(),
            }).push(match m.avatar_url {
                Some(url) => url@,
                None => Seq::empty(),
            }),
            sep,
        ) + "\n"@),
{
    let name = or_empty(m.display_name);
    let url = or_empty(m.avatar_url);
    lemma_joined_three(m.user_id@, name, url, sep);
    let none = Seq::<Member>::empty();
    assert(members_printed(room_id, none, Output::Text, sep) =~= room_id + "\n"@);
    let more = members.push(m);
    lemma_member_lines_front(members, m, sep, members.len());
    assert(more[more.len() - 1] == m);
    let before = member_lines(members, sep, members.len());
    lemma_member_line_moved(room_id, before, "\n"@, sep, m.user_id@, name, url);
}

/// A line end may be counted to the line before or to the one behind.
proof fn lemma_member_line_moved(
    room_id: Seq<char>,
    before: Seq<char>,
    end: Seq<char>,
    sep: Seq<char>,
    a: Seq<char>,
    b: Seq<char>,
    c: Seq<char>,
)
    ensures
        room_id + (before + end + sep + a + sep + b + sep + c) + end == room_id + before + end + (sep + (
        a + sep + b + sep + c) + end),
{
    assert(before + end + sep + a + sep + b + sep + c =~= before + end + (sep + (a + sep + b + sep
        + c)));
    let line = sep + (a + sep + b + sep + c);
    assert(room_id + (before + end + line) + end =~= room_id + before + end + (line + end));
}

/// In JSON the members of a room are the elements of an array, in their order.
pub proof fn law_members_in_an_array(
    room_id: Seq<char>,
    members: Seq<Member>,
    output: Output,
    sep: Seq<char>,
)
    requires
        output != Output::Text,
    ensures
        exists|doc: JsonDoc, list: Seq<JsonDoc>|
            {
                &&& members_printed(room_id, members, output, sep) == #[trigger] printed(doc, output)
                &&& has_fields(doc, 2)
                &&& has_field(doc, "room_id"@, JsonDoc::Text(room_id))
                &&& #[trigger] has_field(doc, "members"@, JsonDoc::Array(list))
                &&& list.len() == members.len()
                &&& forall|i: int|
                    0 <= i < list.len() ==> #[trigger] list[i] == listed_member(members[i])
            },
{
    let list = members.map_values(|m: Member| listed_member(m));
    let items = seq![("room_id"@, JsonDoc::Text(room_id))].push(("members"@, JsonDoc::Array(list)));
    lemma_has_field(items, 0);
    lemma_has_field(items, 1);
    let doc = JsonDoc::Object(items);
    assert(members_printed(room_id, members, output, sep) == printed(doc, output));
    assert(has_field(doc, "members"@, JsonDoc::Array(list)));
}

/// A member is listed with their id, name and avatar, and null for what is not known.
pub proof fn law_member_is_listed(m: Member)
    ensures
        has_fields(listed_member(m), 3),
        has_field(listed_member(m), "user_id"@, JsonDoc::Text(m.user_id@)),
        match m.display_name {
            Some(name) => has_field(listed_member(m), "display_name"@, JsonDoc::Text(name@)),
            None => has_field(listed_member(m), "display_name"@, JsonDoc::Null),
        },
        match m.avatar_url {
            Some(url) => has_field(listed_member(m), "avatar_url"@, JsonDoc::Text(url@)),
            None => has_field(listed_member(m), "avatar_url"@, JsonDoc::Null),
        },
{
    let entry = listed_member(m)->Object_0;
    lemma_has_field(entry, 0);
    lemma_has_field(entry, 1);
    lemma_has_field(entry, 2);
}

/// A member behind the first `n` changes nothing of them.
proof fn lemma_member_lines_front(members: Seq<Member>, m: Member, sep: Seq<char>, n: nat)
    requires
        n <= members.len(),
    ensures
        member_lines(members.push(m), sep, n) == member_lines(members, sep, n),
    decreases n,
{
    if n > 0 {
        lemma_member_lines_front(members, m, sep, (n - 1) as nat);
        assert(members.push(m)[n - 1] == members[n - 1]);
    }
}

/// Of the events of a room those that can be read are kept, in their order.
pub proof fn law_readable_events_are_kept(a: Seq<Seq<char>>, b: Seq<Seq<char>>, t: Seq<char>)
    ensures
        readable(a + b) == readable(a) + readable(b),
        match crate::json::parsed_json(t) {
            Some(doc) => readable(seq![t]) == seq![doc],
            None => readable(seq![t]).len() == 0,
        },
    decreases b.len(),
{
    let none = Seq::<Seq<char>>::empty();
    assert(seq![t].drop_last() =~= none);
    assert(readable(none) =~= Seq::empty());
    if let Some(doc) = crate::json::parsed_json(t) {
        assert(Seq::<JsonDoc>::empty().push(doc) =~= seq![doc]);
    }
    if b.len() == 0 {
        assert(a + b =~= a);
        assert(readable(a) + readable(b) =~= readable(a));
    } else {
        law_readable_events_are_kept(a, b.drop_last(), t);
        assert((a + b).drop_last() =~= a + b.drop_last());
        assert((a + b).last() == b.last());
        assert(readable(a + b) =~= readable(a) + readable(b));
    }
}

/// The state of a room is printed with the events of all four types and the id of the room. In
/// JSON the events of each type stand under its name, between brackets and commas, as they were
/// received.
pub proof fn law_all_of_the_state_is_printed(
    room_id: Seq<char>,
    s: RoomState,
    output: Output,
    sep: Seq<char>,
)
    ensures
        state_printed(room_id, s, Output::Text, sep) == compact_text(
            JsonDoc::Array(
                readable(texts(s.member@)) + readable(texts(s.power_levels@)) + readable(
                    texts(s.name@),
                ) + readable(texts(s.topic@)),
            ),
        ) + sep + room_id + "\n"@,
        output != Output::Text ==> state_printed(room_id, s, output, sep) == "{"@ + joined(
            seq!["\"room_id\":"@ + compact_text(JsonDoc::Text(room_id))].push(
                "\"room_member_event_content\":["@ + joined(texts(s.member@), ","@) + "]"@,
            ).push(
                "\"room_power_levels_event_content\":["@ + joined(texts(s.power_levels@), ","@)
                    + "]"@,
            ).push("\"room_name_event_content\":["@ + joined(texts(s.name@), ","@) + "]"@).push(
                "\"room_topic_event_content\":["@ + joined(texts(s.topic@), ","@) + "]"@,
            ),
            ","@,
        ) + "}\n"@,
{
    let a = texts(s.member@);
    let b = texts(s.power_levels@);
    let c = texts(s.name@);
    let d = texts(s.topic@);
    law_readable_events_are_kept(a, b, Seq::empty());
    law_readable_events_are_kept(a + b, c, Seq::empty());
    law_readable_events_are_kept(a + b + c, d, Seq::empty());
    reveal_strlit("{");
    reveal_strlit("[");
    reveal_strlit(",");
    reveal_strlit("{\"room_id\":");
    reveal_strlit("\"room_id\":");
    reveal_strlit(",\"room_member_event_content\":");
    reveal_strlit("\"room_member_event_content\":[");
    reveal_strlit(",\"room_power_levels_event_content\":");
    reveal_strlit("\"room_power_levels_event_content\":[");
    reveal_strlit(",\"room_name_event_content\":");
    reveal_strlit("\"room_name_event_content\":[");
    reveal_strlit(",\"room_topic_event_content\":");
    reveal_strlit("\"room_topic_event_content\":[");
    assert("{\"room_id\":"@ =~= "{"@ + "\"room_id\":"@);
    assert(",\"room_member_event_content\":"@ + "["@ =~= ","@ + "\"room_member_event_content\":["@);
    assert(",\"room_power_levels_event_content\":"@ + "["@ =~= ","@
        + "\"room_power_levels_event_content\":["@);
    assert(",\"room_name_event_content\":"@ + "["@ =~= ","@ + "\"room_name_event_content\":["@);
    assert(",\"room_topic_event_content\":"@ + "["@ =~= ","@ + "\"room_topic_event_content\":["@);
    if output != Output::Text {
        let id = compact_text(JsonDoc::Text(room_id));
        let ta = joined(a, ","@);
        let tb = joined(b, ","@);
        let tc = joined(c, ","@);
        let td = joined(d, ","@);
        let ka = "\"room_member_event_content\":["@ + ta + "]"@;
        let kb = "\"room_power_levels_event_content\":["@ + tb + "]"@;
        let kc = "\"room_name_event_content\":["@ + tc + "]"@;
        let kd = "\"room_topic_event_content\":["@ + td + "]"@;
        let first = "\"room_id\":"@ + id;
        let s0 = "{\"room_id\":"@ + id;
        let s1 = s0 + ","@ + ka;
        let s2 = s1 + ","@ + kb;
        let s3 = s2 + ","@ + kc;
        let s4 = s3 + ","@ + kd;
        lemma_field_moved(s0, ",\"room_member_event_content\":"@, "["@, ta, "]"@, ","@, "\"room_member_event_content\":["@);
        lemma_field_moved(s1, ",\"room_power_levels_event_content\":"@, "["@, tb, "]"@, ","@, "\"room_power_levels_event_content\":["@);
        lemma_field_moved(s2, ",\"room_name_event_content\":"@, "["@, tc, "]"@, ","@, "\"room_name_event_content\":["@);
        lemma_field_moved(s3, ",\"room_topic_event_content\":"@, "["@, td, "]"@, ","@, "\"room_topic_event_content\":["@);
        assert(state_printed(room_id, s, output, sep) == s4 + "}\n"@);
        lemma_joined_five(first, ka, kb, kc, kd, ","@);
        lemma_regroup("{"@, "\"room_id\":"@, id);
        lemma_regroup("{"@, first, ","@);
        lemma_regroup("{"@, first + ","@, ka);
        lemma_regroup("{"@, first + ","@ + ka, ","@);
        lemma_regroup("{"@, first + ","@ + ka + ","@, kb);
        lemma_regroup("{"@, first + ","@ + ka + ","@ + kb, ","@);
        lemma_regroup("{"@, first + ","@ + ka + ","@ + kb + ","@, kc);
        lemma_regroup("{"@, first + ","@ + ka + ","@ + kb + ","@ + kc, ","@);
        lemma_regroup("{"@, first + ","@ + ka + ","@ + kb + ","@ + kc + ","@, kd);
    }
}

/// A comma and a bracket may belong to the one or the other of two neighbours.
proof fn lemma_field_moved(
    front: Seq<char>,
    name: Seq<char>,
    open: Seq<char>,
    list: Seq<char>,
    close: Seq<char>,
    comma: Seq<char>,
    opened: Seq<char>,
)
    requires
        name + open == comma + opened,
    ensures
        front + name + (open + list + close) == front + comma + (opened + list + close),
{
    assert(front + name + (open + list + close) =~= front + (name + open) + (list + close));
    assert(front + comma + (opened + list + close) =~= front + (comma + opened) + (list + close));
}

/// It does not matter which of three texts are put together first.
proof fn lemma_regroup(a: Seq<char>, b: Seq<char>, c: Seq<char>)
    ensures
        a + b + c == a + (b + c),
{
    assert(a + b + c =~= a + (b + c));
}

/// Of the aliases on the command line the valid ones are kept, in their order; one is taken as it
/// is given, also with a backslash before its number sign.
pub proof fn law_valid_aliases_are_kept(a: Seq<Seq<char>>, b: Seq<Seq<char>>, t: Seq<char>)
    requires
        !t.contains('\\'),
    ensures
        valid_aliases(a + b) == valid_aliases(a) + valid_aliases(b),
        alias_id_ok(t) ==> alias_in(t) == Some(t) && valid_aliases(seq![t]) == seq![t],
        !alias_id_ok(t) ==> alias_in(t) is None && valid_aliases(seq![t]).len() == 0,
        alias_id_ok("#"@ + t) ==> alias_in("\\#"@ + t) == Some("#"@ + t),
{
    reveal_strlit("\\#");
    if occurs(t, "\\#"@) {
        lemma_occurs_contains(t, "\\#"@, 0);
    }
    law_absent_text_is_not_replaced(t, "\\#"@, "#"@);
    let escaped = "\\#"@ + t;
    assert(escaped.subrange(0, 2) =~= "\\#"@);
    assert(occurs_at(escaped, "\\#"@, 0));
    assert(escaped.skip(2) =~= t);
    let none = Seq::<Seq<char>>::empty();
    assert(seq![t].drop_last() =~= none);
    assert(valid_aliases(none) =~= none);
    assert(none.push(t) =~= seq![t]);
    lemma_valid_aliases_in_pieces(a, b);
}

/// The valid aliases of two lists follow one another.
proof fn lemma_valid_aliases_in_pieces(a: Seq<Seq<char>>, b: Seq<Seq<char>>)
    ensures
        valid_aliases(a + b) == valid_aliases(a) + valid_aliases(b),
    decreases b.len(),
{
    if b.len() == 0 {
        assert(a + b =~= a);
        assert(valid_aliases(a) + valid_aliases(b) =~= valid_aliases(a));
    } else {
        lemma_valid_aliases_in_pieces(a, b.drop_last());
        assert((a + b).drop_last() =~= a + b.drop_last());
        assert((a + b).last() == b.last());
        assert(valid_aliases(a + b) =~= valid_aliases(a) + valid_aliases(b));
    }
}

/// Of an alias that was resolved the alias, the room and the servers are shown: in plain text as
/// the columns of a line, each server in single quotes, in JSON as fields.
pub proof fn law_resolved_alias_is_shown(
    alias: Seq<char>,
    room_id: Seq<char>,
    servers: Seq<Seq<char>>,
    quoted: Seq<Seq<char>>,
    output: Output,
    sep: Seq<char>,
)
    requires
        quoted.len() == servers.len(),
        forall|i: int| 0 <= i < servers.len() ==> #[trigger] quoted[i] == "'"@ + servers[i] + "'"@,
    ensures
        alias_printed(alias, room_id, servers, Output::Text, sep) == joined(
            seq![alias].push(room_id).push("["@ + joined(quoted, ", "@) + "]"@),
            sep,
        ) + "\n"@,
        output != Output::Text ==> exists|doc: JsonDoc|
            {
                &&& alias_printed(alias, room_id, servers, output, sep) == #[trigger] printed(
                    doc,
                    output,
                )
                &&& has_fields(doc, 3)
                &&& has_field(doc, "room_alias"@, JsonDoc::Text(alias))
                &&& has_field(doc, "room_id"@, JsonDoc::Text(room_id))
                &&& has_field(doc, "servers"@, text_array(servers))
            },
{
    reveal_strlit("]\n");
    reveal_strlit("]");
    reveal_strlit("\n");
    assert(single_quoted(servers) =~= quoted);
    lemma_joined_three(alias, room_id, "["@ + joined(quoted, ", "@) + "]"@, sep);
    assert("]\n"@ =~= "]"@ + "\n"@);
    assert(alias_printed(alias, room_id, servers, Output::Text, sep) =~= alias + sep + room_id + sep
        + ("["@ + joined(quoted, ", "@) + "]"@) + "\n"@);
    let items = seq![("room_alias"@, JsonDoc::Text(alias))].push(
        ("room_id"@, JsonDoc::Text(room_id)),
    ).push(("servers"@, text_array(servers)));
    lemma_has_field(items, 0);
    lemma_has_field(items, 1);
    lemma_has_field(items, 2);
    if output != Output::Text {
        assert(alias_printed(alias, room_id, servers, output, sep) == printed(
            JsonDoc::Object(items),
            output,
        ));
    }
}

/// The visibility of a room is printed with its id: in plain text as the columns of a line, in JSON
/// as the fields of an object.
pub proof fn law_visibility_is_printed(
    room_id: &str,
    public: Option<bool>,
    output: Output,
    sep: &str,
    line: String,
    json: String,
)
    requires
        call_ensures(print_room_visibility, (room_id, public, Output::Text, sep), line),
        call_ensures(print_room_visibility, (room_id, public, output, sep), json),
        output != Output::Text,
    ensures
        public == Some(true) ==> line@ == joined(seq!["public"@].push(room_id@), sep@) + "\n"@,
        public != Some(true) ==> line@ == joined(seq!["private"@].push(room_id@), sep@) + "\n"@,
        exists|doc: JsonDoc|
            {
                &&& json@ == #[trigger] printed(doc, output)
                &&& has_fields(doc, 2)
                &&& has_field(doc, "room_id"@, JsonDoc::Text(room_id@))
                &&& public == Some(true) ==> has_field(doc, "visibility"@, JsonDoc::Text("public"@))
                &&& public != Some(true) ==> has_field(doc, "visibility"@, JsonDoc::Text("private"@))
            },
{
    lemma_joined_two("public"@, room_id@, sep@);
    lemma_joined_two("private"@, room_id@, sep@);
    let items = seq![("room_id"@, JsonDoc::Text(room_id@))].push(
        ("visibility"@, JsonDoc::Text(visibility_word(public))),
    );
    lemma_has_field(items, 0);
    lemma_has_field(items, 1);
    assert(json@ == printed(JsonDoc::Object(items), output));
}

} // verus!
