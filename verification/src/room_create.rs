//! Creating rooms and rooms for direct messages.

use vstd::prelude::*;

use crate::account::{or_empty, text_or_empty};
use crate::batch::{parse_user_id, user_id_in};
use crate::ids::{
    begins, begins_with, convert_to_short_canonical_alias_id, is_user_id, short_alias_id, user_id_ok,
};
use crate::json::{
    has_field, has_fields, json_nonempty, lemma_has_field, nonempty_or_null, print_json, printed,
    Fields, JsonDoc,
};
use crate::text::{
    joined, law_absent_text_is_not_replaced, lemma_joined_five, lemma_occurs_contains, occurs,
    opt_text, texts, without_white,
};
use crate::types::Output;

verus! {

/// Whether a room is listed in the room directory.
#[derive(Debug)]
pub enum Visibility {
    Public,
    Private,
    /// A visibility that this program does not know.
    Custom(String),
}

/// Whether a room is listed, as a mathematical value.
pub enum Listing {
    Public,
    Private,
    Custom(Seq<char>),
}

impl View for Visibility {
    type V = Listing;

    open spec fn view(&self) -> Listing {
        match self {
            Visibility::Public => Listing::Public,
            Visibility::Private => Listing::Private,
            Visibility::Custom(word) => Listing::Custom(word@),
        }
    }
}

/// The settings with which a room begins.
#[derive(Clone, Copy, Debug, PartialEq, Eq, Structural)]
pub enum RoomPreset {
    PrivateChat,
    PublicChat,
}

/// What is asked of the server to create a room.
#[derive(Debug)]
pub struct RoomRequest {
    pub encrypted: bool,
    pub name: String,
    pub alias: Option<String>,
    pub topic: String,
    pub is_direct: bool,
    /// The user that is invited.
    pub invite: Option<String>,
    pub visibility: Visibility,
    pub preset: Option<RoomPreset>,
}

/// What is asked of the server, as a mathematical value.
pub struct RoomOrder {
    pub encrypted: bool,
    pub name: Seq<char>,
    pub alias: Option<Seq<char>>,
    pub topic: Seq<char>,
    pub is_direct: bool,
    pub invite: Option<Seq<char>>,
    pub visibility: Listing,
    pub preset: Option<RoomPreset>,
}

impl View for RoomRequest {
    type V = RoomOrder;

    open spec fn view(&self) -> RoomOrder {
        RoomOrder {
            encrypted: self.encrypted,
            name: self.name@,
            alias: opt_text(self.alias),
            topic: self.topic@,
            is_direct: self.is_direct,
            invite: opt_text(self.invite),
            visibility: self.visibility@,
            preset: self.preset,
        }
    }
}

/// Whether a new room is encrypted. Private rooms are unless plain text is asked for; public rooms
/// are only where plain text is refused.
pub fn should_encrypt(visibility: &Visibility, plain: Option<bool>) -> (r: bool)
    ensures
        r == match plain {
            Some(p) => !p,
            None => !(*visibility is Public),
        },
{
    match visibility {
        Visibility::Public => match plain {
            Some(p) => !p,
            None => false,
        },
        _ => match plain {
            Some(p) => !p,
            None => true,
        },
    }
}

/// The preset for a room. A public room for direct messages is not allowed: it begins with the
/// settings of a private one.
pub open spec fn preset_for(is_dm: bool, visibility: Visibility) -> Option<RoomPreset> {
    match visibility {
        Visibility::Public => if is_dm {
            Some(RoomPreset::PrivateChat)
        } else {
            Some(RoomPreset::PublicChat)
        },
        Visibility::Private => Some(RoomPreset::PrivateChat),
        Visibility::Custom(_) => None,
    }
}

/// A copy of a visibility.
fn copy_visibility(visibility: &Visibility) -> (r: Visibility)
    ensures
        r@ == visibility@,
{
    match visibility {
        Visibility::Public => Visibility::Public,
        Visibility::Private => Visibility::Private,
        Visibility::Custom(word) => Visibility::Custom(word.clone()),
    }
}

/// The entry of a list at a position, or an empty text behind its end.
pub open spec fn entry_or_empty(list: Seq<Seq<char>>, i: int) -> Seq<char> {
    if 0 <= i < list.len() {
        list[i]
    } else {
        Seq::empty()
    }
}

/// The entry of a list at a position, or an empty text behind its end.
pub fn entry(list: &Vec<String>, i: usize) -> (out: String)
    ensures
        out@ == entry_or_empty(texts(list@), i as int),
{
    if i < list.len() {
        assert(texts(list@)[i as int] == list@[i as int]@);
        list[i].clone()
    } else {
        String::new()
    }
}

/// How many rooms are created: one for each user of direct messages, else one for each alias.
pub open spec fn room_count(is_dm: bool, users: Seq<Seq<char>>, aliases: Seq<Seq<char>>) -> nat {
    if is_dm {
        users.len()
    } else {
        aliases.len()
    }
}

/// The request for the room at a position. There is none where the user for direct messages is
/// not valid.
pub open spec fn room_order(
    is_dm: bool,
    encrypted: bool,
    users: Seq<Seq<char>>,
    aliases: Seq<Seq<char>>,
    names: Seq<Seq<char>>,
    topics: Seq<Seq<char>>,
    visibility: Visibility,
    i: int,
) -> Option<RoomOrder> {
    let alias = short_alias_id(entry_or_empty(aliases, i));
    let user = user_id_in(entry_or_empty(users, i), "@"@);
    if is_dm && user is None {
        None
    } else {
        Some(
            RoomOrder {
                encrypted,
                name: entry_or_empty(names, i),
                alias: if alias.len() == 0 {
                    None
                } else {
                    Some(alias)
                },
                topic: entry_or_empty(topics, i),
                is_direct: is_dm,
                invite: if is_dm {
                    user
                } else {
                    None
                },
                visibility: visibility@,
                preset: preset_for(is_dm, visibility),
            },
        )
    }
}

/// The request for the room at a position.
pub fn room_request(
    is_dm: bool,
    encrypted: bool,
    users: &Vec<String>,
    aliases: &Vec<String>,
    names: &Vec<String>,
    topics: &Vec<String>,
    visibility: &Visibility,
    i: usize,
) -> (r: Option<RoomRequest>)
    ensures
        match r {
            Some(request) => room_order(
                is_dm,
                encrypted,
                texts(users@),
                texts(aliases@),
                texts(names@),
                texts(topics@),
                *visibility,
                i as int,
            ) == Some(request@),
            None => room_order(
                is_dm,
                encrypted,
                texts(users@),
                texts(aliases@),
                texts(names@),
                texts(topics@),
                *visibility,
                i as int,
            ) is None,
        },
        !is_dm ==> r is Some,
        r matches Some(request) ==> {
            &&& request.encrypted == encrypted
            &&& request.is_direct == is_dm
            &&& request.visibility@ == visibility@
            &&& i < names@.len() ==> request.name@ == names@[i as int]@
            &&& i >= names@.len() ==> request.name@.len() == 0
            &&& i < topics@.len() ==> request.topic@ == topics@[i as int]@
            &&& i >= topics@.len() ==> request.topic@.len() == 0
            &&& i >= aliases@.len() ==> request.alias is None
            &&& request.invite is Some <==> is_dm
        },
{
    proof {
        lemma_nothing_is_short(texts(aliases@), i as int);
    }
    let mut invite: Option<String> = None;
    if is_dm {
        let user = entry(users, i);
        invite = parse_user_id(user.as_str(), "@");
        if invite.is_none() {
            return None;
        }
    }
    let long = entry(aliases, i);
    let short = convert_to_short_canonical_alias_id(long.as_str());
    let alias = if short.as_str().is_empty() {
        None
    } else {
        Some(short)
    };
    let preset = match visibility {
        Visibility::Public => if is_dm {
            Some(RoomPreset::PrivateChat)
        } else {
            Some(RoomPreset::PublicChat)
        },
        Visibility::Private => Some(RoomPreset::PrivateChat),
        Visibility::Custom(_) => None,
    };
    Some(
        RoomRequest {
            encrypted,
            name: entry(names, i),
            alias,
            topic: entry(topics, i),
            is_direct: is_dm,
            invite,
            visibility: copy_visibility(visibility),
            preset,
        },
    )
}

/// The requests as mathematical values.
pub open spec fn orders(list: Seq<Option<RoomRequest>>) -> Seq<Option<RoomOrder>> {
    list.map_values(
        |r: Option<RoomRequest>|
            match r {
                Some(request) => Some(request@),
                None => None,
            },
    )
}

/// The requests for all rooms, in order. For normal rooms there is one for each alias, for direct
/// messages one for each user; a missing name, topic or alias is empty.
pub fn room_create(
    is_dm: bool,
    encrypted: bool,
    users: &Vec<String>,
    aliases: &Vec<String>,
    names: &Vec<String>,
    topics: &Vec<String>,
    visibility: &Visibility,
) -> (out: Vec<Option<RoomRequest>>)
    ensures
        orders(out@) == Seq::new(
            room_count(is_dm, texts(users@), texts(aliases@)),
            |i: int|
                room_order(
                    is_dm,
                    encrypted,
                    texts(users@),
                    texts(aliases@),
                    texts(names@),
                    texts(topics@),
                    *visibility,
                    i,
                ),
        ),
        out@.len() == (if is_dm {
            users@.len()
        } else {
            aliases@.len()
        }),
        forall|i: int|
            0 <= i < out@.len() ==> (#[trigger] out@[i] matches Some(request) ==> {
                &&& request.encrypted == encrypted
                &&& request.is_direct == is_dm
                &&& i < names@.len() ==> request.name@ == names@[i]@
                &&& i < topics@.len() ==> request.topic@ == topics@[i]@
            }),
{
    let num: usize = if is_dm {
        users.len()
    } else {
        aliases.len()
    };
    let mut out: Vec<Option<RoomRequest>> = Vec::new();
    let mut i: usize = 0;
    while i < num
        invariant
            i <= num,
            out.len() == i,
            forall|j: int|
                0 <= j < i ==> (#[trigger] out@[j] matches Some(request) ==> {
                    &&& request.encrypted == encrypted
                    &&& request.is_direct == is_dm
                    &&& j < names@.len() ==> request.name@ == names@[j]@
                    &&& j < topics@.len() ==> request.topic@ == topics@[j]@
                }),
            forall|j: int|
                0 <= j < i ==> #[trigger] orders(out@)[j] == room_order(
                    is_dm,
                    encrypted,
                    texts(users@),
                    texts(aliases@),
                    texts(names@),
                    texts(topics@),
                    *visibility,
                    j,
                ),
        decreases num - i,
    {
        let ghost before = orders(out@);
        let request = room_request(is_dm, encrypted, users, aliases, names, topics, visibility, i);
        out.push(request);
        assert(orders(out@).drop_last() =~= before);
        assert forall|j: int| 0 <= j < i + 1 implies #[trigger] orders(out@)[j] == room_order(
            is_dm,
            encrypted,
            texts(users@),
            texts(aliases@),
            texts(names@),
            texts(topics@),
            *visibility,
            j,
        ) by {
            if j < i {
                assert(orders(out@)[j] == before[j]);
            }
        }
        i += 1;
    }
    assert(orders(out@) =~= Seq::new(
        num as nat,
        |i: int|
            room_order(
                is_dm,
                encrypted,
                texts(users@),
                texts(aliases@),
                texts(names@),
                texts(topics@),
                *visibility,
                i,
            ),
    ));
    out
}

/// A room that was created.
#[derive(Debug)]
pub struct CreatedRoom {
    pub room_id: String,
    pub canonical_alias: Option<String>,
    pub encrypted: bool,
}

/// The complete alias of a new room on a server.
pub open spec fn alias_on_server(alias: Seq<char>, server: Seq<char>) -> Seq<char> {
    if alias.len() == 0 {
        Seq::empty()
    } else if begins(alias, '#') {
        alias + ":"@ + server
    } else {
        "#"@ + alias + ":"@ + server
    }
}

/// What is printed of a room that was created.
pub open spec fn created_printed(
    room: CreatedRoom,
    request: RoomOrder,
    server: Seq<char>,
    output: Output,
    sep: Seq<char>,
) -> Seq<char> {
    let alias = match request.alias {
        Some(a) => a,
        None => Seq::empty(),
    };
    let encrypted = room.encrypted || request.encrypted;
    match output {
        Output::Text => room.room_id@ + sep + alias + sep + or_empty(room.canonical_alias) + sep
            + request.name + sep + request.topic + sep + (if encrypted {
            "True"@
        } else {
            "False"@
        }) + "\n"@,
        _ => printed(
            JsonDoc::Object(
                seq![("room_id"@, JsonDoc::Text(room.room_id@))].push(("alias"@, nonempty_or_null(alias))).push(("alias_full"@, nonempty_or_null(alias_on_server(alias, server)))).push(("name"@, nonempty_or_null(request.name))).push(("topic"@, nonempty_or_null(request.topic))).push(("encrypted"@, JsonDoc::Bool(encrypted))),
            ),
            output,
        ),
    }
}

/// What is printed of a room that was created.
pub fn print_created_room(
    room: &CreatedRoom,
    request: &RoomRequest,
    server: &str,
    output: Output,
    sep: &str,
) -> (out: String)
    ensures
        out@ == created_printed(*room, request@, server@, output, sep@),
{
    let alias = text_or_empty(&request.alias);
    let encrypted = room.encrypted || request.encrypted;
    match output {
        Output::Text => {
            let mut out = room.room_id.clone();
            out.append(sep);
            out.append(alias);
            out.append(sep);
            out.append(text_or_empty(&room.canonical_alias));
            out.append(sep);
            out.append(request.name.as_str());
            out.append(sep);
            out.append(request.topic.as_str());
            out.append(sep);
            if encrypted {
                out.append("True");
            } else {
                out.append("False");
            }
            out.append("\n");
            out
        },
        _ => {
            let mut full = String::new();
            if !alias.is_empty() {
                if !begins_with(alias, '#') {
                    full.append("#");
                }
                full.append(alias);
                full.append(":");
                full.append(server);
            }
            assert(full@ =~= alias_on_server(alias@, server@));
            let mut f = Fields::new();
            f.put_text("room_id", room.room_id.as_str());
            f.put("alias", json_nonempty(alias));
            f.put("alias_full", json_nonempty(full.as_str()));
            f.put("name", json_nonempty(request.name.as_str()));
            f.put("topic", json_nonempty(request.topic.as_str()));
            f.put("encrypted", crate::json::Json::Bool(encrypted));
            let doc = f.object();
            print_json(&doc, output)
        },
    }
}

/// A room that the user has joined.
#[derive(Debug)]
pub struct JoinedRoom {
    pub room_id: String,
    pub is_direct: bool,
    /// The active members, where they are known.
    pub members: Option<Vec<String>>,
}

/// Whether a room is for direct messages with that user: it has two members, one of them the user.
pub open spec fn is_dm_with(room: JoinedRoom, user: Seq<char>) -> bool {
    room.is_direct && (room.members matches Some(members) && members@.len() == 2 && texts(
        members@,
    ).contains(user))
}

/// The position of the first room for direct messages with that user from a position on.
pub open spec fn dm_room_from(rooms: Seq<JoinedRoom>, user: Seq<char>, i: int) -> Option<int>
    decreases rooms.len() - i,
{
    if i < 0 || i >= rooms.len() {
        None
    } else if is_dm_with(rooms[i], user) {
        Some(i)
    } else {
        dm_room_from(rooms, user, i + 1)
    }
}

/// The room for direct messages with a user that exists already.
pub open spec fn existing_dm(rooms: Seq<JoinedRoom>, user: Seq<char>) -> Option<Seq<char>> {
    if !user_id_ok(user) {
        None
    } else {
        match dm_room_from(rooms, user, 0) {
            Some(i) => Some(rooms[i].room_id@),
            None => None,
        }
    }
}

/// The first room for direct messages with that user.
pub fn find_dm(rooms: &Vec<JoinedRoom>, user: &str) -> (r: Option<usize>)
    ensures
        match r {
            Some(i) => i < rooms.len() && dm_room_from(rooms@, user@, 0) == Some(i as int),
            None => dm_room_from(rooms@, user@, 0) is None,
        },
{
    let mut i: usize = 0;
    while i < rooms.len()
        invariant
            i <= rooms.len(),
            dm_room_from(rooms@, user@, 0) == dm_room_from(rooms@, user@, i as int),
        decreases rooms.len() - i,
    {
        if rooms[i].is_direct {
            if let Some(members) = &rooms[i].members {
                if members.len() == 2 && crate::rooms::list_contains(members, user) {
                    return Some(i);
                }
            }
        }
        i += 1;
    }
    None
}

/// The room for direct messages with a user that exists already. Nothing is looked for where the
/// user id is not valid.
pub fn find_existing_dm(rooms: &Vec<JoinedRoom>, user: &str) -> (r: Option<String>)
    ensures
        opt_text(r) == existing_dm(rooms@, user@),
{
    if !is_user_id(user) {
        return None;
    }
    match find_dm(rooms, user) {
        Some(i) => Some(rooms[i].room_id.clone()),
        None => None,
    }
}

/// The users with whom there is no room for direct messages yet.
pub open spec fn users_without_dm(rooms: Seq<JoinedRoom>, users: Seq<Seq<char>>) -> Seq<Seq<char>>
    decreases users.len(),
{
    if users.len() == 0 {
        users
    } else if existing_dm(rooms, users.last()) is None {
        users_without_dm(rooms, users.drop_last()).push(users.last())
    } else {
        users_without_dm(rooms, users.drop_last())
    }
}

/// What is printed of a room that exists already.
pub open spec fn room_id_printed(room_id: Seq<char>, output: Output) -> Seq<char> {
    match output {
        Output::Text => room_id + "\n"@,
        Output::JsonSpec => Seq::empty(),
        _ => "{\"room_id\": \""@ + room_id + "\"}\n"@,
    }
}

/// What is printed of the rooms for direct messages that exist already.
pub open spec fn existing_printed(
    rooms: Seq<JoinedRoom>,
    users: Seq<Seq<char>>,
    output: Output,
) -> Seq<char>
    decreases users.len(),
{
    if users.len() == 0 {
        Seq::empty()
    } else {
        existing_printed(rooms, users.drop_last(), output) + (match existing_dm(
            rooms,
            users.last(),
        ) {
            Some(id) => room_id_printed(id, output),
            None => Seq::empty(),
        })
    }
}

/// What is printed of a room that exists already.
pub fn print_room_id(room_id: &str, output: Output) -> (out: String)
    ensures
        out@ == room_id_printed(room_id@, output),
{
    match output {
        Output::Text => {
            let mut out = room_id.to_string();
            out.append("\n");
            out
        },
        Output::JsonSpec => String::new(),
        _ => {
            let mut out = "{\"room_id\": \"".to_string();
            out.append(room_id);
            out.append("\"}\n");
            out
        },
    }
}

/// Decides for which users rooms for direct messages are created, and what is printed of those
/// that exist already. With duplicates allowed none is looked for.
pub fn room_dm_create(
    users: &Vec<String>,
    rooms: &Vec<JoinedRoom>,
    allow_duplicates: bool,
    output: Output,
) -> (r: (Vec<String>, String))
    ensures
        texts(r.0@) == (if allow_duplicates {
            texts(users@)
        } else {
            users_without_dm(rooms@, texts(users@))
        }),
        r.1@ == (if allow_duplicates {
            Seq::empty()
        } else {
            existing_printed(rooms@, texts(users@), output)
        }),
{
    if allow_duplicates {
        return (crate::text::copy_texts(users), String::new());
    }
    let mut kept: Vec<String> = Vec::new();
    let mut out = String::new();
    let mut i: usize = 0;
    let ghost all = texts(users@);
    assert(texts(kept@) =~= Seq::empty());
    assert(all.take(0) =~= Seq::empty());
    while i < users.len()
        invariant
            i <= users.len(),
            all == texts(users@),
            texts(kept@) == users_without_dm(rooms@, all.take(i as int)),
            out@ == existing_printed(rooms@, all.take(i as int), output),
        decreases users.len() - i,
    {
        let ghost before = texts(kept@);
        assert(all.take(i + 1).drop_last() =~= all.take(i as int));
        assert(all[i as int] == users@[i as int]@);
        match find_existing_dm(rooms, users[i].as_str()) {
            Some(id) => {
                let line = print_room_id(id.as_str(), output);
                out.append(line.as_str());
            },
            None => {
                kept.push(users[i].clone());
                assert(texts(kept@) =~= before.push(all[i as int]));
            },
        }
        i += 1;
        assert(out@ =~= existing_printed(rooms@, all.take(i as int), output));
    }
    assert(all.take(all.len() as int) =~= all);
    (kept, out)
}

/// A room for direct messages is created for no user with whom there is one already.
pub proof fn law_no_second_dm_room(rooms: Seq<JoinedRoom>, users: Seq<Seq<char>>)
    ensures
        forall|t: Seq<char>|
            users_without_dm(rooms, users).contains(t) <==> users.contains(t) && existing_dm(
                rooms,
                t,
            ) is None,
    decreases users.len(),
{
    if users.len() > 0 {
        law_no_second_dm_room(rooms, users.drop_last());
        let head = users_without_dm(rooms, users.drop_last());
        assert forall|t: Seq<char>|
            users_without_dm(rooms, users).contains(t) <==> users.contains(t) && existing_dm(
                rooms,
                t,
            ) is None by {
            let out = users_without_dm(rooms, users);
            if users.contains(t) && existing_dm(rooms, t) is None {
                let k = choose|k: int| 0 <= k < users.len() && users[k] == t;
                if k < users.len() - 1 {
                    assert(users.drop_last()[k] == t);
                    assert(users.drop_last().contains(t));
                    assert(head.contains(t));
                    let m = choose|m: int| 0 <= m < head.len() && head[m] == t;
                    assert(out[m] == t);
                } else {
                    assert(out[head.len() as int] == t);
                }
            }
            if out.contains(t) {
                let m = choose|m: int| 0 <= m < out.len() && out[m] == t;
                if m < head.len() {
                    assert(head[m] == t);
                    assert(head.contains(t));
                    assert(users.drop_last().contains(t));
                    let k = choose|k: int| 0 <= k < users.drop_last().len() && users.drop_last()[k] == t;
                    assert(users[k] == t);
                } else {
                    assert(users[users.len() - 1] == t);
                }
            }
        }
    }
}

/// No room for direct messages begins with the settings of a public one.
pub proof fn law_dm_rooms_begin_private(
    encrypted: bool,
    users: Seq<Seq<char>>,
    aliases: Seq<Seq<char>>,
    names: Seq<Seq<char>>,
    topics: Seq<Seq<char>>,
    visibility: Visibility,
    i: int,
)
    ensures
        room_order(true, encrypted, users, aliases, names, topics, visibility, i) matches Some(order)
            ==> order.preset != Some(RoomPreset::PublicChat),
{
}

/// Behind the end of the aliases there is no alias.
proof fn lemma_nothing_is_short(aliases: Seq<Seq<char>>, i: int)
    ensures
        !(0 <= i < aliases.len()) ==> short_alias_id(entry_or_empty(aliases, i)).len() == 0,
{
    let none = Seq::<char>::empty();
    assert(without_white(none) =~= none);
    assert(none.take(0) =~= none);
}

/// The request for the room at a position has the entries of the lists at that position as its
/// name, its topic and, in its short form, its alias; what a list does not have is empty. With a
/// room for direct messages the user at that position is invited, and with any other room nobody.
pub proof fn law_request_has_the_entries_of_its_position(
    is_dm: bool,
    encrypted: bool,
    users: Seq<Seq<char>>,
    aliases: Seq<Seq<char>>,
    names: Seq<Seq<char>>,
    topics: Seq<Seq<char>>,
    visibility: Visibility,
    i: int,
)
    requires
        0 <= i,
    ensures
        !is_dm ==> room_order(
            is_dm,
            encrypted,
            users,
            aliases,
            names,
            topics,
            visibility,
            i,
        ) is Some,
        i < users.len() && user_id_ok(users[i]) && !users[i].contains('\\') ==> room_order(
            is_dm,
            encrypted,
            users,
            aliases,
            names,
            topics,
            visibility,
            i,
        ) is Some,
        room_order(
            is_dm,
            encrypted,
            users,
            aliases,
            names,
            topics,
            visibility,
            i,
        ) matches Some(order) ==> {
            &&& order.encrypted == encrypted
            &&& order.is_direct == is_dm
            &&& i < names.len() ==> order.name == names[i]
            &&& i >= names.len() ==> order.name.len() == 0
            &&& i < topics.len() ==> order.topic == topics[i]
            &&& i >= topics.len() ==> order.topic.len() == 0
            &&& i < aliases.len() && short_alias_id(aliases[i]).len() > 0 ==> order.alias == Some(
                short_alias_id(aliases[i]),
            )
            &&& i >= aliases.len() ==> order.alias is None
            &&& !is_dm ==> order.invite is None
            &&& is_dm && i < users.len() && !users[i].contains('\\') ==> order.invite == Some(
                users[i],
            )
            &&& visibility is Public ==> order.visibility == Listing::Public && order.preset == Some(
                if is_dm {
                    RoomPreset::PrivateChat
                } else {
                    RoomPreset::PublicChat
                },
            )
            &&& visibility is Private ==> order.visibility == Listing::Private && order.preset
                == Some(RoomPreset::PrivateChat)
            &&& visibility matches Visibility::Custom(word) ==> order.visibility == Listing::Custom(
                word@,
            ) && order.preset is None
        },
{
    lemma_nothing_is_short(aliases, i);
    if i < users.len() && !users[i].contains('\\') {
        reveal_strlit("\\");
        let sign = "\\"@ + "@"@;
        assert(sign[0] == '\\');
        if occurs(users[i], sign) {
            lemma_occurs_contains(users[i], sign, 0);
        }
        law_absent_text_is_not_replaced(users[i], sign, "@"@);
    }
}

/// The complete alias of a new room begins with a number sign, ends with the server behind a colon
/// and has the alias between; without an alias there is none.
pub proof fn law_alias_is_completed(alias: Seq<char>, server: Seq<char>)
    ensures
        alias.len() == 0 ==> alias_on_server(alias, server).len() == 0,
        alias.len() > 0 ==> ({
            let full = alias_on_server(alias, server);
            let end = ":"@ + server;
            &&& full[0] == '#'
            &&& end.is_suffix_of(full)
            &&& alias.is_suffix_of(full.take(full.len() - end.len()))
            &&& full.len() <= 1 + alias.len() + end.len()
            &&& alias[0] == '#' ==> full.len() == alias.len() + end.len()
        }),
{
    reveal_strlit("#");
    let full = alias_on_server(alias, server);
    let end = ":"@ + server;
    if alias.len() > 0 {
        assert(full.subrange(full.len() - end.len(), full.len() as int) =~= end);
        let front = full.take(full.len() - end.len());
        assert(front.subrange(front.len() - alias.len(), front.len() as int) =~= alias);
    }
}

/// Of a room that was created its id, its aliases, its name and its topic are shown, and that it
/// is encrypted exactly where it was asked for or is so.
pub proof fn law_created_room_is_shown(
    room: CreatedRoom,
    request: RoomOrder,
    alias: Seq<char>,
    truth: Seq<char>,
    server: Seq<char>,
    output: Output,
    sep: Seq<char>,
)
    requires
        request.alias == Some(alias) || request.alias is None && alias.len() == 0,
        room.encrypted || request.encrypted ==> truth == "True"@,
        !room.encrypted && !request.encrypted ==> truth == "False"@,
    ensures
        created_printed(room, request, server, Output::Text, sep) == joined(
            seq![room.room_id@].push(alias).push(or_empty(room.canonical_alias)).push(
                request.name,
            ).push(request.topic).push(truth),
            sep,
        ) + "\n"@,
        output != Output::Text ==> exists|doc: JsonDoc|
            {
                &&& created_printed(room, request, server, output, sep) == #[trigger] printed(
                    doc,
                    output,
                )
                &&& has_fields(doc, 6)
                &&& has_field(doc, "room_id"@, JsonDoc::Text(room.room_id@))
                &&& alias.len() > 0 ==> has_field(doc, "alias"@, JsonDoc::Text(alias))
                &&& alias.len() > 0 ==> has_field(
                    doc,
                    "alias_full"@,
                    JsonDoc::Text(alias_on_server(alias, server)),
                )
                &&& alias.len() == 0 ==> has_field(doc, "alias"@, JsonDoc::Null)
                &&& alias.len() == 0 ==> has_field(doc, "alias_full"@, JsonDoc::Null)
                &&& request.name.len() > 0 ==> has_field(doc, "name"@, JsonDoc::Text(request.name))
                &&& request.name.len() == 0 ==> has_field(doc, "name"@, JsonDoc::Null)
                &&& request.topic.len() > 0 ==> has_field(
                    doc,
                    "topic"@,
                    JsonDoc::Text(request.topic),
                )
                &&& request.topic.len() == 0 ==> has_field(doc, "topic"@, JsonDoc::Null)
                &&& has_field(
                    doc,
                    "encrypted"@,
                    JsonDoc::Bool(room.encrypted || request.encrypted),
                )
            },
{
    let given = match request.alias {
        Some(a) => a,
        None => Seq::empty(),
    };
    assert(given =~= alias);
    let full = alias_on_server(alias, server);
    law_alias_is_completed(alias, server);
    let canonical = or_empty(room.canonical_alias);
    let five = seq![room.room_id@].push(alias).push(canonical).push(request.name).push(
        request.topic,
    );
    lemma_joined_five(room.room_id@, alias, canonical, request.name, request.topic, sep);
    assert(five.push(truth).drop_last() =~= five);
    let items = seq![("room_id"@, JsonDoc::Text(room.room_id@))].push(
        ("alias"@, nonempty_or_null(alias)),
    ).push(("alias_full"@, nonempty_or_null(full))).push(("name"@, nonempty_or_null(request.name))).push(
        ("topic"@, nonempty_or_null(request.topic)),
    ).push(("encrypted"@, JsonDoc::Bool(room.encrypted || request.encrypted)));
    lemma_has_field(items, 0);
    lemma_has_field(items, 1);
    lemma_has_field(items, 2);
    lemma_has_field(items, 3);
    lemma_has_field(items, 4);
    lemma_has_field(items, 5);
    if output != Output::Text {
        assert(created_printed(room, request, server, output, sep) == printed(
            JsonDoc::Object(items),
            output,
        ));
    }
}

/// The room for direct messages that is found is the first that has two members, of whom the user
/// is one; none is found only where there is no such room.
pub proof fn law_first_dm_room_is_found(rooms: Seq<JoinedRoom>, user: Seq<char>)
    requires
        user_id_ok(user),
    ensures
        existing_dm(rooms, user) is None ==> forall|i: int|
            0 <= i < rooms.len() ==> !((#[trigger] rooms[i]).is_direct && (
            rooms[i].members matches Some(members) && members@.len() == 2 && texts(
                members@,
            ).contains(user))),
        existing_dm(rooms, user) matches Some(id) ==> exists|i: int|
            {
                &&& 0 <= i < rooms.len()
                &&& id == (#[trigger] rooms[i]).room_id@
                &&& rooms[i].is_direct
                &&& rooms[i].members matches Some(members)
                &&& members@.len() == 2
                &&& texts(members@).contains(user)
                &&& forall|j: int| 0 <= j < i ==> !is_dm_with(#[trigger] rooms[j], user)
            },
{
    lemma_dm_room_from(rooms, user, 0);
    assert forall|i: int| 0 <= i < rooms.len() && dm_room_from(rooms, user, 0) is None implies !((
    #[trigger] rooms[i]).is_direct && (rooms[i].members matches Some(members) && members@.len() == 2
        && texts(members@).contains(user))) by {
        assert(!is_dm_with(rooms[i], user));
    }
    if existing_dm(rooms, user) is Some {
        let i = dm_room_from(rooms, user, 0)->0;
        assert(is_dm_with(rooms[i], user));
    }
}

/// The first room is looked for from a position on.
proof fn lemma_dm_room_from(rooms: Seq<JoinedRoom>, user: Seq<char>, k: int)
    requires
        0 <= k,
    ensures
        match dm_room_from(rooms, user, k) {
            Some(i) => k <= i < rooms.len() && is_dm_with(rooms[i], user) && forall|j: int|
                k <= j < i ==> !is_dm_with(#[trigger] rooms[j], user),
            None => forall|j: int| k <= j < rooms.len() ==> !is_dm_with(#[trigger] rooms[j], user),
        },
    decreases rooms.len() - k,
{
    if k < rooms.len() && !is_dm_with(rooms[k], user) {
        lemma_dm_room_from(rooms, user, k + 1);
    }
}

/// A new room is wanted for each user without one, in the order of the users, and the rooms that
/// exist are printed in that order; each user is looked at alone.
pub proof fn law_each_dm_user_alone(
    rooms: Seq<JoinedRoom>,
    a: Seq<Seq<char>>,
    b: Seq<Seq<char>>,
    user: Seq<char>,
    output: Output,
)
    ensures
        users_without_dm(rooms, a + b) == users_without_dm(rooms, a) + users_without_dm(rooms, b),
        existing_printed(rooms, a + b, output) == existing_printed(rooms, a, output)
            + existing_printed(rooms, b, output),
        match existing_dm(rooms, user) {
            Some(id) => {
                &&& users_without_dm(rooms, seq![user]) == Seq::<Seq<char>>::empty()
                &&& existing_printed(rooms, seq![user], Output::Text) == id + "\n"@
                &&& existing_printed(rooms, seq![user], Output::JsonSpec) == Seq::<char>::empty()
                &&& existing_printed(rooms, seq![user], Output::Json) == "{\"room_id\": \""@ + id
                    + "\"}\n"@
                &&& existing_printed(rooms, seq![user], Output::JsonMax) == "{\"room_id\": \""@ + id
                    + "\"}\n"@
            },
            None => users_without_dm(rooms, seq![user]) == seq![user] && existing_printed(
                rooms,
                seq![user],
                output,
            ) == Seq::<char>::empty(),
        },
    decreases b.len(),
{
    let none = Seq::<Seq<char>>::empty();
    assert(seq![user].drop_last() =~= none);
    assert(users_without_dm(rooms, none) =~= none);
    assert(none.push(user) =~= seq![user]);
    if let Some(id) = existing_dm(rooms, user) {
        assert(existing_printed(rooms, none, Output::Text) =~= Seq::empty());
        assert(existing_printed(rooms, none, Output::Json) =~= Seq::empty());
        assert(existing_printed(rooms, none, Output::JsonMax) =~= Seq::empty());
        assert(existing_printed(rooms, none, Output::JsonSpec) =~= Seq::empty());
        assert(existing_printed(rooms, seq![user], Output::Text) =~= id + "\n"@);
        assert(existing_printed(rooms, seq![user], Output::Json) =~= "{\"room_id\": \""@ + id
            + "\"}\n"@);
        assert(existing_printed(rooms, seq![user], Output::JsonMax) =~= "{\"room_id\": \""@ + id
            + "\"}\n"@);
    } else {
        assert(existing_printed(rooms, none, output) =~= Seq::empty());
    }
    if b.len() == 0 {
        assert(a + b =~= a);
        assert(users_without_dm(rooms, a) + users_without_dm(rooms, b) =~= users_without_dm(
            rooms,
            a,
        ));
        assert(existing_printed(rooms, a, output) + existing_printed(rooms, b, output)
            =~= existing_printed(rooms, a, output));
    } else {
        law_each_dm_user_alone(rooms, a, b.drop_last(), user, output);
        assert((a + b).drop_last() =~= a + b.drop_last());
        assert((a + b).last() == b.last());
        assert(users_without_dm(rooms, a + b) =~= users_without_dm(rooms, a) + users_without_dm(
            rooms,
            b,
        ));
        assert(existing_printed(rooms, a + b, output) =~= existing_printed(rooms, a, output)
            + existing_printed(rooms, b, output));
    }
}

/// What is asked for decides whether a room is encrypted; where nothing is, all rooms are but the
/// public ones.
pub proof fn law_private_rooms_are_encrypted(
    visibility: &Visibility,
    plain: Option<bool>,
    r: bool,
)
    requires
        call_ensures(should_encrypt, (visibility, plain), r),
    ensures
        plain matches Some(p) ==> r != p,
        plain is None ==> (r <==> !(*visibility is Public)),
{
}

/// With duplicates allowed a new room is wanted for every user and nothing is printed; otherwise
/// one is wanted for every user without a room.
pub proof fn law_duplicates_where_allowed(
    users: &Vec<String>,
    rooms: &Vec<JoinedRoom>,
    output: Output,
    r: (Vec<String>, String),
    s: (Vec<String>, String),
    t: Seq<char>,
)
    requires
        call_ensures(room_dm_create, (users, rooms, true, output), r),
        call_ensures(room_dm_create, (users, rooms, false, output), s),
    ensures
        texts(r.0@) == texts(users@),
        r.1@.len() == 0,
        texts(s.0@).contains(t) <==> texts(users@).contains(t) && existing_dm(rooms@, t) is None,
{
    law_no_second_dm_room(rooms@, texts(users@));
    let wanted = users_without_dm(rooms@, texts(users@));
    assert(wanted.contains(t) <==> texts(users@).contains(t) && existing_dm(rooms@, t) is None);
    assert(texts(s.0@) == wanted);
}

} // verus!
