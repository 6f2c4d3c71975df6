//! The rooms for direct messages that the user has joined.

use vstd::prelude::*;

use crate::account::{or_empty, text_or_empty};
use crate::json::{
    array_of, compact_text, docs, has_field, has_fields, lemma_has_field, print_line, Fields, Json,
    JsonDoc,
};
use crate::room_info::{comes_before, lemma_text_order, text_less, Member};
use crate::text::{joined, lemma_joined_two, same_text, texts, trim, trim_end, trimmed, trimmed_end};
use crate::types::{Error, Output};

verus! {

/// A room that the user has joined, with its members where they are known.
#[derive(Debug)]
pub struct RoomMembers {
    pub room_id: String,
    pub members: Option<Vec<Member>>,
}

/// What a room is: one for direct messages with a user, one that is not for them, or one of which
/// that cannot be told.
pub enum DmKind {
    With(Seq<char>),
    Other,
    Unknown,
}

/// What a room is to the user. A room for direct messages has two members, one of them the user.
pub open spec fn dm_kind(room: RoomMembers, own: Seq<char>) -> DmKind {
    match room.members {
        None => DmKind::Unknown,
        Some(m) => if m@.len() != 2 {
            DmKind::Other
        } else if m@[0].user_id@ == own {
            DmKind::With(m@[1].user_id@)
        } else if m@[1].user_id@ == own {
            DmKind::With(m@[0].user_id@)
        } else {
            DmKind::Unknown
        },
    }
}

/// Whether a user is asked for: by name, or because all are.
pub open spec fn is_wanted(users: Seq<Seq<char>>, user: Seq<char>) -> bool {
    exists|i: int|
        0 <= i < users.len() && (trimmed(#[trigger] users[i]) == "*"@ || trimmed(users[i]) == user)
}

/// Whether the rooms at these positions come in the order in which they are printed: by the other
/// user, and by position for one user.
pub open spec fn before(
    rooms: Seq<RoomMembers>,
    own: Seq<char>,
    i: int,
    j: int,
) -> bool {
    let a = dm_kind(rooms[i], own)->With_0;
    let b = dm_kind(rooms[j], own)->With_0;
    text_less(a, b) || (a == b && i < j)
}

/// The positions with one more room put at its place.
pub open spec fn placed(rooms: Seq<RoomMembers>, own: Seq<char>, list: Seq<int>, k: int) -> Seq<int>
    decreases list.len(),
{
    if list.len() == 0 || text_less(
        dm_kind(rooms[k], own)->With_0,
        dm_kind(rooms[list[0]], own)->With_0,
    ) {
        seq![k] + list
    } else {
        seq![list[0]] + placed(rooms, own, list.skip(1), k)
    }
}

/// The positions of the rooms that are printed among the first `n`, in their order.
pub open spec fn dm_order(
    rooms: Seq<RoomMembers>,
    own: Seq<char>,
    users: Seq<Seq<char>>,
    n: nat,
) -> Seq<int>
    decreases n,
{
    if n == 0 {
        Seq::empty()
    } else {
        let head = dm_order(rooms, own, users, (n - 1) as nat);
        match dm_kind(rooms[n - 1], own) {
            DmKind::With(user) => if is_wanted(users, user) {
                placed(rooms, own, head, n - 1)
            } else {
                head
            },
            _ => head,
        }
    }
}

/// The other member of a room for direct messages.
#[derive(Debug)]
pub enum DmPartner {
    With(String),
    Other,
    Unknown,
}

/// What a room is to the user.
pub fn dm_partner(room: &RoomMembers, own: &str) -> (r: DmPartner)
    ensures
        match r {
            DmPartner::With(u) => dm_kind(*room, own@) == DmKind::With(u@),
            DmPartner::Other => dm_kind(*room, own@) is Other,
            DmPartner::Unknown => dm_kind(*room, own@) is Unknown,
        },
{
    match &room.members {
        None => DmPartner::Unknown,
        Some(m) => if m.len() != 2 {
            DmPartner::Other
        } else if same_text(m[0].user_id.as_str(), own) {
            DmPartner::With(m[1].user_id.clone())
        } else if same_text(m[1].user_id.as_str(), own) {
            DmPartner::With(m[0].user_id.clone())
        } else {
            DmPartner::Unknown
        },
    }
}

/// Whether a user is asked for.
pub fn wants_user(users: &Vec<String>, user: &str) -> (r: bool)
    ensures
        r == is_wanted(texts(users@), user@),
{
    let mut i: usize = 0;
    while i < users.len()
        invariant
            i <= users.len(),
            forall|j: int|
                0 <= j < i ==> trimmed(#[trigger] texts(users@)[j]) != "*"@ && trimmed(
                    texts(users@)[j],
                ) != user@,
        decreases users.len() - i,
    {
        assert(texts(users@)[i as int] == users@[i as int]@);
        let t = trim(users[i].as_str());
        if same_text(t.as_str(), "*") || same_text(t.as_str(), user) {
            return true;
        }
        i += 1;
    }
    false
}

/// A room that is printed: its position and the other user.
struct Entry {
    at: usize,
    user: String,
}

/// The positions of entries.
spec fn entry_positions(list: Seq<Entry>) -> Seq<int> {
    list.map_values(|e: Entry| e.at as int)
}

/// Puts a room at its place.
fn place(
    list: &mut Vec<Entry>,
    e: Entry,
    Ghost(rooms): Ghost<Seq<RoomMembers>>,
    Ghost(own): Ghost<Seq<char>>,
)
    requires
        dm_kind(rooms[e.at as int], own) == DmKind::With(e.user@),
        forall|j: int|
            0 <= j < old(list)@.len() ==> dm_kind(rooms[(#[trigger] old(list)@[j]).at as int], own)
                == DmKind::With(old(list)@[j].user@),
    ensures
        entry_positions(final(list)@) == placed(
            rooms,
            own,
            entry_positions(old(list)@),
            e.at as int,
        ),
        forall|j: int|
            0 <= j < final(list)@.len() ==> dm_kind(
                rooms[(#[trigger] final(list)@[j]).at as int],
                own,
            ) == DmKind::With(final(list)@[j].user@),
{
    let ghost all = entry_positions(list@);
    let ghost k = e.at as int;
    let mut i: usize = 0;
    assert(all.skip(0) =~= all);
    assert(all.take(0) + placed(rooms, own, all, k) =~= placed(rooms, own, all, k));
    while i < list.len() && !comes_before(e.user.as_str(), list[i].user.as_str())
        invariant
            i <= list.len(),
            *list == *old(list),
            all == entry_positions(list@),
            k == e.at as int,
            dm_kind(rooms[k], own) == DmKind::With(e.user@),
            forall|j: int|
                0 <= j < list@.len() ==> dm_kind(rooms[(#[trigger] list@[j]).at as int], own)
                    == DmKind::With(list@[j].user@),
            all.take(i as int) + placed(rooms, own, all.skip(i as int), k) == placed(
                rooms,
                own,
                all,
                k,
            ),
        decreases list.len() - i,
    {
        let ghost rest = all.skip(i as int);
        assert(rest[0] == list@[i as int].at as int);
        assert(rest.skip(1) =~= all.skip(i + 1));
        assert(all.take(i as int) + (seq![rest[0]] + placed(rooms, own, all.skip(i + 1), k))
            =~= all.take(i + 1) + placed(rooms, own, all.skip(i + 1), k));
        i += 1;
    }
    let ghost rest = all.skip(i as int);
    assert(i < list.len() ==> rest[0] == list@[i as int].at as int);
    let ghost before_insert = list@;
    list.insert(i, e);
    assert(entry_positions(list@) =~= all.take(i as int) + (seq![k] + rest));
    assert forall|j: int| 0 <= j < list@.len() implies dm_kind(
        rooms[(#[trigger] list@[j]).at as int],
        own,
    ) == DmKind::With(list@[j].user@) by {
        if j < i {
            assert(list@[j] == before_insert[j]);
        } else if j > i {
            assert(list@[j] == before_insert[j - 1]);
        }
    }
}

/// A member in the list of the members of a room.
pub open spec fn dm_member_doc(m: Member) -> JsonDoc {
    JsonDoc::Object(
        seq![("user_id"@, JsonDoc::Text(m.user_id@))].push(("display_name"@, JsonDoc::Text(or_empty(m.display_name)))).push(("avatar_url"@, JsonDoc::Text(or_empty(m.avatar_url)))),
    )
}

/// The columns for the first `n` members.
pub open spec fn member_columns(members: Seq<Member>, sep: Seq<char>, n: nat) -> Seq<char>
    decreases n,
{
    if n == 0 {
        Seq::empty()
    } else {
        let m = members[n - 1];
        member_columns(members, sep, (n - 1) as nat) + sep + m.user_id@ + sep + or_empty(
            m.display_name,
        ) + sep + or_empty(m.avatar_url)
    }
}

/// What is printed of a room for direct messages with a user.
pub open spec fn dm_printed(
    user: Seq<char>,
    room_id: Seq<char>,
    members: Seq<Member>,
    output: Output,
    sep: Seq<char>,
) -> Seq<char> {
    match output {
        Output::Text => trimmed_end(
            user + sep + room_id + member_columns(members, sep, members.len()),
        ) + "\n"@,
        _ => compact_text(
            JsonDoc::Object(
                seq![("user_id"@, JsonDoc::Text(user))].push(("room_id"@, JsonDoc::Text(room_id))).push(("members"@, JsonDoc::Array(members.map_values(|m: Member| dm_member_doc(m))))),
            ),
        ) + "\n"@,
    }
}

/// What is printed of a room for direct messages with a user.
pub fn print_dm_room(
    user: &str,
    room_id: &str,
    members: &Vec<Member>,
    output: Output,
    sep: &str,
) -> (out: String)
    ensures
        out@ == dm_printed(user@, room_id@, members@, output, sep@),
{
    match output {
        Output::Text => {
            let mut line = user.to_string();
            line.append(sep);
            line.append(room_id);
            let ghost start = line@;
            let mut i: usize = 0;
            assert(line@ =~= start + member_columns(members@, sep@, 0));
            while i < members.len()
                invariant
                    i <= members.len(),
                    line@ == start + member_columns(members@, sep@, i as nat),
                decreases members.len() - i,
            {
                line.append(sep);
                line.append(members[i].user_id.as_str());
                line.append(sep);
                line.append(text_or_empty(&members[i].display_name));
                line.append(sep);
                line.append(text_or_empty(&members[i].avatar_url));
                i += 1;
                assert(line@ =~= start + member_columns(members@, sep@, i as nat));
            }
            let mut out = trim_end(line.as_str());
            out.append("\n");
            out
        },
        _ => {
            let mut items: Vec<Json> = Vec::new();
            let mut i: usize = 0;
            while i < members.len()
                invariant
                    i <= members.len(),
                    items.len() == i,
                    forall|j: int|
                        0 <= j < i ==> (#[trigger] items@[j])@ == dm_member_doc(members@[j]),
                decreases members.len() - i,
            {
                let mut f = Fields::new();
                f.put_text("user_id", members[i].user_id.as_str());
                f.put_text("display_name", text_or_empty(&members[i].display_name));
                f.put_text("avatar_url", text_or_empty(&members[i].avatar_url));
                items.push(f.object());
                i += 1;
            }
            assert(docs(items@) =~= members@.map_values(|m: Member| dm_member_doc(m)));
            let mut f = Fields::new();
            f.put_text("user_id", user);
            f.put_text("room_id", room_id);
            f.put("members", array_of(items));
            let doc = f.object();
            print_line(&doc)
        },
    }
}

/// The members of a room, none where they are not known.
pub open spec fn members_of(room: RoomMembers) -> Seq<Member> {
    match room.members {
        Some(m) => m@,
        None => Seq::empty(),
    }
}

/// What is printed of the rooms at these positions.
pub open spec fn dms_printed(
    rooms: Seq<RoomMembers>,
    own: Seq<char>,
    order: Seq<int>,
    output: Output,
    sep: Seq<char>,
) -> Seq<char>
    decreases order.len(),
{
    if order.len() == 0 {
        Seq::empty()
    } else {
        let room = rooms[order.last()];
        dms_printed(rooms, own, order.drop_last(), output, sep) + dm_printed(
            dm_kind(room, own)->With_0,
            room.room_id@,
            members_of(room),
            output,
            sep,
        )
    }
}

/// Whether of some room it cannot be told whether it is for direct messages.
pub open spec fn some_unknown(rooms: Seq<RoomMembers>, own: Seq<char>) -> bool {
    exists|i: int| 0 <= i < rooms.len() && dm_kind(#[trigger] rooms[i], own) is Unknown
}

/// What is printed of the joined rooms for direct messages with the users that are asked for, and
/// the result. An asterisk asks for all users. The rooms come in the order of the other users'
/// ids. Nothing is done where no user is asked for.
pub fn joined_dm_rooms(
    users: &Vec<String>,
    rooms: &Vec<RoomMembers>,
    own: &str,
    output: Output,
    sep: &str,
) -> (r: (String, Result<(), Error>))
    ensures
        users@.len() == 0 ==> r.0@ == Seq::<char>::empty() && r.1 is Ok,
        users@.len() > 0 ==> {
            &&& r.0@ == dms_printed(
                rooms@,
                own@,
                dm_order(rooms@, own@, texts(users@), rooms@.len()),
                output,
                sep@,
            )
            &&& !some_unknown(rooms@, own@) ==> r.1 is Ok
            &&& some_unknown(rooms@, own@) ==> (r.1 matches Err(e) && e
                == Error::JoinedDmRoomsFailed)
        },
{
    if users.len() == 0 {
        return (String::new(), Ok(()));
    }
    let mut failed = false;
    let mut list: Vec<Entry> = Vec::new();
    let mut i: usize = 0;
    assert(entry_positions(list@) =~= Seq::empty());
    while i < rooms.len()
        invariant
            i <= rooms.len(),
            entry_positions(list@) == dm_order(rooms@, own@, texts(users@), i as nat),
            forall|j: int|
                0 <= j < list@.len() ==> (#[trigger] list@[j]).at < rooms.len() && dm_kind(
                    rooms@[list@[j].at as int],
                    own@,
                ) == DmKind::With(list@[j].user@),
            failed == exists|j: int|
                0 <= j < i && dm_kind(#[trigger] rooms@[j], own@) is Unknown,
        decreases rooms.len() - i,
    {
        match dm_partner(&rooms[i], own) {
            DmPartner::With(user) => {
                if wants_user(users, user.as_str()) {
                    let ghost old_list = list@;
                    place(&mut list, Entry { at: i, user }, Ghost(rooms@), Ghost(own@));
                    assert forall|j: int| 0 <= j < list@.len() implies (#[trigger] list@[j]).at
                        < rooms.len() by {
                        assert(entry_positions(list@)[j] == list@[j].at as int);
                        lemma_placed_from(
                            rooms@,
                            own@,
                            entry_positions(old_list),
                            i as int,
                            rooms@.len() as int,
                        );
                    }
                }
            },
            DmPartner::Other => {},
            DmPartner::Unknown => {
                failed = true;
            },
        }
        i += 1;
    }
    let ghost order = entry_positions(list@);
    let mut out = String::new();
    let mut k: usize = 0;
    assert(order.take(0) =~= Seq::empty());
    while k < list.len()
        invariant
            k <= list.len(),
            order == entry_positions(list@),
            forall|j: int|
                0 <= j < list@.len() ==> (#[trigger] list@[j]).at < rooms.len() && dm_kind(
                    rooms@[list@[j].at as int],
                    own@,
                ) == DmKind::With(list@[j].user@),
            out@ == dms_printed(rooms@, own@, order.take(k as int), output, sep@),
        decreases list.len() - k,
    {
        let at = list[k].at;
        assert(order.take(k + 1).drop_last() =~= order.take(k as int));
        assert(order[k as int] == at as int);
        if let Some(members) = &rooms[at].members {
            let line = print_dm_room(
                list[k].user.as_str(),
                rooms[at].room_id.as_str(),
                members,
                output,
                sep,
            );
            out.append(line.as_str());
        }
        k += 1;
    }
    assert(order.take(order.len() as int) =~= order);
    if failed {
        (out, Err(Error::JoinedDmRoomsFailed))
    } else {
        (out, Ok(()))
    }
}

/// Placing keeps positions below a bound.
proof fn lemma_placed_from(rooms: Seq<RoomMembers>, own: Seq<char>, list: Seq<int>, k: int, n: int)
    requires
        k < n,
        forall|j: int| 0 <= j < list.len() ==> #[trigger] list[j] < n,
    ensures
        forall|j: int|
            0 <= j < placed(rooms, own, list, k).len() ==> #[trigger] placed(rooms, own, list, k)[j]
                < n,
    decreases list.len(),
{
    let out = placed(rooms, own, list, k);
    if list.len() > 0 && !text_less(
        dm_kind(rooms[k], own)->With_0,
        dm_kind(rooms[list[0]], own)->With_0,
    ) {
        assert forall|j: int| 0 <= j < list.skip(1).len() implies #[trigger] list.skip(1)[j] < n by {
            assert(list.skip(1)[j] == list[j + 1]);
        }
        lemma_placed_from(rooms, own, list.skip(1), k, n);
        let tail = placed(rooms, own, list.skip(1), k);
        assert forall|j: int| 0 <= j < out.len() implies #[trigger] out[j] < n by {
            if j > 0 {
                assert(out[j] == tail[j - 1]);
            }
        }
    } else {
        assert forall|j: int| 0 <= j < out.len() implies #[trigger] out[j] < n by {
            if j > 0 {
                assert(out[j] == list[j - 1]);
            }
        }
    }
}

/// Whether positions come in the order in which their rooms are printed.
pub open spec fn in_order(rooms: Seq<RoomMembers>, own: Seq<char>, order: Seq<int>) -> bool {
    forall|a: int, b: int|
        0 <= a < b < order.len() ==> before(rooms, own, #[trigger] order[a], #[trigger] order[b])
}

/// Placing a later room keeps the order, and brings in nothing but that room.
proof fn lemma_placed_in_order(rooms: Seq<RoomMembers>, own: Seq<char>, list: Seq<int>, k: int)
    requires
        in_order(rooms, own, list),
        forall|j: int| 0 <= j < list.len() ==> #[trigger] list[j] < k,
    ensures
        in_order(rooms, own, placed(rooms, own, list, k)),
        forall|j: int|
            0 <= j < placed(rooms, own, list, k).len() ==> #[trigger] placed(rooms, own, list, k)[j]
                == k || list.contains(placed(rooms, own, list, k)[j]),
    decreases list.len(),
{
    let out = placed(rooms, own, list, k);
    let user = dm_kind(rooms[k], own)->With_0;
    if list.len() == 0 || text_less(user, dm_kind(rooms[list[0]], own)->With_0) {
        assert forall|a: int, b: int| 0 <= a < b < out.len() implies before(
            rooms,
            own,
            #[trigger] out[a],
            #[trigger] out[b],
        ) by {
            assert(out[b] == list[b - 1]);
            if a > 0 {
                assert(out[a] == list[a - 1]);
            } else if b > 1 {
                assert(before(rooms, own, list[0], list[b - 1]));
                lemma_text_order(
                    user,
                    dm_kind(rooms[list[0]], own)->With_0,
                    dm_kind(rooms[list[b - 1]], own)->With_0,
                );
            }
        }
        assert forall|j: int| 0 <= j < out.len() implies #[trigger] out[j] == k || list.contains(
            out[j],
        ) by {
            if j > 0 {
                assert(out[j] == list[j - 1]);
            }
        }
    } else {
        let rest = list.skip(1);
        let tail = placed(rooms, own, rest, k);
        assert forall|a: int, b: int| 0 <= a < b < rest.len() implies before(
            rooms,
            own,
            #[trigger] rest[a],
            #[trigger] rest[b],
        ) by {
            assert(rest[a] == list[a + 1]);
            assert(rest[b] == list[b + 1]);
        }
        assert forall|j: int| 0 <= j < rest.len() implies #[trigger] rest[j] < k by {
            assert(rest[j] == list[j + 1]);
        }
        lemma_placed_in_order(rooms, own, rest, k);
        let first = dm_kind(rooms[list[0]], own)->With_0;
        lemma_text_order(first, user, user);
        assert(before(rooms, own, list[0], k));
        assert forall|a: int, b: int| 0 <= a < b < out.len() implies before(
            rooms,
            own,
            #[trigger] out[a],
            #[trigger] out[b],
        ) by {
            assert(out[b] == tail[b - 1]);
            if a > 0 {
                assert(out[a] == tail[a - 1]);
            } else if tail[b - 1] != k {
                let m = choose|m: int| 0 <= m < rest.len() && rest[m] == tail[b - 1];
                assert(rest[m] == list[m + 1]);
                assert(before(rooms, own, list[0], list[m + 1]));
            }
        }
        assert forall|j: int| 0 <= j < out.len() implies #[trigger] out[j] == k || list.contains(
            out[j],
        ) by {
            if j > 0 {
                assert(out[j] == tail[j - 1]);
                if tail[j - 1] != k {
                    let m = choose|m: int| 0 <= m < rest.len() && rest[m] == tail[j - 1];
                    assert(list[m + 1] == out[j]);
                }
            } else {
                assert(list[0] == out[0]);
            }
        }
    }
}

/// Putting a room at its place adds that room and no other.
proof fn lemma_placed_adds(rooms: Seq<RoomMembers>, own: Seq<char>, list: Seq<int>, k: int, x: int)
    ensures
        placed(rooms, own, list, k).contains(x) <==> x == k || list.contains(x),
    decreases list.len(),
{
    let out = placed(rooms, own, list, k);
    if list.len() == 0 || text_less(
        dm_kind(rooms[k], own)->With_0,
        dm_kind(rooms[list[0]], own)->With_0,
    ) {
        assert(out[0] == k);
        assert(out.skip(1) =~= list);
        if list.contains(x) {
            let j = choose|j: int| 0 <= j < list.len() && list[j] == x;
            assert(out[j + 1] == x);
        }
        if out.contains(x) && x != k {
            let j = choose|j: int| 0 <= j < out.len() && out[j] == x;
            assert(list[j - 1] == x);
        }
    } else {
        let rest = list.skip(1);
        let tail = placed(rooms, own, rest, k);
        lemma_placed_adds(rooms, own, rest, k, x);
        assert(out[0] == list[0]);
        if tail.contains(x) {
            let j = choose|j: int| 0 <= j < tail.len() && tail[j] == x;
            assert(out[j + 1] == x);
        }
        if rest.contains(x) {
            let j = choose|j: int| 0 <= j < rest.len() && rest[j] == x;
            assert(list[j + 1] == x);
        }
        if list.contains(x) {
            let j = choose|j: int| 0 <= j < list.len() && list[j] == x;
            if j > 0 {
                assert(rest[j - 1] == x);
            }
        }
        if out.contains(x) {
            let j = choose|j: int| 0 <= j < out.len() && out[j] == x;
            if j > 0 {
                assert(tail[j - 1] == x);
            }
        }
    }
}

/// Whether the room at a position is one for direct messages with a user that is asked for.
pub open spec fn is_listed(
    rooms: Seq<RoomMembers>,
    own: Seq<char>,
    users: Seq<Seq<char>>,
    k: int,
) -> bool {
    dm_kind(rooms[k], own) matches DmKind::With(user) && is_wanted(users, user)
}

/// The rooms that are printed are those for direct messages with a user that is asked for, and no
/// others.
proof fn lemma_dm_rooms_listed(
    rooms: Seq<RoomMembers>,
    own: Seq<char>,
    users: Seq<Seq<char>>,
    n: nat,
    k: int,
)
    ensures
        dm_order(rooms, own, users, n).contains(k) <==> 0 <= k < n && is_listed(rooms, own, users, k),
    decreases n,
{
    if n > 0 {
        lemma_dm_rooms_listed(rooms, own, users, (n - 1) as nat, k);
        lemma_placed_adds(rooms, own, dm_order(rooms, own, users, (n - 1) as nat), n - 1, k);
    }
}

/// The rooms that are printed are those for direct messages with a user that is asked for, each
/// of them once. They come in the order of the other users' ids, and the rooms with one user in
/// the order in which they are known.
pub proof fn law_dm_rooms_in_order(
    rooms: Seq<RoomMembers>,
    own: Seq<char>,
    users: Seq<Seq<char>>,
    n: nat,
)
    ensures
        in_order(rooms, own, dm_order(rooms, own, users, n)),
        forall|j: int|
            0 <= j < dm_order(rooms, own, users, n).len() ==> #[trigger] dm_order(
                rooms,
                own,
                users,
                n,
            )[j] < n,
        forall|k: int|
            #[trigger] dm_order(rooms, own, users, n).contains(k) <==> 0 <= k < n && is_listed(
                rooms,
                own,
                users,
                k,
            ),
        dm_order(rooms, own, users, n).no_duplicates(),
    decreases n,
{
    let order = dm_order(rooms, own, users, n);
    assert forall|k: int| #[trigger] order.contains(k) <==> 0 <= k < n && is_listed(
        rooms,
        own,
        users,
        k,
    ) by {
        lemma_dm_rooms_listed(rooms, own, users, n, k);
    }
    if n > 0 {
        let head = dm_order(rooms, own, users, (n - 1) as nat);
        law_dm_rooms_in_order(rooms, own, users, (n - 1) as nat);
        if let DmKind::With(user) = dm_kind(rooms[n - 1], own) {
            if is_wanted(users, user) {
                lemma_placed_in_order(rooms, own, head, n - 1);
                lemma_placed_from(rooms, own, head, n - 1, n as int);
            }
        }
    }
    assert forall|i: int, j: int| 0 <= i < j < order.len() implies order[i] != order[j] by {
        assert(before(rooms, own, order[i], order[j]));
        let user = dm_kind(rooms[order[i]], own)->With_0;
        lemma_text_order(user, user, user);
    }
}

/// A room is for direct messages with the other of its two members, whichever of them comes first;
/// with more or fewer members it is not for them, and where the members are not known, or none of
/// the two is the user, that cannot be told.
pub proof fn law_the_other_member_counts(room: RoomMembers, own: Seq<char>)
    ensures
        room.members is None ==> dm_kind(room, own) is Unknown,
        room.members matches Some(m) ==> {
            &&& m@.len() != 2 ==> dm_kind(room, own) is Other
            &&& m@.len() == 2 && m@[0].user_id@ == own ==> dm_kind(room, own) == DmKind::With(
                m@[1].user_id@,
            )
            &&& m@.len() == 2 && m@[1].user_id@ == own && m@[0].user_id@ != own ==> dm_kind(room, own)
                == DmKind::With(m@[0].user_id@)
            &&& m@.len() == 2 && m@[1].user_id@ != own && m@[0].user_id@ != own ==> dm_kind(
                room,
                own,
            ) is Unknown
        },
{
}

/// A user is asked for by an entry that is, without white space around it, the user or an
/// asterisk, and by nothing else.
pub proof fn law_wanted_by_some_entry(users: Seq<Seq<char>>, entry: Seq<char>, user: Seq<char>)
    ensures
        !is_wanted(Seq::empty(), user),
        is_wanted(users.push(entry), user) <==> is_wanted(users, user) || trimmed(entry) == "*"@
            || trimmed(entry) == user,
{
    let more = users.push(entry);
    if is_wanted(users, user) {
        let i = choose|i: int|
            0 <= i < users.len() && (trimmed(#[trigger] users[i]) == "*"@ || trimmed(users[i])
                == user);
        assert(more[i] == users[i]);
    }
    if trimmed(entry) == "*"@ || trimmed(entry) == user {
        assert(more[users.len() as int] == entry);
    }
    if is_wanted(more, user) {
        let i = choose|i: int|
            0 <= i < more.len() && (trimmed(#[trigger] more[i]) == "*"@ || trimmed(more[i])
                == user);
        if i < users.len() {
            assert(users[i] == more[i]);
        }
    }
}

/// The columns of a room for direct messages, with those of its members.
pub open spec fn dm_columns(user: Seq<char>, room_id: Seq<char>, members: Seq<Member>) -> Seq<
    Seq<char>,
>
    decreases members.len(),
{
    if members.len() == 0 {
        seq![user].push(room_id)
    } else {
        let m = members.last();
        dm_columns(user, room_id, members.drop_last()).push(m.user_id@).push(
            match m.display_name {
                Some(name) => name@,
                None => Seq::empty(),
            },
        ).push(
            match m.avatar_url {
                Some(url) => url@,
                None => Seq::empty(),
            },
        )
    }
}

/// Of a room for direct messages the user, the room and each of its members are printed, in plain
/// text as the columns of a line without white space at its end, else as the fields of an object
/// with the members in an array.
pub proof fn law_dm_room_is_printed(
    user: Seq<char>,
    room_id: Seq<char>,
    members: Seq<Member>,
    m: Member,
    output: Output,
    sep: Seq<char>,
)
    ensures
        dm_printed(user, room_id, members, Output::Text, sep) == trimmed_end(
            joined(dm_columns(user, room_id, members), sep),
        ) + "\n"@,
        output != Output::Text ==> exists|doc: JsonDoc, list: Seq<JsonDoc>|
            {
                &&& dm_printed(user, room_id, members, output, sep) == #[trigger] compact_text(doc)
                    + "\n"@
                &&& has_fields(doc, 3)
                &&& has_field(doc, "user_id"@, JsonDoc::Text(user))
                &&& has_field(doc, "room_id"@, JsonDoc::Text(room_id))
                &&& #[trigger] has_field(doc, "members"@, JsonDoc::Array(list))
                &&& list.len() == members.len()
                &&& forall|i: int|
                    0 <= i < list.len() ==> #[trigger] list[i] == dm_member_doc(members[i])
            },
        has_fields(dm_member_doc(m), 3),
        has_field(dm_member_doc(m), "user_id"@, JsonDoc::Text(m.user_id@)),
        m.display_name matches Some(name) ==> has_field(
            dm_member_doc(m),
            "display_name"@,
            JsonDoc::Text(name@),
        ),
        m.avatar_url matches Some(url) ==> has_field(
            dm_member_doc(m),
            "avatar_url"@,
            JsonDoc::Text(url@),
        ),
{
    lemma_dm_columns(user, room_id, members, sep);
    let entry = dm_member_doc(m)->Object_0;
    lemma_has_field(entry, 0);
    lemma_has_field(entry, 1);
    lemma_has_field(entry, 2);
    let list = members.map_values(|m: Member| dm_member_doc(m));
    let items = seq![("user_id"@, JsonDoc::Text(user))].push(
        ("room_id"@, JsonDoc::Text(room_id)),
    ).push(("members"@, JsonDoc::Array(list)));
    lemma_has_field(items, 0);
    lemma_has_field(items, 1);
    lemma_has_field(items, 2);
    if output != Output::Text {
        let doc = JsonDoc::Object(items);
        assert(dm_printed(user, room_id, members, output, sep) == compact_text(doc) + "\n"@);
        assert(has_field(doc, "members"@, JsonDoc::Array(list)));
    }
}

/// The columns joined are those of the user and the room with those of the members behind.
proof fn lemma_dm_columns(
    user: Seq<char>,
    room_id: Seq<char>,
    members: Seq<Member>,
    sep: Seq<char>,
)
    ensures
        dm_columns(user, room_id, members).len() >= 2,
        joined(dm_columns(user, room_id, members), sep) == user + sep + room_id + member_columns(
            members,
            sep,
            members.len(),
        ),
    decreases members.len(),
{
    if members.len() == 0 {
        lemma_joined_two(user, room_id, sep);
        assert(user + sep + room_id + member_columns(members, sep, 0) =~= user + sep + room_id);
    } else {
        let front = members.drop_last();
        let m = members.last();
        lemma_dm_columns(user, room_id, front, sep);
        lemma_member_columns_front(front, m, sep, front.len());
        assert(front.push(m) =~= members);
        let head = dm_columns(user, room_id, front);
        let name = or_empty(m.display_name);
        let url = or_empty(m.avatar_url);
        let shown = member_columns(front, sep, front.len());
        lemma_three_more(head, m.user_id@, name, url, sep);
        lemma_behind(user + sep + room_id, shown, m.user_id@, name, url, sep);
        assert(dm_columns(user, room_id, members) == head.push(m.user_id@).push(name).push(url));
        assert(member_columns(members, sep, members.len()) == shown + sep + m.user_id@ + sep + name
            + sep + url);
    }
}

/// Three texts more joined to a list.
proof fn lemma_three_more(
    head: Seq<Seq<char>>,
    a: Seq<char>,
    b: Seq<char>,
    c: Seq<char>,
    sep: Seq<char>,
)
    requires
        head.len() > 0,
    ensures
        joined(head.push(a).push(b).push(c), sep) == joined(head, sep) + sep + a + sep + b + sep + c,
{
    assert(head.push(a).drop_last() =~= head);
    assert(head.push(a).push(b).drop_last() =~= head.push(a));
    assert(head.push(a).push(b).push(c).drop_last() =~= head.push(a).push(b));
    assert(joined(head.push(a), sep) == joined(head, sep) + sep + a);
    assert(joined(head.push(a).push(b), sep) == joined(head, sep) + sep + a + sep + b);
}

/// It does not matter whether the columns before are put together first.
proof fn lemma_behind(
    front: Seq<char>,
    shown: Seq<char>,
    a: Seq<char>,
    b: Seq<char>,
    c: Seq<char>,
    sep: Seq<char>,
)
    ensures
        front + (shown + sep + a + sep + b + sep + c) == front + shown + sep + a + sep + b + sep + c,
{
    assert(front + (shown + sep + a + sep + b + sep + c) =~= front + shown + sep + a + sep + b + sep
        + c);
}

/// A member behind the first `n` changes nothing of them.
proof fn lemma_member_columns_front(members: Seq<Member>, m: Member, sep: Seq<char>, n: nat)
    requires
        n <= members.len(),
    ensures
        member_columns(members.push(m), sep, n) == member_columns(members, sep, n),
    decreases n,
{
    if n > 0 {
        lemma_member_columns_front(members, m, sep, (n - 1) as nat);
        assert(members.push(m)[n - 1] == members[n - 1]);
    }
}

/// The rooms are printed one after the other, each under the other user of it.
pub proof fn law_every_dm_room_is_printed(
    rooms: Seq<RoomMembers>,
    own: Seq<char>,
    a: Seq<int>,
    b: Seq<int>,
    k: int,
    members: Vec<Member>,
    user: Seq<char>,
    output: Output,
    sep: Seq<char>,
)
    requires
        0 <= k < rooms.len(),
        rooms[k].members == Some(members),
        dm_kind(rooms[k], own) == DmKind::With(user),
    ensures
        dms_printed(rooms, own, a + b, output, sep) == dms_printed(rooms, own, a, output, sep)
            + dms_printed(rooms, own, b, output, sep),
        dms_printed(rooms, own, seq![k], output, sep) == dm_printed(
            user,
            rooms[k].room_id@,
            members@,
            output,
            sep,
        ),
    decreases b.len(),
{
    let none = Seq::<int>::empty();
    assert(seq![k].drop_last() =~= none);
    assert(dms_printed(rooms, own, none, output, sep) =~= Seq::empty());
    assert(dms_printed(rooms, own, seq![k], output, sep) =~= dm_printed(
        user,
        rooms[k].room_id@,
        members@,
        output,
        sep,
    ));
    if b.len() == 0 {
        assert(a + b =~= a);
        assert(dms_printed(rooms, own, a, output, sep) + dms_printed(rooms, own, b, output, sep)
            =~= dms_printed(rooms, own, a, output, sep));
    } else {
        law_every_dm_room_is_printed(rooms, own, a, b.drop_last(), k, members, user, output, sep);
        assert((a + b).drop_last() =~= a + b.drop_last());
        assert((a + b).last() == b.last());
        assert(dms_printed(rooms, own, a + b, output, sep) =~= dms_printed(
            rooms,
            own,
            a,
            output,
            sep,
        ) + dms_printed(rooms, own, b, output, sep));
    }
}

/// One room of which it cannot be told what it is makes it so for all, and without one it can be
/// told of each.
pub proof fn law_one_unknown_room_counts(
    rooms: Seq<RoomMembers>,
    room: RoomMembers,
    own: Seq<char>,
)
    ensures
        !some_unknown(Seq::empty(), own),
        some_unknown(rooms.push(room), own) <==> some_unknown(rooms, own) || dm_kind(
            room,
            own,
        ) is Unknown,
{
    let more = rooms.push(room);
    if some_unknown(rooms, own) {
        let i = choose|i: int| 0 <= i < rooms.len() && dm_kind(#[trigger] rooms[i], own) is Unknown;
        assert(more[i] == rooms[i]);
    }
    if dm_kind(room, own) is Unknown {
        assert(more[rooms.len() as int] == room);
    }
    if some_unknown(more, own) {
        let i = choose|i: int| 0 <= i < more.len() && dm_kind(#[trigger] more[i], own) is Unknown;
        if i < rooms.len() {
            assert(rooms[i] == more[i]);
        }
    }
}

} // verus!
