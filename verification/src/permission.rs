//! Whether a user may do something in a room.

use vstd::prelude::*;

use crate::ids::{is_room_id, room_id_ok};
use crate::json::{
    compact_text, has_field, has_fields, lemma_has_first_fields, print_line, Fields, Json, JsonDoc,
};
use crate::room_info::PowerLevels;
use crate::server::{truth, truth_word};
use crate::text::{
    joined, law_absent_text_is_not_replaced, lemma_joined_four, lemma_occurs_contains, occurs,
    replace_text, replaced, same_text, texts, trim, trimmed,
};
use crate::types::{Error, Output};

verus! {

/// The level under a name, where there is one.
pub open spec fn level_of(levels: Seq<(String, i64)>, name: Seq<char>) -> Option<i64>
    decreases levels.len(),
{
    if levels.len() == 0 {
        None
    } else if levels[0].0@ == name {
        Some(levels[0].1)
    } else {
        level_of(levels.skip(1), name)
    }
}

/// The level under a name, where there is one.
pub fn find_level(levels: &Vec<(String, i64)>, name: &str) -> (r: Option<i64>)
    ensures
        r == level_of(levels@, name@),
{
    let mut i: usize = 0;
    assert(levels@.skip(0) =~= levels@);
    while i < levels.len()
        invariant
            i <= levels.len(),
            level_of(levels@, name@) == level_of(levels@.skip(i as int), name@),
        decreases levels.len() - i,
    {
        if same_text(levels[i].0.as_str(), name) {
            return Some(levels[i].1);
        }
        assert(levels@.skip(i as int).skip(1) =~= levels@.skip(i + 1));
        i += 1;
    }
    None
}

/// The power level of a user: their own, else the default for users.
pub open spec fn user_level(pl: PowerLevels, user: Seq<char>) -> i64 {
    match level_of(pl.users@, user) {
        Some(n) => n,
        None => pl.users_default,
    }
}

/// The name of the event type that `TimelineEventType::from` reads from a text.
pub uninterp spec fn event_type_name(text: Seq<char>) -> Seq<char>;

/// Calls `TimelineEventType::from` and takes the name of the type, which is the same for the
/// different spellings of a type. It depends on the text alone and is named.
#[verifier::external_body]
pub(crate) fn event_type(text: &str) -> (out: String)
    ensures
        out@ == event_type_name(text@),
{
    matrix_sdk::ruma::events::TimelineEventType::from(text).to_string()
}

/// The power level that something needs: one of the actions on the room, one of the defaults, or
/// the sending of an event of that type.
pub open spec fn level_needed(pl: PowerLevels, what: Seq<char>) -> i64 {
    level_needed_for(pl, what, event_type_name(what))
}

/// The power level that something needs, given the name of the event type in it.
pub open spec fn level_needed_for(pl: PowerLevels, what: Seq<char>, event_type: Seq<char>) -> i64 {
    if what == "ban"@ {
        pl.ban
    } else if what == "invite"@ {
        pl.invite
    } else if what == "kick"@ {
        pl.kick
    } else if what == "redact"@ {
        pl.redact
    } else if what == "notifications"@ {
        pl.notifications_room
    } else if what == "events_default"@ {
        pl.events_default
    } else if what == "state_default"@ {
        pl.state_default
    } else if what == "users_default"@ {
        pl.users_default
    } else {
        match level_of(pl.events@, event_type) {
            Some(n) => n,
            None => pl.events_default,
        }
    }
}

/// Whether the user may do that.
pub open spec fn permitted(pl: PowerLevels, user: Seq<char>, what: Seq<char>) -> bool {
    user_level(pl, user) >= level_needed(pl, what)
}

/// The power level of a user.
pub fn level_of_user(pl: &PowerLevels, user: &str) -> (n: i64)
    ensures
        n == user_level(*pl, user@),
{
    match find_level(&pl.users, user) {
        Some(n) => n,
        None => pl.users_default,
    }
}

/// The power level that something needs.
pub fn needed_level(pl: &PowerLevels, what: &str) -> (n: i64)
    ensures
        n == level_needed(*pl, what@),
{
    let name = event_type(what);
    needed_level_for(pl, what, name.as_str())
}

/// The power level that something needs, given the name of the event type in it.
pub fn needed_level_for(pl: &PowerLevels, what: &str, event_type: &str) -> (n: i64)
    ensures
        n == level_needed_for(*pl, what@, event_type@),
{
    if same_text(what, "ban") {
        pl.ban
    } else if same_text(what, "invite") {
        pl.invite
    } else if same_text(what, "kick") {
        pl.kick
    } else if same_text(what, "redact") {
        pl.redact
    } else if same_text(what, "notifications") {
        pl.notifications_room
    } else if same_text(what, "events_default") {
        pl.events_default
    } else if same_text(what, "state_default") {
        pl.state_default
    } else if same_text(what, "users_default") {
        pl.users_default
    } else {
        match find_level(&pl.events, event_type) {
            Some(n) => n,
            None => pl.events_default,
        }
    }
}

/// A question about a permission.
#[derive(Debug)]
pub struct PermissionQuery {
    /// The room id with its escape removed; it may not be valid.
    pub room_id: String,
    pub permission: String,
}

/// Whether a query is the one that the arguments at a position ask.
pub open spec fn query_matches(q: PermissionQuery, args: Seq<Seq<char>>, i: int) -> bool {
    &&& q.room_id@ == replaced(args[2 * i], "\\!"@, "!"@)
    &&& q.permission@ == trimmed(args[2 * i + 1])
}

/// The questions that the arguments of --has-permission ask: a room id and a permission each.
pub fn permission_queries(args: &Vec<String>) -> (r: Result<Vec<PermissionQuery>, Error>)
    ensures
        args@.len() % 2 != 0 ==> (r matches Err(e) && e == Error::HasPermissionFailed),
        args@.len() % 2 == 0 ==> (r matches Ok(list) && list@.len() == args@.len() / 2 && (forall|
            i: int,
        |
            0 <= i < list@.len() ==> query_matches(#[trigger] list@[i], texts(args@), i))),
{
    if args.len() % 2 != 0 {
        return Err(Error::HasPermissionFailed);
    }
    let count: usize = args.len() / 2;
    let mut list: Vec<PermissionQuery> = Vec::new();
    let mut i: usize = 0;
    while i < count
        invariant
            i <= count,
            count == args@.len() / 2,
            args@.len() % 2 == 0,
            list.len() == i,
            forall|j: int| 0 <= j < i ==> query_matches(#[trigger] list@[j], texts(args@), j),
        decreases count - i,
    {
        assert(2 * i + 1 < args.len());
        assert(texts(args@)[2 * i] == args@[2 * i]@);
        assert(texts(args@)[2 * i + 1] == args@[2 * i + 1]@);
        let room_id = replace_text(args[2 * i].as_str(), "\\!", "!");
        let permission = trim(args[2 * i + 1].as_str());
        list.push(PermissionQuery { room_id, permission });
        i += 1;
    }
    Ok(list)
}

/// Whether the room id of a query is valid.
pub fn query_room_valid(q: &PermissionQuery) -> (r: bool)
    ensures
        r == room_id_ok(q.room_id@),
{
    is_room_id(q.room_id.as_str())
}

/// What is printed of a query, given the power levels of the room. Without them the query failed,
/// which is shown in plain text only.
pub open spec fn permission_printed(
    q: PermissionQuery,
    user: Seq<char>,
    levels: Option<PowerLevels>,
    output: Output,
    sep: Seq<char>,
) -> Seq<char> {
    match levels {
        Some(pl) => {
            let ok = permitted(pl, user, q.permission@);
            match output {
                Output::Text => truth_word(ok) + sep + user + sep + q.room_id@ + sep + q.permission@
                    + "\n"@,
                _ => compact_text(
                    JsonDoc::Object(
                        seq![("has_permission"@, JsonDoc::Bool(ok))].push(("user_id"@, JsonDoc::Text(user))).push(("room_id"@, JsonDoc::Text(q.room_id@))).push(("permission_type"@, JsonDoc::Text(q.permission@))).push(("user_power_level"@, JsonDoc::Int(user_level(pl, user)))).push((
                                "required_power_level"@,
                                JsonDoc::Int(level_needed(pl, q.permission@)),
                            )),
                    ),
                ) + "\n"@,
            }
        },
        None => match output {
            Output::Text => "Error"@ + sep + user + sep + q.room_id@ + sep + q.permission@ + "\n"@,
            _ => Seq::empty(),
        },
    }
}

/// What is printed of a query, given the power levels of the room.
pub fn print_permission(
    q: &PermissionQuery,
    user: &str,
    levels: &Option<PowerLevels>,
    output: Output,
    sep: &str,
) -> (out: String)
    ensures
        out@ == permission_printed(*q, user@, *levels, output, sep@),
{
    match levels {
        Some(pl) => {
            let have = level_of_user(pl, user);
            let need = needed_level(pl, q.permission.as_str());
            let ok = have >= need;
            match output {
                Output::Text => {
                    let mut out = truth(ok).to_string();
                    out.append(sep);
                    out.append(user);
                    out.append(sep);
                    out.append(q.room_id.as_str());
                    out.append(sep);
                    out.append(q.permission.as_str());
                    out.append("\n");
                    out
                },
                _ => {
                    let mut f = Fields::new();
                    f.put("has_permission", Json::Bool(ok));
                    f.put_text("user_id", user);
                    f.put_text("room_id", q.room_id.as_str());
                    f.put_text("permission_type", q.permission.as_str());
                    f.put("user_power_level", Json::Int(have));
                    f.put("required_power_level", Json::Int(need));
                    let doc = f.object();
                    print_line(&doc)
                },
            }
        },
        None => match output {
            Output::Text => {
                let mut out = "Error".to_string();
                out.append(sep);
                out.append(user);
                out.append(sep);
                out.append(q.room_id.as_str());
                out.append(sep);
                out.append(q.permission.as_str());
                out.append("\n");
                out
            },
            _ => String::new(),
        },
    }
}

/// What is printed of the first `n` queries.
pub open spec fn permissions_printed(
    queries: Seq<PermissionQuery>,
    user: Seq<char>,
    levels: Seq<Option<PowerLevels>>,
    output: Output,
    sep: Seq<char>,
    n: nat,
) -> Seq<char>
    decreases n,
{
    if n == 0 {
        Seq::empty()
    } else {
        permissions_printed(queries, user, levels, output, sep, (n - 1) as nat)
            + permission_printed(queries[n - 1], user, levels[n - 1], output, sep)
    }
}

/// What is printed of all queries, and their result. They fail where the power levels of a room
/// could not be told.
pub fn has_permission(
    queries: &Vec<PermissionQuery>,
    user: &str,
    levels: &Vec<Option<PowerLevels>>,
    output: Output,
    sep: &str,
) -> (r: (String, Result<(), Error>))
    requires
        queries.len() == levels.len(),
    ensures
        r.0@ == permissions_printed(queries@, user@, levels@, output, sep@, queries@.len()),
        (forall|i: int| 0 <= i < levels@.len() ==> (#[trigger] levels@[i]) is Some) ==> r.1 is Ok,
        !(forall|i: int| 0 <= i < levels@.len() ==> (#[trigger] levels@[i]) is Some) ==> (
        r.1 matches Err(e) && e == Error::HasPermissionFailed),
{
    let mut out = String::new();
    let mut failed = false;
    let mut i: usize = 0;
    while i < queries.len()
        invariant
            i <= queries.len(),
            queries.len() == levels.len(),
            out@ == permissions_printed(queries@, user@, levels@, output, sep@, i as nat),
            failed == !(forall|j: int| 0 <= j < i ==> (#[trigger] levels@[j]) is Some),
        decreases queries.len() - i,
    {
        if levels[i].is_none() {
            failed = true;
        }
        let line = print_permission(&queries[i], user, &levels[i], output, sep);
        out.append(line.as_str());
        i += 1;
    }
    if failed {
        (out, Err(Error::HasPermissionFailed))
    } else {
        (out, Ok(()))
    }
}

/// A user with a higher power level may do all that one with a lower level may do.
pub proof fn law_more_power_more_permissions(
    pl: PowerLevels,
    weak: Seq<char>,
    strong: Seq<char>,
    what: Seq<char>,
)
    requires
        user_level(pl, weak) <= user_level(pl, strong),
        permitted(pl, weak, what),
    ensures
        permitted(pl, strong, what),
{
}

/// A user whose power level is the one that is needed, or a higher one, is permitted; a user with
/// a lower level is not.
pub proof fn law_permitted_from_the_needed_level_on(
    pl: PowerLevels,
    user: Seq<char>,
    what: Seq<char>,
)
    ensures
        user_level(pl, user) == level_needed(pl, what) ==> permitted(pl, user, what),
        user_level(pl, user) > level_needed(pl, what) ==> permitted(pl, user, what),
        user_level(pl, user) < level_needed(pl, what) ==> !permitted(pl, user, what),
{
}

/// The level under a name is that of the first entry with the name, and there is none exactly
/// where no entry has it.
pub proof fn law_first_level_counts(
    front: Seq<(String, i64)>,
    entry: (String, i64),
    back: Seq<(String, i64)>,
    name: Seq<char>,
)
    requires
        forall|i: int| 0 <= i < front.len() ==> (#[trigger] front[i]).0@ != name,
    ensures
        level_of(front, name) is None,
        entry.0@ == name ==> level_of(front.push(entry) + back, name) == Some(entry.1),
    decreases front.len(),
{
    let all = front.push(entry) + back;
    if front.len() == 0 {
        assert(all[0] == entry);
    } else {
        let rest = front.skip(1);
        assert forall|i: int| 0 <= i < rest.len() implies (#[trigger] rest[i]).0@ != name by {
            assert(rest[i] == front[i + 1]);
        }
        law_first_level_counts(rest, entry, back, name);
        assert(all[0] == front[0]);
        assert(all.skip(1) =~= rest.push(entry) + back);
    }
}

/// A user has the level of their own entry, and the default for users only without one; the
/// levels that others have make no difference.
pub proof fn law_own_level_before_the_default(
    pl: PowerLevels,
    other: PowerLevels,
    user: Seq<char>,
    i: int,
)
    requires
        0 <= i < pl.users@.len(),
        pl.users@[i].0@ == user,
        forall|j: int| 0 <= j < i ==> (#[trigger] pl.users@[j]).0@ != user,
        forall|j: int| 0 <= j < other.users@.len() ==> (#[trigger] other.users@[j]).0@ != user,
    ensures
        user_level(pl, user) == pl.users@[i].1,
        user_level(other, user) == other.users_default,
{
    let front = pl.users@.take(i);
    law_first_level_counts(front, pl.users@[i], pl.users@.skip(i + 1), user);
    assert(front.push(pl.users@[i]) + pl.users@.skip(i + 1) =~= pl.users@);
    law_first_level_counts(other.users@, pl.users@[i], Seq::empty(), user);
}

/// Each of the actions on a room and each of the defaults needs the level that the room sets for
/// it; anything else is an event, which needs the level of its type and, without one, the default
/// for events.
pub proof fn law_each_action_has_its_level(
    pl: PowerLevels,
    what: Seq<char>,
    event_type: Seq<char>,
)
    ensures
        level_needed_for(pl, "ban"@, event_type) == pl.ban,
        level_needed_for(pl, "invite"@, event_type) == pl.invite,
        level_needed_for(pl, "kick"@, event_type) == pl.kick,
        level_needed_for(pl, "redact"@, event_type) == pl.redact,
        level_needed_for(pl, "notifications"@, event_type) == pl.notifications_room,
        level_needed_for(pl, "events_default"@, event_type) == pl.events_default,
        level_needed_for(pl, "state_default"@, event_type) == pl.state_default,
        level_needed_for(pl, "users_default"@, event_type) == pl.users_default,
        ({
            &&& what != "ban"@
            &&& what != "invite"@
            &&& what != "kick"@
            &&& what != "redact"@
            &&& what != "notifications"@
            &&& what != "events_default"@
            &&& what != "state_default"@
            &&& what != "users_default"@
        }) ==> {
            &&& level_of(pl.events@, event_type) matches Some(n) ==> level_needed_for(
                pl,
                what,
                event_type,
            ) == n
            &&& level_of(pl.events@, event_type) is None ==> level_needed_for(pl, what, event_type)
                == pl.events_default
        },
        level_needed(pl, what) == level_needed_for(pl, what, event_type_name(what)),
{
    reveal_strlit("ban");
    reveal_strlit("invite");
    reveal_strlit("kick");
    reveal_strlit("redact");
    reveal_strlit("notifications");
    reveal_strlit("events_default");
    reveal_strlit("state_default");
    reveal_strlit("users_default");
    assert("ban"@.len() == 3);
    assert("invite"@.len() == 6);
    assert("kick"@.len() == 4);
    assert("redact"@.len() == 6);
    assert("notifications"@.len() == 13);
    assert("events_default"@.len() == 14);
    assert("state_default"@.len() == 13);
    assert("users_default"@.len() == 13);
    assert("invite"@[0] == 'i');
    assert("redact"@[0] == 'r');
    assert("notifications"@[0] == 'n');
    assert("state_default"@[0] == 's');
    assert("users_default"@[0] == 'u');
}

/// The answer to a question about a permission says whether the user is permitted, and names the
/// user, the room and the permission: in plain text as the columns of a line, else as the fields
/// of an object, with the levels that were compared. Without power levels plain text says that it
/// is an error, and nothing else is printed.
pub proof fn law_answer_tells_the_permission(
    q: PermissionQuery,
    user: Seq<char>,
    pl: PowerLevels,
    output: Output,
    sep: Seq<char>,
)
    ensures
        user_level(pl, user) >= level_needed(pl, q.permission@) ==> permission_printed(
            q,
            user,
            Some(pl),
            Output::Text,
            sep,
        ) == joined(seq!["True"@].push(user).push(q.room_id@).push(q.permission@), sep) + "\n"@,
        user_level(pl, user) < level_needed(pl, q.permission@) ==> permission_printed(
            q,
            user,
            Some(pl),
            Output::Text,
            sep,
        ) == joined(seq!["False"@].push(user).push(q.room_id@).push(q.permission@), sep) + "\n"@,
        permission_printed(q, user, None, Output::Text, sep) == joined(
            seq!["Error"@].push(user).push(q.room_id@).push(q.permission@),
            sep,
        ) + "\n"@,
        output != Output::Text ==> permission_printed(q, user, None, output, sep).len() == 0,
        output != Output::Text ==> exists|doc: JsonDoc|
            {
                &&& permission_printed(q, user, Some(pl), output, sep) == #[trigger] compact_text(doc)
                    + "\n"@
                &&& has_fields(doc, 6)
                &&& has_field(
                    doc,
                    "has_permission"@,
                    JsonDoc::Bool(user_level(pl, user) >= level_needed(pl, q.permission@)),
                )
                &&& has_field(doc, "user_id"@, JsonDoc::Text(user))
                &&& has_field(doc, "room_id"@, JsonDoc::Text(q.room_id@))
                &&& has_field(doc, "permission_type"@, JsonDoc::Text(q.permission@))
                &&& has_field(doc, "user_power_level"@, JsonDoc::Int(user_level(pl, user)))
                &&& has_field(
                    doc,
                    "required_power_level"@,
                    JsonDoc::Int(level_needed(pl, q.permission@)),
                )
            },
{
    lemma_joined_four("True"@, user, q.room_id@, q.permission@, sep);
    lemma_joined_four("False"@, user, q.room_id@, q.permission@, sep);
    lemma_joined_four("Error"@, user, q.room_id@, q.permission@, sep);
    let ok = user_level(pl, user) >= level_needed(pl, q.permission@);
    let items = seq![("has_permission"@, JsonDoc::Bool(ok))].push(
        ("user_id"@, JsonDoc::Text(user)),
    ).push(("room_id"@, JsonDoc::Text(q.room_id@))).push(
        ("permission_type"@, JsonDoc::Text(q.permission@)),
    ).push(("user_power_level"@, JsonDoc::Int(user_level(pl, user)))).push(
        ("required_power_level"@, JsonDoc::Int(level_needed(pl, q.permission@))),
    );
    lemma_has_first_fields(items);
    assert(has_field(JsonDoc::Object(items), items[0].0, items[0].1));
    assert(has_field(JsonDoc::Object(items), items[1].0, items[1].1));
    assert(has_field(JsonDoc::Object(items), items[2].0, items[2].1));
    assert(has_field(JsonDoc::Object(items), items[3].0, items[3].1));
    assert(has_field(JsonDoc::Object(items), items[4].0, items[4].1));
    assert(has_field(JsonDoc::Object(items), items[5].0, items[5].1));
    if output != Output::Text {
        assert(permission_printed(q, user, Some(pl), output, sep) == compact_text(
            JsonDoc::Object(items),
        ) + "\n"@);
    }
}

/// A user is permitted, in the answer too, exactly where the answer begins with the word for it:
/// the answers for a user who is permitted and for the same user with too low a level differ.
pub proof fn law_answers_differ(
    q: PermissionQuery,
    user: Seq<char>,
    high: PowerLevels,
    low: PowerLevels,
    sep: Seq<char>,
)
    requires
        user_level(high, user) >= level_needed(high, q.permission@),
        user_level(low, user) < level_needed(low, q.permission@),
    ensures
        permission_printed(q, user, Some(high), Output::Text, sep)[0] == 'T',
        permission_printed(q, user, Some(low), Output::Text, sep)[0] == 'F',
{
    reveal_strlit("True");
    reveal_strlit("False");
}

/// A question is made of a room id, in which the escape of the exclamation mark is undone, and of
/// a permission without white space around it.
pub proof fn law_question_is_what_was_given(
    q: PermissionQuery,
    args: Seq<Seq<char>>,
    i: int,
)
    requires
        0 <= i,
        2 * i + 1 < args.len(),
        query_matches(q, args, i),
    ensures
        !args[2 * i].contains('\\') ==> q.room_id@ == args[2 * i],
        q.permission@ == trimmed(args[2 * i + 1]),
{
    reveal_strlit("\\!");
    if !args[2 * i].contains('\\') {
        if occurs(args[2 * i], "\\!"@) {
            lemma_occurs_contains(args[2 * i], "\\!"@, 0);
        }
        law_absent_text_is_not_replaced(args[2 * i], "\\!"@, "!"@);
    }
}

/// Questions are answered one after the other, each by itself.
pub proof fn law_each_question_is_answered(
    queries: Seq<PermissionQuery>,
    user: Seq<char>,
    levels: Seq<Option<PowerLevels>>,
    output: Output,
    sep: Seq<char>,
    i: int,
)
    requires
        0 <= i < queries.len(),
        queries.len() == levels.len(),
    ensures
        permissions_printed(queries, user, levels, output, sep, 0) == Seq::<char>::empty(),
        ({
            let before = permissions_printed(queries, user, levels, output, sep, i as nat);
            let answer = permission_printed(queries[i], user, levels[i], output, sep);
            let all = permissions_printed(queries, user, levels, output, sep, queries.len());
            &&& before.len() + answer.len() <= all.len()
            &&& all.subrange(before.len() as int, (before.len() + answer.len()) as int) == answer
        }),
{
    let before = permissions_printed(queries, user, levels, output, sep, i as nat);
    let answer = permission_printed(queries[i], user, levels[i], output, sep);
    let all = permissions_printed(queries, user, levels, output, sep, queries.len());
    let with = permissions_printed(queries, user, levels, output, sep, (i + 1) as nat);
    assert(with == before + answer);
    lemma_permissions_grow(queries, user, levels, output, sep, (i + 1) as nat, queries.len());
    assert(all.subrange(before.len() as int, (before.len() + answer.len()) as int) =~= answer) by {
        assert(all.take(with.len() as int) == with);
        assert(with.subrange(before.len() as int, with.len() as int) =~= answer);
        assert(all.subrange(before.len() as int, with.len() as int) =~= all.take(
            with.len() as int,
        ).subrange(before.len() as int, with.len() as int));
    }
}

/// What is printed of the first questions is not changed by further ones.
proof fn lemma_permissions_grow(
    queries: Seq<PermissionQuery>,
    user: Seq<char>,
    levels: Seq<Option<PowerLevels>>,
    output: Output,
    sep: Seq<char>,
    n: nat,
    m: nat,
)
    requires
        n <= m,
    ensures
        ({
            let part = permissions_printed(queries, user, levels, output, sep, n);
            let all = permissions_printed(queries, user, levels, output, sep, m);
            part.len() <= all.len() && all.take(part.len() as int) == part
        }),
    decreases m,
{
    let part = permissions_printed(queries, user, levels, output, sep, n);
    let all = permissions_printed(queries, user, levels, output, sep, m);
    if n < m {
        lemma_permissions_grow(queries, user, levels, output, sep, n, (m - 1) as nat);
        let shorter = permissions_printed(queries, user, levels, output, sep, (m - 1) as nat);
        assert(all.take(part.len() as int) =~= shorter.take(part.len() as int));
    } else {
        assert(all.take(part.len() as int) =~= part);
    }
}

} // verus!
