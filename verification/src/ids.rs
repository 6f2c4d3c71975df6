//! Identifiers of rooms, users, aliases and media: completing short forms and replacing shortcuts.

use vstd::prelude::*;

use crate::text::{
    contains_char, copy_texts, is_blank, is_white, remove_white, replace_text, replaced,
    same_text, starts_with, texts, trim, trimmed, without_white,
};

verus! {

/// Whether `UserId::parse` accepts a text.
pub uninterp spec fn user_id_ok(id: Seq<char>) -> bool;

/// Whether `RoomAliasId::parse` accepts a text.
pub uninterp spec fn alias_id_ok(id: Seq<char>) -> bool;

/// Whether `EventId::parse` accepts a text.
pub uninterp spec fn event_id_ok(id: Seq<char>) -> bool;

/// Whether `MxcUri::parts` accepts a text.
pub uninterp spec fn mxc_ok(uri: Seq<char>) -> bool;

/// A room id begins with an exclamation mark and holds no null character.
pub open spec fn room_id_ok(id: Seq<char>) -> bool {
    id.len() > 0 && id[0] == '!' && !id.contains('\0')
}

/// Calls `RoomId::parse`, which accepts the texts that begin with an exclamation mark and hold no
/// null character.
#[verifier::external_body]
pub(crate) fn is_room_id(id: &str) -> (r: bool)
    ensures
        r == room_id_ok(id@),
{
    matrix_sdk::ruma::RoomId::parse(id).is_ok()
}

/// Calls `UserId::parse`. Whether it accepts the text depends on the text alone and is named; a
/// text that it accepts begins with an at sign and holds a colon.
#[verifier::external_body]
pub(crate) fn is_user_id(id: &str) -> (r: bool)
    ensures
        r == user_id_ok(id@),
        r ==> id@.len() > 0 && id@[0] == '@' && id@.contains(':'),
{
    matrix_sdk::ruma::UserId::parse(id).is_ok()
}

/// Calls `RoomAliasId::parse`. Whether it accepts the text depends on the text alone and is
/// named; a text that it accepts begins with a hash sign and holds a colon.
#[verifier::external_body]
pub(crate) fn is_alias_id(id: &str) -> (r: bool)
    ensures
        r == alias_id_ok(id@),
        r ==> id@.len() > 0 && id@[0] == '#' && id@.contains(':'),
{
    matrix_sdk::ruma::RoomAliasId::parse(id).is_ok()
}

/// Calls `EventId::parse`. Whether it accepts the text depends on the text alone and is named; a
/// text that it accepts begins with a dollar sign, and one that begins so and holds no colon is
/// accepted.
#[verifier::external_body]
pub(crate) fn is_event_id(id: &str) -> (r: bool)
    ensures
        r == event_id_ok(id@),
        r ==> id@.len() > 0 && id@[0] == '$',
        id@.len() > 0 && id@[0] == '$' && !id@.contains(':') ==> r,
{
    matrix_sdk::ruma::EventId::parse(id).is_ok()
}

/// The position of the first `c` in `s` from position `i` on, or the length where there is none.
pub open spec fn first_from(s: Seq<char>, c: char, i: int) -> int
    decreases s.len() - i,
{
    if i < 0 || i >= s.len() {
        s.len() as int
    } else if s[i] == c {
        i
    } else {
        first_from(s, c, i + 1)
    }
}

/// The position of the slash after the server name of a media URI.
pub open spec fn mxc_slash(uri: Seq<char>) -> int {
    first_from(uri, '/', 6)
}

/// The library keeps the position of the slash in one byte: longer server names are left out.
pub open spec fn mxc_short(uri: Seq<char>) -> bool {
    mxc_slash(uri) < 256 || mxc_slash(uri) == uri.len()
}

/// The server name and the media id of a media URI, where it is valid.
pub open spec fn mxc_parts_of(uri: Seq<char>) -> Option<(Seq<char>, Seq<char>)> {
    if mxc_ok(uri) {
        Some((uri.subrange(6, mxc_slash(uri)), uri.skip(mxc_slash(uri) + 1)))
    } else {
        None
    }
}

/// Calls `MxcUri::parts`. Whether the URI is valid depends on the text alone and is named; a
/// valid one is `mxc://`, a server name, a slash and a media id, and the two are returned.
#[verifier::external_body]
pub(crate) fn mxc_parts(uri: &str) -> (r: Option<(String, String)>)
    requires
        mxc_short(uri@),
    ensures
        match r {
            Some((server, media)) => {
                &&& mxc_ok(uri@)
                &&& "mxc://"@.is_prefix_of(uri@)
                &&& 6 <= mxc_slash(uri@) < uri@.len()
                &&& server@ == uri@.subrange(6, mxc_slash(uri@))
                &&& media@ == uri@.skip(mxc_slash(uri@) + 1)
            },
            None => !mxc_ok(uri@),
        },
{
    let owned = matrix_sdk::ruma::OwnedMxcUri::from(uri);
    owned.parts().ok().map(|p| (p.0.to_string(), p.1.to_string()))
}

/// Whether the position of the slash leaves room in one byte.
pub fn is_mxc_short(uri: &str) -> (r: bool)
    ensures
        r == mxc_short(uri@),
{
    let cs = crate::text::chars_of(uri);
    let mut i: usize = 6;
    if cs.len() < 6 {
        return true;
    }
    while i < cs.len() && cs[i] != '/'
        invariant
            6 <= i <= cs.len(),
            first_from(cs@, '/', 6) == first_from(cs@, '/', i as int),
        decreases cs.len() - i,
    {
        i += 1;
    }
    i < 256 || i == cs.len()
}

/// The entries that are more than white space.
pub open spec fn nonblank(list: Seq<Seq<char>>) -> Seq<Seq<char>>
    decreases list.len(),
{
    if list.len() == 0 {
        list
    } else if trimmed(list.last()).len() == 0 {
        nonblank(list.drop_last())
    } else {
        nonblank(list.drop_last()).push(list.last())
    }
}

/// Removes the entries that are nothing but white space.
pub fn drop_blank(list: &mut Vec<String>)
    ensures
        texts(final(list)@) == nonblank(texts(old(list)@)),
{
    let mut out: Vec<String> = Vec::new();
    let mut i: usize = 0;
    let ghost all = texts(list@);
    assert(all.take(0) =~= Seq::empty());
    assert(texts(out@) =~= Seq::empty());
    while i < list.len()
        invariant
            i <= list.len(),
            all == texts(list@),
            texts(out@) == nonblank(all.take(i as int)),
        decreases list.len() - i,
    {
        let ghost before = texts(out@);
        assert(all.take(i + 1).drop_last() =~= all.take(i as int));
        if !is_blank(list[i].as_str()) {
            out.push(list[i].clone());
            assert(texts(out@) =~= before.push(all[i as int]));
        }
        i += 1;
    }
    assert(all.take(all.len() as int) =~= all);
    *list = out;
}

/// The text with the sign in front, unless it is there already.
pub open spec fn with_sigil(s: Seq<char>, sigil: char) -> Seq<char> {
    if s.len() > 0 && s[0] == sigil {
        s
    } else {
        seq![sigil] + s
    }
}

/// The text with a colon and the host behind it, unless it holds a colon.
pub open spec fn with_host(s: Seq<char>, host: Seq<char>) -> Seq<char> {
    if s.contains(':') {
        s
    } else {
        s.push(':') + host
    }
}

/// Whether the text begins with the sign.
pub open spec fn begins(s: Seq<char>, sigil: char) -> bool {
    s.len() > 0 && s[0] == sigil
}

/// The complete alias for one given on the command line; a room id is left as it is.
pub open spec fn full_room_alias(el: Seq<char>, host: Seq<char>) -> Seq<char> {
    let s = without_white(el);
    if begins(s, '!') {
        s
    } else {
        with_host(with_sigil(s, '#'), host)
    }
}

/// The complete user id; what looks like a room id or an alias is left as it is.
pub open spec fn full_user_id(el: Seq<char>, host: Seq<char>) -> Seq<char> {
    let s = without_white(el);
    if begins(s, '!') || begins(s, '#') {
        s
    } else {
        with_host(with_sigil(s, '@'), host)
    }
}

/// The complete alias; what looks like a room id or a user id is left as it is.
pub open spec fn full_alias_id(el: Seq<char>, host: Seq<char>) -> Seq<char> {
    let s = without_white(el);
    if begins(s, '!') || begins(s, '@') {
        s
    } else {
        with_host(with_sigil(s, '#'), host)
    }
}

/// The local part of an alias; what looks like a room id is left as it is.
pub open spec fn short_alias_id(el: Seq<char>) -> Seq<char> {
    let s = without_white(el);
    if begins(s, '!') {
        s
    } else {
        let t = if begins(s, '#') {
            s.skip(1)
        } else {
            s
        };
        t.take(first_from(t, ':', 0))
    }
}

/// Whether the text begins with the character.
pub fn begins_with(s: &str, c: char) -> (r: bool)
    ensures
        r == begins(s@, c),
{
    if s.is_empty() {
        false
    } else {
        s.get_char(0) == c
    }
}

/// Puts the sign in front and the host behind a text where they are missing.
fn complete(s: &str, sigil: char, host: &str) -> (out: String)
    ensures
        out@ == with_host(with_sigil(s@, sigil), host@),
{
    let mut out = String::new();
    if !begins_with(s, sigil) {
        out.push(sigil);
    }
    out.append(s);
    assert(out@ =~= with_sigil(s@, sigil));
    if !contains_char(out.as_str(), ':') {
        out.push(':');
        out.append(host);
    }
    out
}

/// Completes one alias given on the command line.
pub fn convert_to_full_room_alias(el: &str, host: &str) -> (out: String)
    ensures
        out@ == full_room_alias(el@, host@),
{
    let s = remove_white(el);
    if begins_with(s.as_str(), '!') {
        s
    } else {
        complete(s.as_str(), '#', host)
    }
}

/// Completes one user id.
pub fn convert_to_full_user_id(el: &str, host: &str) -> (out: String)
    ensures
        out@ == full_user_id(el@, host@),
{
    let s = remove_white(el);
    if begins_with(s.as_str(), '!') || begins_with(s.as_str(), '#') {
        s
    } else {
        complete(s.as_str(), '@', host)
    }
}

/// Completes one alias.
pub fn convert_to_full_alias_id(el: &str, host: &str) -> (out: String)
    ensures
        out@ == full_alias_id(el@, host@),
{
    let s = remove_white(el);
    if begins_with(s.as_str(), '!') || begins_with(s.as_str(), '@') {
        s
    } else {
        complete(s.as_str(), '#', host)
    }
}

/// The local part of one alias.
pub fn convert_to_short_canonical_alias_id(el: &str) -> (out: String)
    ensures
        out@ == short_alias_id(el@),
{
    let s = remove_white(el);
    if begins_with(s.as_str(), '!') {
        return s;
    }
    let cs = crate::text::chars_of(s.as_str());
    let a: usize = if begins_with(s.as_str(), '#') {
        1
    } else {
        0
    };
    let ghost t = s@.skip(a as int);
    assert(s@.skip(0) =~= s@);
    let mut b: usize = a;
    while b < cs.len() && cs[b] != ':'
        invariant
            a <= b <= cs.len(),
            t == cs@.skip(a as int),
            first_from(t, ':', 0) == first_from(t, ':', b - a),
        decreases cs.len() - b,
    {
        assert(t[b - a] == cs@[b as int]);
        b += 1;
    }
    assert(b < cs.len() ==> t[b - a] == cs@[b as int]);
    assert(cs@.subrange(a as int, b as int) =~= t.take(b - a));
    crate::text::string_of(&cs, a, b)
}

/// Completes the aliases of a list, without those that are nothing but white space.
/// `john` and `#john` become `#john:matrix.server.org`.
pub fn convert_to_full_room_aliases(list: &mut Vec<String>, default_host: &str)
    ensures
        texts(final(list)@) == nonblank(texts(old(list)@)).map_values(
            |x: Seq<char>| full_room_alias(x, default_host@),
        ),
{
    drop_blank(list);
    let ghost kept = texts(list@);
    let mut out: Vec<String> = Vec::new();
    let mut i: usize = 0;
    while i < list.len()
        invariant
            i <= list.len(),
            out.len() == i,
            kept == texts(list@),
            forall|j: int|
                0 <= j < i ==> (#[trigger] out@[j])@ == full_room_alias(kept[j], default_host@),
        decreases list.len() - i,
    {
        out.push(convert_to_full_room_alias(list[i].as_str(), default_host));
        i += 1;
    }
    assert(texts(out@) =~= kept.map_values(|x: Seq<char>| full_room_alias(x, default_host@)));
    *list = out;
}

/// Completes the user ids of a list, without those that are nothing but white space.
/// `john` and `@john` become `@john:matrix.server.com`.
pub fn convert_to_full_user_ids(list: &mut Vec<String>, default_host: &str)
    ensures
        texts(final(list)@) == nonblank(texts(old(list)@)).map_values(
            |x: Seq<char>| full_user_id(x, default_host@),
        ),
{
    drop_blank(list);
    let ghost kept = texts(list@);
    let mut out: Vec<String> = Vec::new();
    let mut i: usize = 0;
    while i < list.len()
        invariant
            i <= list.len(),
            out.len() == i,
            kept == texts(list@),
            forall|j: int|
                0 <= j < i ==> (#[trigger] out@[j])@ == full_user_id(kept[j], default_host@),
        decreases list.len() - i,
    {
        out.push(convert_to_full_user_id(list[i].as_str(), default_host));
        i += 1;
    }
    assert(texts(out@) =~= kept.map_values(|x: Seq<char>| full_user_id(x, default_host@)));
    *list = out;
}

/// Completes the aliases of a list, without those that are nothing but white space.
/// `john` and `#john` become `#john:matrix.server.com`.
pub fn convert_to_full_alias_ids(list: &mut Vec<String>, default_host: &str)
    ensures
        texts(final(list)@) == nonblank(texts(old(list)@)).map_values(
            |x: Seq<char>| full_alias_id(x, default_host@),
        ),
{
    drop_blank(list);
    let ghost kept = texts(list@);
    let mut out: Vec<String> = Vec::new();
    let mut i: usize = 0;
    while i < list.len()
        invariant
            i <= list.len(),
            out.len() == i,
            kept == texts(list@),
            forall|j: int|
                0 <= j < i ==> (#[trigger] out@[j])@ == full_alias_id(kept[j], default_host@),
        decreases list.len() - i,
    {
        out.push(convert_to_full_alias_id(list[i].as_str(), default_host));
        i += 1;
    }
    assert(texts(out@) =~= kept.map_values(|x: Seq<char>| full_alias_id(x, default_host@)));
    *list = out;
}

/// Reduces the aliases of a list to their local parts. Empty entries stay.
/// `#john:matrix.server.com` and `#john` become `john`.
pub fn convert_to_short_canonical_alias_ids(list: &mut Vec<String>)
    ensures
        texts(final(list)@) == texts(old(list)@).map_values(|x: Seq<char>| short_alias_id(x)),
{
    let ghost all = texts(list@);
    let mut out: Vec<String> = Vec::new();
    let mut i: usize = 0;
    while i < list.len()
        invariant
            i <= list.len(),
            out.len() == i,
            all == texts(list@),
            forall|j: int| 0 <= j < i ==> (#[trigger] out@[j])@ == short_alias_id(all[j]),
        decreases list.len() - i,
    {
        out.push(convert_to_short_canonical_alias_id(list[i].as_str()));
        i += 1;
    }
    assert(texts(out@) =~= all.map_values(|x: Seq<char>| short_alias_id(x)));
    *list = out;
}

/// The complete URI of a medium; what is complete, or cannot be a media id, is left as it is.
pub open spec fn full_mxc_uri(el: Seq<char>, host: Seq<char>) -> Seq<char> {
    let s = without_white(el);
    if s.len() == 0 {
        s
    } else if "mxc://"@.is_prefix_of(s) || s.contains(':') || s.contains('/') {
        el
    } else {
        "mxc://"@ + host + "/"@ + s
    }
}

/// Completes one media URI.
pub fn convert_to_full_mxc_uri(el: &str, host: &str) -> (out: String)
    ensures
        out@ == full_mxc_uri(el@, host@),
{
    let s = remove_white(el);
    if s.as_str().is_empty() {
        return s;
    }
    if starts_with(s.as_str(), "mxc://") || contains_char(s.as_str(), ':') || contains_char(
        s.as_str(),
        '/',
    ) {
        return el.to_string();
    }
    let mut out = "mxc://".to_string();
    out.append(host);
    out.append("/");
    out.append(s.as_str());
    out
}

/// Completes the media URIs of a list. `SomeStrangeUriKey` becomes
/// `mxc://matrix.server.org/SomeStrangeUriKey`.
pub fn convert_to_full_mxc_uris(list: &mut Vec<String>, default_host: &str)
    ensures
        texts(final(list)@) == nonblank(
            nonblank(texts(old(list)@)).map_values(|x: Seq<char>| full_mxc_uri(x, default_host@)),
        ),
{
    drop_blank(list);
    let ghost kept = texts(list@);
    let mut out: Vec<String> = Vec::new();
    let mut i: usize = 0;
    while i < list.len()
        invariant
            i <= list.len(),
            out.len() == i,
            kept == texts(list@),
            forall|j: int|
                0 <= j < i ==> (#[trigger] out@[j])@ == full_mxc_uri(kept[j], default_host@),
        decreases list.len() - i,
    {
        out.push(convert_to_full_mxc_uri(list[i].as_str(), default_host));
        i += 1;
    }
    assert(texts(out@) =~= kept.map_values(|x: Seq<char>| full_mxc_uri(x, default_host@)));
    drop_blank(&mut out);
    *list = out;
}

/// The entries that are not, once trimmed, the mark.
pub open spec fn unmarked(list: Seq<Seq<char>>, mark: Seq<char>) -> Seq<Seq<char>>
    decreases list.len(),
{
    if list.len() == 0 {
        list
    } else if trimmed(list.last()) == mark {
        unmarked(list.drop_last(), mark)
    } else {
        unmarked(list.drop_last(), mark).push(list.last())
    }
}

/// Whether some entry is, once trimmed, the mark.
pub open spec fn has_mark(list: Seq<Seq<char>>, mark: Seq<char>) -> bool {
    exists|i: int| 0 <= i < list.len() && trimmed(#[trigger] list[i]) == mark
}

/// Removes the entries that are, once trimmed, the mark, and says whether there were any.
fn take_marked(list: &mut Vec<String>, mark: &str) -> (found: bool)
    ensures
        texts(final(list)@) == unmarked(texts(old(list)@), mark@),
        found == has_mark(texts(old(list)@), mark@),
{
    let mut out: Vec<String> = Vec::new();
    let mut found = false;
    let mut i: usize = 0;
    let ghost all = texts(list@);
    assert(all.take(0) =~= Seq::empty());
    assert(texts(out@) =~= Seq::empty());
    while i < list.len()
        invariant
            i <= list.len(),
            all == texts(list@),
            texts(out@) == unmarked(all.take(i as int), mark@),
            found == exists|j: int| 0 <= j < i && trimmed(#[trigger] all[j]) == mark@,
        decreases list.len() - i,
    {
        let ghost before = texts(out@);
        assert(all.take(i + 1).drop_last() =~= all.take(i as int));
        let t = trim(list[i].as_str());
        assert(all[i as int] == list@[i as int]@);
        if same_text(t.as_str(), mark) {
            found = true;
        } else {
            out.push(list[i].clone());
            assert(texts(out@) =~= before.push(all[i as int]));
        }
        i += 1;
    }
    assert(all.take(all.len() as int) =~= all);
    *list = out;
    found
}

/// The rooms once the shortcut `-` is replaced by the default room. Where it stood the default
/// room comes once, at the end.
pub open spec fn minus_replaced(list: Seq<Seq<char>>, default_room: Seq<char>) -> Seq<Seq<char>> {
    if has_mark(list, "-"@) {
        unmarked(list.push(default_room), "-"@)
    } else {
        unmarked(list, "-"@)
    }
}

/// Replaces the shortcut `-` by the default room.
pub fn replace_minus_with_default_room(list: &mut Vec<String>, default_room: &str)
    ensures
        texts(final(list)@) == minus_replaced(texts(old(list)@), default_room@),
{
    let ghost all = texts(list@);
    let found = take_marked(list, "-");
    if found {
        let ghost before = texts(list@);
        assert(all.push(default_room@).drop_last() =~= all);
        let t = trim(default_room);
        if !same_text(t.as_str(), "-") {
            list.push(default_room.to_string());
            assert(texts(list@) =~= before.push(default_room@));
        }
    }
}

/// The rooms once the shortcut `*` is replaced by all known rooms.
pub open spec fn star_replaced(list: Seq<Seq<char>>, known: Seq<Seq<char>>) -> Seq<Seq<char>> {
    if has_mark(list, "*"@) {
        unmarked(list, "*"@) + known
    } else {
        list
    }
}

/// Replaces the shortcut `*` by all rooms that the user knows about.
pub fn replace_star_with_rooms(list: &mut Vec<String>, known: &Vec<String>)
    ensures
        texts(final(list)@) == star_replaced(texts(old(list)@), texts(known@)),
{
    let ghost all = texts(list@);
    let found = take_marked(list, "*");
    if found {
        let ghost before = texts(list@);
        let mut more = copy_texts(known);
        let ghost more_texts = texts(more@);
        list.append(&mut more);
        assert(texts(list@) =~= before + more_texts);
    } else {
        proof {
            lemma_unmarked_same(all, "*"@);
        }
    }
}

/// Without the mark nothing is removed.
proof fn lemma_unmarked_same(list: Seq<Seq<char>>, mark: Seq<char>)
    requires
        !has_mark(list, mark),
    ensures
        unmarked(list, mark) == list,
    decreases list.len(),
{
    if list.len() > 0 {
        assert(trimmed(list[list.len() - 1]) != mark);
        assert forall|i: int| 0 <= i < list.drop_last().len() implies trimmed(
            #[trigger] list.drop_last()[i],
        ) != mark by {
            assert(list.drop_last()[i] == list[i]);
        }
        lemma_unmarked_same(list.drop_last(), mark);
        assert(list.drop_last().push(list.last()) =~= list);
    }
}

/// What is left to do to turn a room given on the command line into a room id.
#[derive(Debug)]
pub enum RoomStep {
    /// Nothing: this is the room.
    Done(String),
    /// The server must be asked for the room that this alias stands for.
    Resolve(String),
}

/// What is left to do, as a mathematical value.
pub enum RoomPlan {
    Done(Seq<char>),
    Resolve(Seq<char>),
}

impl View for RoomStep {
    type V = RoomPlan;

    open spec fn view(&self) -> RoomPlan {
        match self {
            RoomStep::Done(room) => RoomPlan::Done(room@),
            RoomStep::Resolve(alias) => RoomPlan::Resolve(alias@),
        }
    }
}

/// The complete room id or alias for a room given on the command line. What begins with neither
/// sign, a backslash among them, is taken for the name of an alias.
pub open spec fn full_room(room: Seq<char>, host: Seq<char>) -> Seq<char> {
    let s = without_white(room);
    if begins(s, '@') {
        s
    } else if begins(s, '!') {
        with_host(s, host)
    } else {
        with_host(with_sigil(s, '#'), host)
    }
}

/// How a room given on the command line becomes a room id: a room id is completed, an alias must
/// be resolved, and an alias that is not valid gives nothing.
pub open spec fn room_plan(room: Seq<char>, host: Seq<char>) -> RoomPlan {
    let s = full_room(room, host);
    let alias = replaced(s, "\\#"@, "#"@);
    if begins(s, '@') || begins(s, '!') {
        RoomPlan::Done(s)
    } else if alias_id_ok(alias) {
        RoomPlan::Resolve(alias)
    } else {
        RoomPlan::Done(Seq::empty())
    }
}

/// The room id that comes out of a plan, given what the server answered; nothing where it knows
/// no such alias.
pub open spec fn settled(plan: RoomPlan, answer: Option<Seq<char>>) -> Seq<char> {
    match plan {
        RoomPlan::Done(room) => room,
        RoomPlan::Resolve(_) => match answer {
            Some(room) => room,
            None => Seq::empty(),
        },
    }
}

/// Decides how a room given on the command line becomes a room id.
/// `!irywieryiwre` becomes `!irywieryiwre:matrix.server.com`; `john`, `#john` and
/// `#john:matrix.server.com` must be resolved.
pub fn convert_to_full_room_id(room: &str, default_host: &str) -> (step: RoomStep)
    ensures
        step@ == room_plan(room@, default_host@),
{
    let full = complete_room(room, default_host);
    let alias = replace_text(full.as_str(), "\\#", "#");
    let valid = is_alias_id(alias.as_str());
    plan_room(full, alias, valid)
}

/// The complete room id or alias for a room given on the command line.
pub fn complete_room(room: &str, default_host: &str) -> (out: String)
    ensures
        out@ == full_room(room@, default_host@),
{
    let s = remove_white(room);
    if begins_with(s.as_str(), '@') {
        s
    } else if begins_with(s.as_str(), '!') {
        complete(s.as_str(), '!', default_host)
    } else {
        complete(s.as_str(), '#', default_host)
    }
}

/// The plan for a complete room id or alias, given whether the alias in it is valid.
pub fn plan_room(full: String, alias: String, valid: bool) -> (step: RoomStep)
    ensures
        step@ == (if begins(full@, '@') || begins(full@, '!') {
            RoomPlan::Done(full@)
        } else if valid {
            RoomPlan::Resolve(alias@)
        } else {
            RoomPlan::Done(Seq::empty())
        }),
{
    if begins_with(full.as_str(), '@') || begins_with(full.as_str(), '!') {
        RoomStep::Done(full)
    } else if valid {
        RoomStep::Resolve(alias)
    } else {
        RoomStep::Done(String::new())
    }
}

/// The room id that comes out of a step, given what the server answered.
pub fn settle_room(step: &RoomStep, answer: Option<&str>) -> (out: String)
    ensures
        out@ == settled(step@, crate::text::opt_str(answer)),
{
    match step {
        RoomStep::Done(room) => room.clone(),
        RoomStep::Resolve(_) => match answer {
            Some(room) => room.to_string(),
            None => String::new(),
        },
    }
}

/// The steps of a list of rooms, without those that are nothing but white space.
pub fn convert_to_full_room_ids(list: &Vec<String>, default_host: &str) -> (steps: Vec<RoomStep>)
    ensures
        steps@.map_values(|s: RoomStep| s@) == nonblank(texts(list@)).map_values(
            |x: Seq<char>| room_plan(x, default_host@),
        ),
{
    let mut kept = copy_texts(list);
    drop_blank(&mut kept);
    let mut steps: Vec<RoomStep> = Vec::new();
    let mut i: usize = 0;
    while i < kept.len()
        invariant
            i <= kept.len(),
            steps.len() == i,
            forall|j: int|
                0 <= j < i ==> (#[trigger] steps@[j])@ == room_plan(kept@[j]@, default_host@),
        decreases kept.len() - i,
    {
        steps.push(convert_to_full_room_id(kept[i].as_str(), default_host));
        i += 1;
    }
    assert(steps@.map_values(|s: RoomStep| s@) =~= texts(kept@).map_values(
        |x: Seq<char>| room_plan(x, default_host@),
    ));
    steps
}

/// The room ids that come out of the steps, given an answer for each; rooms that came to nothing
/// are left out.
pub fn settle_rooms(steps: &Vec<RoomStep>, answers: &Vec<Option<String>>) -> (out: Vec<String>)
    requires
        steps.len() == answers.len(),
    ensures
        texts(out@) == nonblank(
            Seq::new(
                steps@.len(),
                |i: int| settled(steps@[i]@, crate::text::opt_text(answers@[i])),
            ),
        ),
{
    let mut out: Vec<String> = Vec::new();
    let mut i: usize = 0;
    while i < steps.len()
        invariant
            i <= steps.len(),
            steps.len() == answers.len(),
            out.len() == i,
            forall|j: int|
                0 <= j < i ==> (#[trigger] out@[j])@ == settled(
                    steps@[j]@,
                    crate::text::opt_text(answers@[j]),
                ),
        decreases steps.len() - i,
    {
        let answer: Option<&str> = match &answers[i] {
            Some(a) => Some(a.as_str()),
            None => None,
        };
        out.push(settle_room(&steps[i], answer));
        i += 1;
    }
    assert(texts(out@) =~= Seq::new(
        steps@.len(),
        |i: int| settled(steps@[i]@, crate::text::opt_text(answers@[i])),
    ));
    drop_blank(&mut out);
    out
}

/// Whether a user name has the format of a user id: it begins with an at sign and holds a colon.
pub fn is_valid_username(username: &str) -> (r: bool)
    ensures
        r == (begins(username@, '@') && username@.contains(':')),
{
    begins_with(username, '@') && contains_char(username, ':')
}

/// Whether a room name has the format of a room id: it begins with an exclamation mark and holds
/// exactly one colon.
pub fn is_valid_room_name(name: &str) -> (r: bool)
    ensures
        r == (begins(name@, '!') && crate::text::count_char(name@, ':') == 1),
{
    begins_with(name, '!') && crate::text::count_of(name, ':') == 1
}

/// Whether no white space stands in the text.
pub open spec fn no_white(s: Seq<char>) -> bool {
    forall|i: int| 0 <= i < s.len() ==> !is_white(#[trigger] s[i])
}

/// Removing white space leaves none, and leaves a text alone that has none.
proof fn lemma_without_white(s: Seq<char>)
    ensures
        no_white(without_white(s)),
        no_white(s) ==> without_white(s) == s,
    decreases s.len(),
{
    if s.len() > 0 {
        lemma_without_white(s.drop_last());
        if no_white(s) {
            assert(no_white(s.drop_last()));
            assert(!is_white(s[s.len() - 1]));
            assert(s.drop_last().push(s.last()) =~= s);
        }
    }
}

/// A completed text without white space is complete, and has none either.
proof fn lemma_complete(s: Seq<char>, sigil: char, host: Seq<char>)
    requires
        no_white(s),
        no_white(host),
        !is_white(sigil),
    ensures
        no_white(with_host(with_sigil(s, sigil), host)),
        with_host(
            with_sigil(with_host(with_sigil(s, sigil), host), sigil),
            host,
        ) == with_host(with_sigil(s, sigil), host),
        begins(with_host(with_sigil(s, sigil), host), sigil),
{
    let t = with_sigil(s, sigil);
    let u = with_host(t, host);
    assert(no_white(t));
    assert(no_white(u));
    assert(u[0] == sigil);
    if !t.contains(':') {
        assert(u[t.len() as int] == ':');
        assert(u.contains(':'));
    }
}

/// Completing an alias a second time changes nothing.
pub proof fn law_full_room_alias_once(el: Seq<char>, host: Seq<char>)
    requires
        no_white(host),
    ensures
        full_room_alias(full_room_alias(el, host), host) == full_room_alias(el, host),
{
    lemma_without_white(el);
    let s = without_white(el);
    if begins(s, '!') {
        lemma_without_white(s);
    } else {
        lemma_complete(s, '#', host);
        lemma_without_white(with_host(with_sigil(s, '#'), host));
    }
}

/// Completing a user id a second time changes nothing.
pub proof fn law_full_user_id_once(el: Seq<char>, host: Seq<char>)
    requires
        no_white(host),
    ensures
        full_user_id(full_user_id(el, host), host) == full_user_id(el, host),
{
    lemma_without_white(el);
    let s = without_white(el);
    if begins(s, '!') || begins(s, '#') {
        lemma_without_white(s);
    } else {
        lemma_complete(s, '@', host);
        lemma_without_white(with_host(with_sigil(s, '@'), host));
    }
}

/// Completing an alias a second time changes nothing.
pub proof fn law_full_alias_id_once(el: Seq<char>, host: Seq<char>)
    requires
        no_white(host),
    ensures
        full_alias_id(full_alias_id(el, host), host) == full_alias_id(el, host),
{
    lemma_without_white(el);
    let s = without_white(el);
    if begins(s, '!') || begins(s, '@') {
        lemma_without_white(s);
    } else {
        lemma_complete(s, '#', host);
        lemma_without_white(with_host(with_sigil(s, '#'), host));
    }
}

/// White space is removed from the parts of a text as from the whole.
proof fn lemma_without_white_parts(a: Seq<char>, b: Seq<char>)
    ensures
        without_white(a + b) == without_white(a) + without_white(b),
    decreases b.len(),
{
    if b.len() == 0 {
        assert(a + b =~= a);
        assert(without_white(a) + without_white(b) =~= without_white(a));
    } else {
        assert((a + b).drop_last() =~= a + b.drop_last());
        lemma_without_white_parts(a, b.drop_last());
        if !is_white(b.last()) {
            assert((without_white(a) + without_white(b.drop_last())).push(b.last())
                =~= without_white(a) + without_white(b.drop_last()).push(b.last()));
        }
    }
}

/// Completing a media URI a second time changes nothing.
pub proof fn law_full_mxc_uri_once(el: Seq<char>, host: Seq<char>)
    ensures
        full_mxc_uri(full_mxc_uri(el, host), host) == full_mxc_uri(el, host),
{
    let s = without_white(el);
    let u = full_mxc_uri(el, host);
    if s.len() > 0 && !("mxc://"@.is_prefix_of(s) || s.contains(':') || s.contains('/')) {
        reveal_strlit("mxc://");
        assert(no_white("mxc://"@));
        lemma_without_white("mxc://"@);
        assert(u =~= "mxc://"@ + (host + "/"@ + s));
        lemma_without_white_parts("mxc://"@, host + "/"@ + s);
        let t = without_white(u);
        assert(t =~= "mxc://"@ + without_white(host + "/"@ + s));
        assert(t.subrange(0, 6) =~= "mxc://"@);
    }
}

/// A character that is not in the first part is found where the second begins with it.
proof fn lemma_first_after(a: Seq<char>, b: Seq<char>, c: char, i: int)
    requires
        0 <= i <= a.len(),
        !a.contains(c),
        b.len() > 0,
        b[0] == c,
    ensures
        first_from(a + b, c, i) == a.len(),
    decreases a.len() - i,
{
    if i < a.len() {
        assert(a.contains(a[i]));
        lemma_first_after(a, b, c, i + 1);
    } else {
        assert((a + b)[i] == c);
    }
}

/// A character that is in a text is found in it.
proof fn lemma_first_found(a: Seq<char>, c: char, i: int)
    requires
        0 <= i <= a.len(),
    ensures
        (exists|j: int| i <= j < a.len() && a[j] == c) ==> first_from(a, c, i) < a.len(),
        !(exists|j: int| i <= j < a.len() && a[j] == c) ==> first_from(a, c, i) == a.len(),
        i <= first_from(a, c, i) <= a.len(),
    decreases a.len() - i,
{
    if i < a.len() && a[i] != c {
        lemma_first_found(a, c, i + 1);
    }
}

/// A complete alias has the same local part as the text that it was made of.
pub proof fn law_local_part_is_kept(el: Seq<char>, host: Seq<char>)
    ensures
        short_alias_id(full_alias_id(el, host)) == short_alias_id(el),
{
    lemma_without_white(el);
    let s = without_white(el);
    lemma_without_white(s);
    if !(begins(s, '!') || begins(s, '@')) {
        let t = with_sigil(s, '#');
        assert(no_white(t));
        lemma_without_white(t);
        let base = t.skip(1);
        assert(t =~= seq!['#'] + base);
        if t.contains(':') {
            assert(begins(s, '#') ==> s.skip(1) == base);
            assert(!begins(s, '#') ==> base =~= s);
        } else {
            let u = t.push(':') + host;
            assert(u =~= t + (seq![':'] + host));
            lemma_without_white_parts(t, seq![':'] + host);
            lemma_without_white_parts(seq![':'], host);
            lemma_without_white(seq![':']);
            let v = without_white(u);
            let tail = seq![':'] + without_white(host);
            assert(v =~= t + tail);
            assert(v[0] == '#');
            assert(v.skip(1) =~= base + tail);
            assert(!base.contains(':')) by {
                if base.contains(':') {
                    let j = choose|j: int| 0 <= j < base.len() && base[j] == ':';
                    assert(t[j + 1] == ':');
                }
            }
            lemma_first_after(base, tail, ':', 0);
            assert((base + tail).take(base.len() as int) =~= base);
            lemma_first_found(base, ':', 0);
            assert(base.take(base.len() as int) =~= base);
            assert(begins(s, '#') ==> s.skip(1) == base);
            assert(!begins(s, '#') ==> base =~= s);
        }
    }
}

/// A room id, once complete, stays as it is and needs no answer from the server.
pub proof fn law_room_id_is_done(room: Seq<char>, host: Seq<char>)
    requires
        no_white(host),
        begins(without_white(room), '!'),
    ensures
        room_plan(room, host) == RoomPlan::Done(full_room(room, host)),
        full_room(full_room(room, host), host) == full_room(room, host),
{
    lemma_without_white(room);
    let s = without_white(room);
    assert(with_sigil(s, '!') == s);
    lemma_complete(s, '!', host);
    lemma_without_white(full_room(room, host));
}

/// Every room reference with which the server is asked is a valid alias.
pub proof fn law_resolved_aliases_are_valid(room: Seq<char>, host: Seq<char>)
    ensures
        room_plan(room, host) matches RoomPlan::Resolve(alias) ==> alias_id_ok(alias),
{
}

/// After the shortcut is replaced it is gone.
pub proof fn law_minus_is_gone(list: Seq<Seq<char>>, default_room: Seq<char>)
    ensures
        !has_mark(minus_replaced(list, default_room), "-"@),
{
    lemma_unmarked_free(list, "-"@);
    lemma_unmarked_free(list.push(default_room), "-"@);
}

/// What is kept is free of the mark.
proof fn lemma_unmarked_free(list: Seq<Seq<char>>, mark: Seq<char>)
    ensures
        !has_mark(unmarked(list, mark), mark),
    decreases list.len(),
{
    if list.len() > 0 {
        lemma_unmarked_free(list.drop_last(), mark);
        let kept = unmarked(list.drop_last(), mark);
        if trimmed(list.last()) != mark {
            assert forall|i: int| 0 <= i < kept.push(list.last()).len() implies trimmed(
                #[trigger] kept.push(list.last())[i],
            ) != mark by {
                if i < kept.len() {
                    assert(kept.push(list.last())[i] == kept[i]);
                }
            }
        }
    }
}

/// Lists without the shortcuts are left as they are.
pub proof fn law_no_shortcut_no_change(
    list: Seq<Seq<char>>,
    default_room: Seq<char>,
    known: Seq<Seq<char>>,
)
    ensures
        !has_mark(list, "-"@) ==> minus_replaced(list, default_room) == list,
        !has_mark(list, "*"@) ==> star_replaced(list, known) == list,
{
    if !has_mark(list, "-"@) {
        lemma_unmarked_same(list, "-"@);
    }
}

/// A name alone is completed with its sign in front and the host behind; with its sign, or with a
/// server of its own, nothing is added that is there already. A room id gets a host where it has
/// none, and a user is left alone where rooms are expected.
pub proof fn law_names_are_completed(name: Seq<char>, server: Seq<char>, host: Seq<char>)
    requires
        no_white(name),
        no_white(server),
        !name.contains(':'),
        !begins(name, '!'),
        !begins(name, '#'),
        !begins(name, '@'),
    ensures
        full_room_alias(name, host) == seq!['#'] + name + seq![':'] + host,
        full_room_alias(seq!['#'] + name, host) == seq!['#'] + name + seq![':'] + host,
        full_room_alias(seq!['#'] + name + seq![':'] + server, host) == seq!['#'] + name + seq![':']
            + server,
        full_alias_id(name, host) == seq!['#'] + name + seq![':'] + host,
        full_alias_id(seq!['#'] + name, host) == seq!['#'] + name + seq![':'] + host,
        full_alias_id(seq!['#'] + name + seq![':'] + server, host) == seq!['#'] + name + seq![':']
            + server,
        full_user_id(name, host) == seq!['@'] + name + seq![':'] + host,
        full_user_id(seq!['@'] + name, host) == seq!['@'] + name + seq![':'] + host,
        full_user_id(seq!['@'] + name + seq![':'] + server, host) == seq!['@'] + name + seq![':']
            + server,
        full_room(name, host) == seq!['#'] + name + seq![':'] + host,
        full_room(seq!['#'] + name, host) == seq!['#'] + name + seq![':'] + host,
        full_room(seq!['!'] + name, host) == seq!['!'] + name + seq![':'] + host,
        full_room(seq!['!'] + name + seq![':'] + server, host) == seq!['!'] + name + seq![':']
            + server,
        full_room(seq!['@'] + name, host) == seq!['@'] + name,
{
    lemma_without_white(name);
    lemma_one_name_completed(name, server, host, '#');
    lemma_one_name_completed(name, server, host, '@');
    lemma_one_name_completed(name, server, host, '!');
}

/// The same for a sign.
proof fn lemma_one_name_completed(
    name: Seq<char>,
    server: Seq<char>,
    host: Seq<char>,
    sigil: char,
)
    requires
        no_white(name),
        no_white(server),
        !name.contains(':'),
        sigil == '#' || sigil == '@' || sigil == '!',
        !begins(name, sigil),
    ensures
        with_sigil(name, sigil) == seq![sigil] + name,
        with_sigil(seq![sigil] + name, sigil) == seq![sigil] + name,
        begins(seq![sigil] + name, sigil),
        begins(seq![sigil] + name + seq![':'] + server, sigil),
        without_white(seq![sigil] + name) == seq![sigil] + name,
        without_white(seq![sigil] + name + seq![':'] + server) == seq![sigil] + name + seq![':']
            + server,
        with_host(seq![sigil] + name, host) == seq![sigil] + name + seq![':'] + host,
        with_host(with_sigil(seq![sigil] + name + seq![':'] + server, sigil), host) == seq![sigil]
            + name + seq![':'] + server,
        with_host(seq![sigil] + name + seq![':'] + server, host) == seq![sigil] + name + seq![':']
            + server,
{
    let short = seq![sigil] + name;
    let long = short + seq![':'] + server;
    assert(no_white(short));
    assert(no_white(long));
    lemma_without_white(short);
    lemma_without_white(long);
    assert(!short.contains(':')) by {
        if short.contains(':') {
            let i = choose|i: int| 0 <= i < short.len() && short[i] == ':';
            if i > 0 {
                assert(name[i - 1] == ':');
                assert(name.contains(':'));
            }
        }
    }
    assert(long[short.len() as int] == ':');
    assert(long.contains(':'));
    assert(short.push(':') + host =~= short + seq![':'] + host);
}

/// The local part of an alias is what stands between its sign and the server.
pub proof fn law_local_part_of_an_alias(name: Seq<char>, server: Seq<char>)
    requires
        no_white(name),
        no_white(server),
        !name.contains(':'),
        !begins(name, '!'),
        !begins(name, '#'),
    ensures
        short_alias_id(name) == name,
        short_alias_id(seq!['#'] + name) == name,
        short_alias_id(seq!['#'] + name + seq![':'] + server) == name,
{
    lemma_without_white(name);
    let short = seq!['#'] + name;
    let long = short + seq![':'] + server;
    assert(no_white(short));
    assert(no_white(long));
    lemma_without_white(short);
    lemma_without_white(long);
    assert(short.skip(1) =~= name);
    let rest = long.skip(1);
    assert(rest =~= name + (seq![':'] + server));
    lemma_first_is(name, ':', 0);
    lemma_first_is_at(rest, ':', 0, name.len() as int);
    assert(name.take(name.len() as int) =~= name);
    assert(rest.take(name.len() as int) =~= name);
}

/// A character that does not stand in a text is found at its end.
proof fn lemma_first_is(s: Seq<char>, c: char, i: int)
    requires
        !s.contains(c),
        0 <= i <= s.len(),
    ensures
        first_from(s, c, i) == s.len(),
    decreases s.len() - i,
{
    if i < s.len() {
        assert(s.contains(s[i]));
        lemma_first_is(s, c, i + 1);
    }
}

/// A character is found where it first stands.
proof fn lemma_first_is_at(s: Seq<char>, c: char, i: int, at: int)
    requires
        0 <= i <= at < s.len(),
        s[at] == c,
        forall|j: int| i <= j < at ==> #[trigger] s[j] != c,
    ensures
        first_from(s, c, i) == at,
    decreases at - i,
{
    if i < at {
        assert(s[i] != c);
        lemma_first_is_at(s, c, i + 1, at);
    }
}

/// A media id alone is completed with the scheme and the host; what holds a colon or a slash is
/// left as it is, and nothing is made of white space.
pub proof fn law_media_ids_are_completed(id: Seq<char>, host: Seq<char>)
    ensures
        id.len() > 0 && no_white(id) && !id.contains(':') && !id.contains('/') ==> full_mxc_uri(
            id,
            host,
        ) == "mxc://"@ + host + "/"@ + id,
        no_white(id) && (id.contains(':') || id.contains('/')) ==> full_mxc_uri(id, host) == id,
        without_white(id).len() == 0 ==> full_mxc_uri(id, host).len() == 0,
{
    if no_white(id) {
        lemma_without_white(id);
        reveal_strlit("mxc://");
        if "mxc://"@.is_prefix_of(id) {
            assert(id.take(6)[3] == ':');
            assert(id[3] == ':');
            assert(id.contains(':'));
        }
    }
}

/// A valid media URI has the server and the media id between which its slash stands.
pub proof fn law_parts_of_a_media_uri(server: Seq<char>, media: Seq<char>)
    requires
        !server.contains('/'),
    ensures
        mxc_ok("mxc://"@ + server + "/"@ + media) ==> mxc_parts_of(
            "mxc://"@ + server + "/"@ + media,
        ) == Some((server, media)),
        !mxc_ok(server) ==> mxc_parts_of(server) is None,
{
    reveal_strlit("mxc://");
    reveal_strlit("/");
    let uri = "mxc://"@ + server + "/"@ + media;
    let at = 6 + server.len() as int;
    assert(uri[at] == '/');
    assert forall|j: int| 6 <= j < at implies #[trigger] uri[j] != '/' by {
        assert(uri[j] == server[j - 6]);
    }
    lemma_first_is_at(uri, '/', 6, at);
    assert(uri.subrange(6, at) =~= server);
    assert(uri.skip(at + 1) =~= media);
}

/// The entries that are more than white space are kept, each of them and in their order.
pub proof fn law_nonblank_entries_are_kept(a: Seq<Seq<char>>, b: Seq<Seq<char>>, t: Seq<char>)
    ensures
        nonblank(a + b) == nonblank(a) + nonblank(b),
        trimmed(t).len() > 0 ==> nonblank(seq![t]) == seq![t],
        trimmed(t).len() == 0 ==> nonblank(seq![t]).len() == 0,
    decreases b.len(),
{
    let none = Seq::<Seq<char>>::empty();
    assert(seq![t].drop_last() =~= none);
    assert(nonblank(none) =~= none);
    assert(none.push(t) =~= seq![t]);
    if b.len() == 0 {
        assert(a + b =~= a);
        assert(nonblank(a) + nonblank(b) =~= nonblank(a));
    } else {
        law_nonblank_entries_are_kept(a, b.drop_last(), t);
        assert((a + b).drop_last() =~= a + b.drop_last());
        assert((a + b).last() == b.last());
        assert(nonblank(a + b) =~= nonblank(a) + nonblank(b));
    }
}

/// The entries that are not the mark are kept, each of them and in their order.
pub proof fn law_unmarked_entries_are_kept(
    a: Seq<Seq<char>>,
    b: Seq<Seq<char>>,
    t: Seq<char>,
    mark: Seq<char>,
)
    ensures
        unmarked(a + b, mark) == unmarked(a, mark) + unmarked(b, mark),
        trimmed(t) != mark ==> unmarked(seq![t], mark) == seq![t],
        trimmed(t) == mark ==> unmarked(seq![t], mark).len() == 0,
    decreases b.len(),
{
    let none = Seq::<Seq<char>>::empty();
    assert(seq![t].drop_last() =~= none);
    assert(unmarked(none, mark) =~= none);
    assert(none.push(t) =~= seq![t]);
    if b.len() == 0 {
        assert(a + b =~= a);
        assert(unmarked(a, mark) + unmarked(b, mark) =~= unmarked(a, mark));
    } else {
        law_unmarked_entries_are_kept(a, b.drop_last(), t, mark);
        assert((a + b).drop_last() =~= a + b.drop_last());
        assert((a + b).last() == b.last());
        assert(unmarked(a + b, mark) =~= unmarked(a, mark) + unmarked(b, mark));
    }
}

/// A hyphen among the rooms stands for the default room, which comes behind all other rooms, and
/// an asterisk for all known rooms, which come behind the others; the others keep their order.
pub proof fn law_shortcuts_stand_for_rooms(
    a: Seq<Seq<char>>,
    mark: Seq<char>,
    b: Seq<Seq<char>>,
    default_room: Seq<char>,
    known: Seq<Seq<char>>,
)
    ensures
        trimmed(mark) == "-"@ && trimmed(default_room) != "-"@ && !has_mark(a, "-"@) && !has_mark(
            b,
            "-"@,
        ) ==> minus_replaced(a.push(mark) + b, default_room) == (a + b).push(default_room),
        trimmed(mark) == "*"@ && !has_mark(a, "*"@) && !has_mark(b, "*"@) ==> star_replaced(
            a.push(mark) + b,
            known,
        ) == a + b + known,
{
    let list = a.push(mark) + b;
    assert(list[a.len() as int] == mark);
    assert(a.push(mark) =~= a + seq![mark]);
    if trimmed(mark) == "-"@ && trimmed(default_room) != "-"@ && !has_mark(a, "-"@) && !has_mark(
        b,
        "-"@,
    ) {
        assert(has_mark(list, "-"@));
        lemma_unmarked_same(a, "-"@);
        lemma_unmarked_same(b, "-"@);
        law_unmarked_entries_are_kept(a, seq![mark], mark, "-"@);
        law_unmarked_entries_are_kept(a + seq![mark], b, mark, "-"@);
        assert(list.push(default_room) =~= list + seq![default_room]);
        law_unmarked_entries_are_kept(list, seq![default_room], default_room, "-"@);
        assert(unmarked(seq![mark], "-"@) =~= Seq::empty());
        assert(minus_replaced(list, default_room) =~= (a + b).push(default_room));
    }
    if trimmed(mark) == "*"@ && !has_mark(a, "*"@) && !has_mark(b, "*"@) {
        assert(has_mark(list, "*"@));
        lemma_unmarked_same(a, "*"@);
        lemma_unmarked_same(b, "*"@);
        law_unmarked_entries_are_kept(a, seq![mark], mark, "*"@);
        law_unmarked_entries_are_kept(a + seq![mark], b, mark, "*"@);
        assert(unmarked(seq![mark], "*"@) =~= Seq::empty());
        assert(star_replaced(list, known) =~= a + b + known);
    }
}

/// A room id and a user are taken as they are, a valid alias is asked for, and of one that is not
/// valid nothing is made; with the answer of the server its room is taken, and without one none.
pub proof fn law_only_aliases_are_asked_for(
    room: Seq<char>,
    host: Seq<char>,
    answer: Option<Seq<char>>,
    id: Seq<char>,
)
    ensures
        begins(full_room(room, host), '!') || begins(full_room(room, host), '@') ==> room_plan(
            room,
            host,
        ) == RoomPlan::Done(full_room(room, host)),
        begins(full_room(room, host), '#') && !full_room(room, host).contains('\\') ==> room_plan(
            room,
            host,
        ) == (if alias_id_ok(full_room(room, host)) {
            RoomPlan::Resolve(full_room(room, host))
        } else {
            RoomPlan::Done(Seq::empty())
        }),
        settled(RoomPlan::Done(id), answer) == id,
        settled(RoomPlan::Resolve(room), Some(id)) == id,
        settled(RoomPlan::Resolve(room), None).len() == 0,
{
    let s = full_room(room, host);
    if !s.contains('\\') {
        reveal_strlit("\\#");
        if crate::text::occurs(s, "\\#"@) {
            crate::text::lemma_occurs_contains(s, "\\#"@, 0);
        }
        crate::text::law_absent_text_is_not_replaced(s, "\\#"@, "#"@);
    }
}

/// A media URI can be taken apart where its scheme and server take less than 256 characters, or
/// where it has no slash behind them.
pub proof fn law_server_names_that_fit(server: Seq<char>, media: Seq<char>)
    requires
        !server.contains('/'),
    ensures
        mxc_short("mxc://"@ + server + "/"@ + media) <==> server.len() + 6 < 256,
        mxc_short("mxc://"@ + server),
{
    reveal_strlit("mxc://");
    reveal_strlit("/");
    let uri = "mxc://"@ + server + "/"@ + media;
    let at = 6 + server.len() as int;
    assert(uri[at] == '/');
    assert forall|j: int| 6 <= j < at implies #[trigger] uri[j] != '/' by {
        assert(uri[j] == server[j - 6]);
    }
    lemma_first_is_at(uri, '/', 6, at);
    let bare = "mxc://"@ + server;
    assert(!(exists|j: int| 6 <= j < bare.len() && bare[j] == '/')) by {
        if exists|j: int| 6 <= j < bare.len() && bare[j] == '/' {
            let j = choose|j: int| 6 <= j < bare.len() && bare[j] == '/';
            assert(server[j - 6] == '/');
        }
    }
    lemma_first_found(bare, '/', 6);
}

} // verus!
