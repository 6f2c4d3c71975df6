//! What is printed of events that are received.

use vstd::prelude::*;

use crate::account::{is_offset, millis_text, show_millis, shows_millis, well_shown};
use crate::ids::{begins, begins_with, is_room_id, room_id_ok};
use crate::json::{compact_text, write_compact, Json, JsonDoc};
use crate::text::{
    chars_of, decimal, decimal_of, joined, lemma_differ_inside, lemma_joined_five,
    lemma_joined_four, opt_text, same_text, string_of, texts, trim, trimmed,
};
use crate::types::{Error, Output};

verus! {

/// How events are received and shown.
#[derive(Debug)]
pub struct ListenContext {
    pub whoami: String,
    /// Whether the user's own messages are shown.
    pub listen_self: bool,
    pub output: Output,
    pub print_event_id: bool,
}

/// What an event says.
#[derive(Debug)]
pub enum EventBody {
    /// A message.
    Message(String),
    /// A message whose content was removed.
    RedactedMessage,
    /// The removal of the content of another event.
    Redaction,
    /// A message that could not be decrypted.
    Undecryptable,
}

/// An event that was received.
#[derive(Debug)]
pub struct ReceivedEvent {
    pub room_id: String,
    pub room_nick: String,
    pub sender: String,
    pub sender_nick: String,
    /// When the event was sent, in milliseconds.
    pub timestamp: u64,
    pub event_id: String,
    pub body: EventBody,
    /// The content as JSON.
    pub content: String,
}

/// Whether an event is the user's own and not to be shown.
pub open spec fn is_skipped(sender: Seq<char>, ctx: ListenContext) -> bool {
    ctx.whoami@ == sender && !ctx.listen_self
}

/// Whether an event is the user's own and not to be shown.
pub fn skips(sender: &str, ctx: &ListenContext) -> (r: bool)
    ensures
        r == is_skipped(sender@, *ctx),
{
    same_text(ctx.whoami.as_str(), sender) && !ctx.listen_self
}

/// Whether the text of a JSON object holds no fields, given what follows its opening brace.
pub open spec fn no_fields(tail: Seq<char>) -> bool {
    trimmed(tail) == "}"@
}

/// The content of an event with the event id, the sender, the time and the room put in front; a
/// comma follows them where the content has fields of its own. What is no JSON object is left as
/// it is.
pub open spec fn augmented(
    content: Seq<char>,
    event_id: Seq<char>,
    sender: Seq<char>,
    timestamp: u64,
    room_id: Seq<char>,
) -> Seq<char> {
    if begins(content, '{') {
        "{\"event_id\":"@ + compact_text(JsonDoc::Text(event_id)) + ",\"sender\":"@ + compact_text(
            JsonDoc::Text(sender),
        ) + ",\"origin_server_ts\":"@ + decimal(timestamp as nat) + ",\"room_id\":"@ + compact_text(
            JsonDoc::Text(room_id),
        ) + (if no_fields(content.skip(1)) {
            Seq::empty()
        } else {
            ","@
        }) + content.skip(1)
    } else {
        content
    }
}

/// Puts the event id, the sender, the time and the room in front of the content of an event.
pub fn augment_event_json(
    content: &str,
    event_id: &str,
    sender: &str,
    timestamp: u64,
    room_id: &str,
) -> (out: String)
    ensures
        out@ == augmented(content@, event_id@, sender@, timestamp, room_id@),
{
    if !begins_with(content, '{') {
        return content.to_string();
    }
    let cs = chars_of(content);
    let tail = string_of(&cs, 1, cs.len());
    assert(tail@ =~= content@.skip(1));
    let event = write_compact(&Json::Text(event_id.to_string()));
    let from = write_compact(&Json::Text(sender.to_string()));
    let room = write_compact(&Json::Text(room_id.to_string()));
    let time = decimal_of(timestamp);
    let mut out = "{\"event_id\":".to_string();
    out.append(event.as_str());
    out.append(",\"sender\":");
    out.append(from.as_str());
    out.append(",\"origin_server_ts\":");
    out.append(time.as_str());
    out.append(",\"room_id\":");
    out.append(room.as_str());
    let ghost head = out@;
    let rest = trim(tail.as_str());
    if !same_text(rest.as_str(), "}") {
        out.append(",");
    }
    assert(out@ =~= head + (if no_fields(tail@) {
        Seq::empty()
    } else {
        ","@
    }));
    out.append(tail.as_str());
    out
}

/// The last column of the line for an event.
pub open spec fn body_column(ev: ReceivedEvent) -> Seq<char> {
    match ev.body {
        EventBody::Message(body) => body@,
        EventBody::RedactedMessage => "Received redacted event: sender: "@ + ev.sender@,
        EventBody::Redaction => "Received redaction event: sender: "@ + ev.sender@,
        EventBody::Undecryptable => "Encrypted message could not be decrypted"@,
    }
}

/// The line for an event, given how its time is shown.
pub open spec fn event_line(ev: ReceivedEvent, shown: Seq<char>, print_event_id: bool) -> Seq<char> {
    "Message received for room "@ + ev.room_nick@ + " ["@ + ev.room_id@ + "] | sender "@
        + ev.sender_nick@ + " ["@ + ev.sender@ + "] | "@ + shown + (if print_event_id {
        " | "@ + ev.event_id@
    } else {
        Seq::empty()
    }) + " | "@ + body_column(ev) + "\n"@
}

/// The line for an event, given how its time is shown.
pub fn print_event_line(ev: &ReceivedEvent, shown: &str, print_event_id: bool) -> (out: String)
    ensures
        out@ == event_line(*ev, shown@, print_event_id),
        ev.body matches EventBody::Message(text) ==> (" | "@ + text@ + "\n"@).is_suffix_of(out@),
{
    let mut detail = String::new();
    if print_event_id {
        detail.append(" | ");
        detail.append(ev.event_id.as_str());
    }
    assert(detail@ =~= (if print_event_id {
        " | "@ + ev.event_id@
    } else {
        Seq::empty()
    }));
    let mut body = String::new();
    match &ev.body {
        EventBody::Message(text) => body.append(text.as_str()),
        EventBody::RedactedMessage => {
            body.append("Received redacted event: sender: ");
            body.append(ev.sender.as_str());
        },
        EventBody::Redaction => {
            body.append("Received redaction event: sender: ");
            body.append(ev.sender.as_str());
        },
        EventBody::Undecryptable => body.append("Encrypted message could not be decrypted"),
    }
    assert(body@ =~= body_column(*ev));
    let mut out = "Message received for room ".to_string();
    out.append(ev.room_nick.as_str());
    out.append(" [");
    out.append(ev.room_id.as_str());
    out.append("] | sender ");
    out.append(ev.sender_nick.as_str());
    out.append(" [");
    out.append(ev.sender.as_str());
    out.append("] | ");
    out.append(shown);
    out.append(detail.as_str());
    out.append(" | ");
    out.append(body.as_str());
    out.append("\n");
    proof {
        if ev.body is Message {
            law_message_is_printed_whole(*ev, ev.body->Message_0, shown@, print_event_id);
        }
    }
    out
}

/// What is printed of an event, given how its time is shown. The user's own events are skipped
/// where they are not asked for.
pub open spec fn event_printed(ev: ReceivedEvent, ctx: ListenContext, shown: Seq<char>) -> Seq<
    char,
> {
    if is_skipped(ev.sender@, ctx) {
        Seq::empty()
    } else if ctx.output == Output::Text {
        event_line(ev, shown, ctx.print_event_id)
    } else {
        augmented(ev.content@, ev.event_id@, ev.sender@, ev.timestamp, ev.room_id@) + "\n"@
    }
}

/// What is printed of an event, given how its time is shown.
pub fn print_event_at(ev: &ReceivedEvent, ctx: &ListenContext, shown: &str) -> (out: String)
    ensures
        out@ == event_printed(*ev, *ctx, shown@),
{
    if skips(ev.sender.as_str(), ctx) {
        return String::new();
    }
    if ctx.output.is_text() {
        return print_event_line(ev, shown, ctx.print_event_id);
    }
    let mut out = augment_event_json(
        ev.content.as_str(),
        ev.event_id.as_str(),
        ev.sender.as_str(),
        ev.timestamp,
        ev.room_id.as_str(),
    );
    out.append("\n");
    out
}

/// What is printed of an event. How its time is shown depends on the time zone of the machine.
pub fn handle_event(ev: &ReceivedEvent, ctx: &ListenContext) -> (out: String)
    ensures
        exists|shown: Seq<char>|
            shows_millis(ev.timestamp, shown) && out@ == #[trigger] event_printed(*ev, *ctx, shown),
{
    let shown = show_millis(ev.timestamp);
    print_event_at(ev, ctx, shown.as_str())
}

/// The user's own events are shown only where they are asked for.
pub proof fn law_own_events_are_skipped(ev: ReceivedEvent, ctx: ListenContext, shown: Seq<char>)
    requires
        ev.sender@ == ctx.whoami@,
        !ctx.listen_self,
    ensures
        event_printed(ev, ctx, shown) == Seq::<char>::empty(),
{
}

/// The greatest number of messages that can be asked for.
pub const MAX_TAIL: u64 = 9_007_199_254_740_991;

/// The valid room ids of a list, in order.
pub open spec fn listened_rooms(list: Seq<Seq<char>>) -> Seq<Seq<char>>
    decreases list.len(),
{
    if list.len() == 0 {
        list
    } else if room_id_ok(list.last()) {
        listened_rooms(list.drop_last()).push(list.last())
    } else {
        listened_rooms(list.drop_last())
    }
}

/// The rooms whose last messages are shown; texts that are no room ids are skipped. Without any
/// text that is an error.
pub fn tail_rooms(rooms: &Vec<String>) -> (r: Result<Vec<String>, Error>)
    ensures
        rooms@.len() == 0 ==> (r matches Err(e) && e == Error::MissingRoom),
        rooms@.len() > 0 ==> (r matches Ok(list) && texts(list@) == listened_rooms(texts(rooms@))),
{
    if rooms.len() == 0 {
        return Err(Error::MissingRoom);
    }
    let mut out: Vec<String> = Vec::new();
    let mut i: usize = 0;
    let ghost all = texts(rooms@);
    assert(all.take(0) =~= Seq::empty());
    assert(texts(out@) =~= Seq::empty());
    while i < rooms.len()
        invariant
            i <= rooms.len(),
            all == texts(rooms@),
            texts(out@) == listened_rooms(all.take(i as int)),
        decreases rooms.len() - i,
    {
        let ghost before = texts(out@);
        assert(all.take(i + 1).drop_last() =~= all.take(i as int));
        assert(all[i as int] == rooms@[i as int]@);
        if is_room_id(rooms[i].as_str()) {
            out.push(rooms[i].clone());
            assert(texts(out@) =~= before.push(all[i as int]));
        }
        i += 1;
    }
    assert(all.take(all.len() as int) =~= all);
    Ok(out)
}

/// The number of messages to ask for, where it can be asked for.
pub fn tail_limit(number: u64) -> (r: Result<u64, Error>)
    ensures
        number <= MAX_TAIL ==> r == Ok::<u64, Error>(number),
        number > MAX_TAIL ==> (r matches Err(e) && e == Error::InvalidRoom),
{
    if number <= MAX_TAIL {
        Ok(number)
    } else {
        Err(Error::InvalidRoom)
    }
}

/// What is printed of an event among the last messages of a room. A message whose content was
/// removed is shown whoever sent it.
pub open spec fn tail_event_printed(
    ev: ReceivedEvent,
    ctx: ListenContext,
    shown: Seq<char>,
) -> Seq<char> {
    if is_skipped(ev.sender@, ctx) && !(ev.body is RedactedMessage) {
        Seq::empty()
    } else {
        event_line(ev, shown, ctx.print_event_id)
    }
}

/// How the times of the events are shown, given by how many seconds clocks are ahead of UTC at
/// each of these times.
pub open spec fn times_at(events: Seq<ReceivedEvent>, offsets: Seq<int>) -> Seq<Seq<char>> {
    Seq::new(events.len(), |i: int| millis_text(events[i].timestamp, offsets[i]))
}

/// Whether clocks can be ahead of UTC by these seconds at the times of the events.
pub open spec fn offsets_of(events: Seq<ReceivedEvent>, offsets: Seq<int>) -> bool {
    &&& offsets.len() == events.len()
    &&& forall|i: int|
        0 <= i < events.len() ==> is_offset(#[trigger] offsets[i]) && well_shown(
            events[i].timestamp,
            millis_text(events[i].timestamp, offsets[i]),
        )
}

/// What is printed of the last `n` events of a list that has the newest first: the oldest comes
/// first.
pub open spec fn tail_printed(
    events: Seq<ReceivedEvent>,
    ctx: ListenContext,
    shown: Seq<Seq<char>>,
    n: nat,
) -> Seq<char>
    decreases n,
{
    if n == 0 || n > events.len() {
        Seq::empty()
    } else {
        let i = events.len() - n;
        tail_printed(events, ctx, shown, (n - 1) as nat) + tail_event_printed(
            events[i],
            ctx,
            shown[i],
        )
    }
}

/// What is printed of the older events does not depend on the times of newer ones.
proof fn lemma_tail_suffix(
    events: Seq<ReceivedEvent>,
    ctx: ListenContext,
    a: Seq<Seq<char>>,
    b: Seq<Seq<char>>,
    n: nat,
)
    requires
        n <= events.len(),
        forall|i: int| events.len() - n <= i < events.len() ==> #[trigger] a[i] == b[i],
    ensures
        tail_printed(events, ctx, a, n) == tail_printed(events, ctx, b, n),
    decreases n,
{
    if n > 0 {
        lemma_tail_suffix(events, ctx, a, b, (n - 1) as nat);
        assert(a[events.len() - n] == b[events.len() - n]);
    }
}

/// What is printed in plain text of the last messages of a room, which come with the newest
/// first: the oldest is printed first. The time zone of the machine says by how much its clocks
/// are ahead of UTC at the times of the messages.
pub fn listen_tail(events: &Vec<ReceivedEvent>, ctx: &ListenContext) -> (out: String)
    ensures
        exists|offsets: Seq<int>|
            offsets_of(events@, offsets) && out@ == #[trigger] tail_printed(
                events@,
                *ctx,
                times_at(events@, offsets),
                events@.len(),
            ),
{
    let mut out = String::new();
    let mut n: usize = 0;
    let ghost mut offsets: Seq<int> = Seq::new(events@.len(), |i: int| 0);
    while n < events.len()
        invariant
            n <= events.len(),
            offsets.len() == events.len(),
            forall|i: int|
                events.len() - n <= i < events.len() ==> is_offset(#[trigger] offsets[i])
                    && well_shown(
                    events@[i].timestamp,
                    millis_text(events@[i].timestamp, offsets[i]),
                ),
            out@ == tail_printed(events@, *ctx, times_at(events@, offsets), n as nat),
        decreases events.len() - n,
    {
        let at: usize = events.len() - 1 - n;
        let time = show_millis(events[at].timestamp);
        let ghost before = offsets;
        proof {
            let offset = choose|offset: int|
                is_offset(offset) && time@ == #[trigger] millis_text(
                    events@[at as int].timestamp,
                    offset,
                );
            offsets = offsets.update(at as int, offset);
            lemma_tail_suffix(
                events@,
                *ctx,
                times_at(events@, before),
                times_at(events@, offsets),
                n as nat,
            );
        }
        let keep = match events[at].body {
            EventBody::RedactedMessage => true,
            _ => false,
        };
        if keep || !skips(events[at].sender.as_str(), ctx) {
            let line = print_event_line(&events[at], time.as_str(), ctx.print_event_id);
            out.append(line.as_str());
        }
        n += 1;
        assert(events@.len() - n == at);
        assert(times_at(events@, offsets)[at as int] == time@);
    }
    assert(offsets_of(events@, offsets));
    out
}

/// Whether two events say the same.
pub open spec fn same_event(a: ReceivedEvent, b: ReceivedEvent) -> bool {
    &&& a.room_id@ == b.room_id@
    &&& a.room_nick@ == b.room_nick@
    &&& a.sender@ == b.sender@
    &&& a.sender_nick@ == b.sender_nick@
    &&& a.timestamp == b.timestamp
    &&& a.event_id@ == b.event_id@
    &&& a.content@ == b.content@
    &&& body_column(a) == body_column(b)
    &&& a.body is RedactedMessage == b.body is RedactedMessage
}

/// Whether two lists hold the same messages.
pub open spec fn same_messages(a: Seq<ReceivedEvent>, b: Seq<ReceivedEvent>) -> bool {
    a.len() == b.len() && forall|i: int| 0 <= i < a.len() ==> same_event(#[trigger] a[i], b[i])
}

/// The same messages, with the same times shown, are printed alike.
proof fn lemma_tail_same(
    a: Seq<ReceivedEvent>,
    b: Seq<ReceivedEvent>,
    ctx: ListenContext,
    offsets: Seq<int>,
    n: nat,
)
    requires
        same_messages(a, b),
        n <= a.len(),
    ensures
        tail_printed(a, ctx, times_at(a, offsets), n) == tail_printed(
            b,
            ctx,
            times_at(b, offsets),
            n,
        ),
    decreases n,
{
    if n > 0 {
        lemma_tail_same(a, b, ctx, offsets, (n - 1) as nat);
        let i = a.len() - n;
        assert(same_event(a[i], b[i]));
    }
}

/// Two calls on the same messages print the same plain text, as long as the clocks of the machine
/// are ahead of UTC by the same at the times of the messages.
pub proof fn law_same_messages_same_output(
    a: Seq<ReceivedEvent>,
    b: Seq<ReceivedEvent>,
    ctx: ListenContext,
    offsets: Seq<int>,
    first: Seq<char>,
    second: Seq<char>,
)
    requires
        same_messages(a, b),
        first == tail_printed(a, ctx, times_at(a, offsets), a.len()),
        second == tail_printed(b, ctx, times_at(b, offsets), b.len()),
    ensures
        first == second,
{
    lemma_tail_same(a, b, ctx, offsets, a.len());
}

/// Of the messages of a room, all the older ones are printed before all the newer ones.
pub proof fn law_older_messages_first(
    newer: Seq<ReceivedEvent>,
    older: Seq<ReceivedEvent>,
    ctx: ListenContext,
    offsets_newer: Seq<int>,
    offsets_older: Seq<int>,
)
    requires
        offsets_newer.len() == newer.len(),
        offsets_older.len() == older.len(),
    ensures
        tail_printed(
            newer + older,
            ctx,
            times_at(newer + older, offsets_newer + offsets_older),
            (newer + older).len(),
        ) == tail_printed(older, ctx, times_at(older, offsets_older), older.len()) + tail_printed(
            newer,
            ctx,
            times_at(newer, offsets_newer),
            newer.len(),
        ),
{
    lemma_older_first(newer, older, ctx, offsets_newer, offsets_older, (newer + older).len());
}

/// The same for the last `n` messages.
proof fn lemma_older_first(
    newer: Seq<ReceivedEvent>,
    older: Seq<ReceivedEvent>,
    ctx: ListenContext,
    offsets_newer: Seq<int>,
    offsets_older: Seq<int>,
    n: nat,
)
    requires
        offsets_newer.len() == newer.len(),
        offsets_older.len() == older.len(),
        n <= newer.len() + older.len(),
    ensures
        n <= older.len() ==> tail_printed(
            newer + older,
            ctx,
            times_at(newer + older, offsets_newer + offsets_older),
            n,
        ) == tail_printed(older, ctx, times_at(older, offsets_older), n),
        n >= older.len() ==> tail_printed(
            newer + older,
            ctx,
            times_at(newer + older, offsets_newer + offsets_older),
            n,
        ) == tail_printed(older, ctx, times_at(older, offsets_older), older.len()) + tail_printed(
            newer,
            ctx,
            times_at(newer, offsets_newer),
            (n - older.len()) as nat,
        ),
    decreases n,
{
    let all = newer + older;
    let times = times_at(all, offsets_newer + offsets_older);
    let old_part = tail_printed(older, ctx, times_at(older, offsets_older), older.len());
    if n > 0 {
        lemma_older_first(newer, older, ctx, offsets_newer, offsets_older, (n - 1) as nat);
        let i = all.len() - n;
        if n <= older.len() {
            assert(all[i] == older[older.len() - n]);
            assert(times[i] == times_at(older, offsets_older)[older.len() - n]);
        } else {
            let m = (n - older.len()) as nat;
            assert(all[i] == newer[newer.len() - m]);
            assert(times[i] == times_at(newer, offsets_newer)[newer.len() - m]);
            assert(tail_printed(all, ctx, times, n) =~= old_part + tail_printed(
                newer,
                ctx,
                times_at(newer, offsets_newer),
                m,
            ));
        }
    }
    if n == older.len() {
        assert(tail_printed(newer, ctx, times_at(newer, offsets_newer), 0) =~= Seq::empty());
        assert(old_part + Seq::<char>::empty() =~= old_part);
    }
}

/// An event as it was received.
#[derive(Debug)]
pub struct RawLine {
    pub json: String,
    /// The sender, where the event says one.
    pub sender: Option<String>,
}

/// Whether an event is the user's own and not to be shown.
pub open spec fn raw_skipped(ev: RawLine, ctx: ListenContext) -> bool {
    match ev.sender {
        Some(s) => is_skipped(s@, ctx),
        None => false,
    }
}

/// What is printed of the last `n` events of a list that has the newest first.
pub open spec fn raw_tail_printed(events: Seq<RawLine>, ctx: ListenContext, n: nat) -> Seq<char>
    decreases n,
{
    if n == 0 || n > events.len() {
        Seq::empty()
    } else {
        let ev = events[events.len() - n];
        raw_tail_printed(events, ctx, (n - 1) as nat) + (if raw_skipped(ev, ctx) {
            Seq::empty()
        } else {
            ev.json@ + "\n"@
        })
    }
}

/// What is printed as JSON of the last messages of a room, which come with the newest first: the
/// oldest is printed first, as it was received.
pub fn listen_tail_raw(events: &Vec<RawLine>, ctx: &ListenContext) -> (out: String)
    ensures
        out@ == raw_tail_printed(events@, *ctx, events@.len()),
{
    let mut out = String::new();
    let mut n: usize = 0;
    while n < events.len()
        invariant
            n <= events.len(),
            out@ == raw_tail_printed(events@, *ctx, n as nat),
        decreases events.len() - n,
    {
        let at: usize = events.len() - 1 - n;
        let skip = match &events[at].sender {
            Some(s) => skips(s.as_str(), ctx),
            None => false,
        };
        let ghost before = out@;
        if !skip {
            out.append(events[at].json.as_str());
            out.append("\n");
        }
        n += 1;
        assert(events@.len() - n == at);
        assert(out@ =~= raw_tail_printed(events@, *ctx, n as nat));
    }
    out
}

/// Whether two lists hold the same events as they were received.
pub open spec fn same_raw(a: Seq<RawLine>, b: Seq<RawLine>) -> bool {
    &&& a.len() == b.len()
    &&& forall|i: int|
        0 <= i < a.len() ==> (#[trigger] a[i]).json@ == b[i].json@ && opt_text(a[i].sender)
            == opt_text(b[i].sender)
}

/// Two calls on the same messages print the same JSON.
pub proof fn law_same_messages_same_json(a: Seq<RawLine>, b: Seq<RawLine>, ctx: ListenContext)
    requires
        same_raw(a, b),
    ensures
        raw_tail_printed(a, ctx, a.len()) == raw_tail_printed(b, ctx, b.len()),
{
    lemma_raw_same(a, b, ctx, a.len());
}

/// The same for the last `n` messages.
proof fn lemma_raw_same(a: Seq<RawLine>, b: Seq<RawLine>, ctx: ListenContext, n: nat)
    requires
        same_raw(a, b),
        n <= a.len(),
    ensures
        raw_tail_printed(a, ctx, n) == raw_tail_printed(b, ctx, n),
    decreases n,
{
    if n > 0 {
        lemma_raw_same(a, b, ctx, (n - 1) as nat);
        let i = a.len() - n;
        assert(a[i].json@ == b[i].json@);
    }
}

/// Texts one after the other.
pub open spec fn in_a_row(list: Seq<Seq<char>>) -> Seq<char>
    decreases list.len(),
{
    if list.len() == 0 {
        Seq::empty()
    } else {
        in_a_row(list.drop_last()) + list.last()
    }
}

/// The messages that are printed among the last `n`, each as it is printed.
pub open spec fn tail_messages(
    events: Seq<ReceivedEvent>,
    ctx: ListenContext,
    shown: Seq<Seq<char>>,
    n: nat,
) -> Seq<Seq<char>>
    decreases n,
{
    if n == 0 || n > events.len() {
        Seq::empty()
    } else {
        let i = events.len() - n;
        let head = tail_messages(events, ctx, shown, (n - 1) as nat);
        if tail_event_printed(events[i], ctx, shown[i]).len() == 0 {
            head
        } else {
            head.push(tail_event_printed(events[i], ctx, shown[i]))
        }
    }
}

/// The events that are printed as JSON among the last `n`, each as it is printed.
pub open spec fn raw_messages(events: Seq<RawLine>, ctx: ListenContext, n: nat) -> Seq<Seq<char>>
    decreases n,
{
    if n == 0 || n > events.len() {
        Seq::empty()
    } else {
        let ev = events[events.len() - n];
        let head = raw_messages(events, ctx, (n - 1) as nat);
        if raw_skipped(ev, ctx) {
            head
        } else {
            head.push(ev.json@ + "\n"@)
        }
    }
}

/// Where the server sends no more messages than it was asked for, no more are printed.
pub proof fn law_at_most_so_many_messages(
    events: Seq<ReceivedEvent>,
    raw: Seq<RawLine>,
    ctx: ListenContext,
    shown: Seq<Seq<char>>,
    number: u64,
)
    requires
        events.len() <= number,
        raw.len() <= number,
    ensures
        tail_printed(events, ctx, shown, events.len()) == in_a_row(
            tail_messages(events, ctx, shown, events.len()),
        ),
        tail_messages(events, ctx, shown, events.len()).len() <= number,
        raw_tail_printed(raw, ctx, raw.len()) == in_a_row(raw_messages(raw, ctx, raw.len())),
        raw_messages(raw, ctx, raw.len()).len() <= number,
{
    lemma_tail_messages(events, ctx, shown, events.len());
    lemma_raw_messages(raw, ctx, raw.len());
}

/// What is printed in plain text is made of the messages, at most one for each event.
proof fn lemma_tail_messages(
    events: Seq<ReceivedEvent>,
    ctx: ListenContext,
    shown: Seq<Seq<char>>,
    n: nat,
)
    requires
        n <= events.len(),
    ensures
        tail_printed(events, ctx, shown, n) == in_a_row(tail_messages(events, ctx, shown, n)),
        tail_messages(events, ctx, shown, n).len() <= n,
    decreases n,
{
    if n > 0 {
        lemma_tail_messages(events, ctx, shown, (n - 1) as nat);
        let i = events.len() - n;
        let head = tail_messages(events, ctx, shown, (n - 1) as nat);
        let one = tail_event_printed(events[i], ctx, shown[i]);
        if one.len() == 0 {
            assert(in_a_row(head) + one =~= in_a_row(head));
        } else {
            assert(head.push(one).drop_last() =~= head);
        }
    }
}

/// What is printed as JSON is made of the events, at most one for each.
proof fn lemma_raw_messages(events: Seq<RawLine>, ctx: ListenContext, n: nat)
    requires
        n <= events.len(),
    ensures
        raw_tail_printed(events, ctx, n) == in_a_row(raw_messages(events, ctx, n)),
        raw_messages(events, ctx, n).len() <= n,
    decreases n,
{
    if n > 0 {
        lemma_raw_messages(events, ctx, (n - 1) as nat);
        let ev = events[events.len() - n];
        let head = raw_messages(events, ctx, (n - 1) as nat);
        if raw_skipped(ev, ctx) {
            assert(in_a_row(head) + Seq::<char>::empty() =~= in_a_row(head));
        } else {
            assert(head.push(ev.json@ + "\n"@).drop_last() =~= head);
        }
    }
}

/// The last messages of a room, with the newest first: those that can be read, for plain text, and
/// all as they were received, for JSON.
#[derive(Debug)]
pub struct RoomMessages {
    pub events: Vec<ReceivedEvent>,
    pub raw: Vec<RawLine>,
}

/// What came of the question for the last messages of a room.
#[derive(Debug)]
pub enum TailFound {
    /// The room is not known.
    UnknownRoom,
    /// The messages could not be fetched.
    Failed,
    Messages(RoomMessages),
}

/// Why no more rooms are asked for.
#[derive(Clone, Copy, Debug, PartialEq, Eq, Structural)]
pub enum TailStop {
    /// A room is not known, or the number of messages cannot be asked for.
    InvalidRoom,
    /// Messages could not be fetched.
    ListenFailed,
}

impl TailStop {
    /// The error with which the call ends.
    pub open spec fn error(self) -> Error {
        match self {
            TailStop::InvalidRoom => Error::InvalidRoom,
            TailStop::ListenFailed => Error::ListenFailed,
        }
    }
}

/// What is printed of the last messages of a room, given by how many seconds clocks are ahead of
/// UTC at the times of the messages.
pub open spec fn found_printed(found: TailFound, ctx: ListenContext, offsets: Seq<int>) -> Seq<char> {
    match found {
        TailFound::Messages(m) => if ctx.output == Output::Text {
            tail_printed(m.events@, ctx, times_at(m.events@, offsets), m.events@.len())
        } else {
            raw_tail_printed(m.raw@, ctx, m.raw@.len())
        },
        _ => Seq::empty(),
    }
}

/// Whether clocks can be ahead of UTC by these seconds where the messages are printed as plain
/// text.
pub open spec fn found_offsets(found: TailFound, ctx: ListenContext, offsets: Seq<int>) -> bool {
    match found {
        TailFound::Messages(m) => ctx.output == Output::Text ==> offsets_of(m.events@, offsets),
        _ => true,
    }
}

/// The state of a call that shows the last messages of rooms, as a mathematical value.
pub struct TailState {
    /// The rooms with a valid id.
    pub rooms: Seq<Seq<char>>,
    /// How many messages of each are asked for.
    pub number: u64,
    /// The position of the room that is asked for.
    pub at: int,
    pub stopped: Option<TailStop>,
    /// What was printed so far.
    pub printed: Seq<char>,
}

impl TailState {
    /// Whether no more rooms are asked for.
    pub open spec fn ended(self) -> bool {
        self.stopped is Some || self.at >= self.rooms.len()
    }

    /// The state once the messages of a room were found and printed, or not found. The first room
    /// of which they are not found ends the call.
    pub open spec fn after(self, found: TailFound, text: Seq<char>) -> TailState {
        if self.ended() {
            self
        } else {
            match found {
                TailFound::UnknownRoom => TailState {
                    stopped: Some(TailStop::InvalidRoom),
                    ..self
                },
                TailFound::Failed => TailState { stopped: Some(TailStop::ListenFailed), ..self },
                TailFound::Messages(_) => TailState {
                    at: self.at + 1,
                    printed: self.printed + text,
                    ..self
                },
            }
        }
    }

    /// The state once these answers came, given by how many seconds clocks are ahead of UTC.
    pub open spec fn run(
        self,
        found: Seq<TailFound>,
        ctx: ListenContext,
        offsets: Seq<Seq<int>>,
    ) -> TailState
        decreases found.len(),
    {
        if found.len() == 0 {
            self
        } else {
            self.run(found.drop_last(), ctx, offsets).after(
                found.last(),
                found_printed(found.last(), ctx, offsets[found.len() - 1]),
            )
        }
    }

    /// The result of the call.
    pub open spec fn result(self) -> Result<(), Error> {
        match self.stopped {
            Some(stop) => Err(stop.error()),
            None => Ok(()),
        }
    }
}

/// The state in which a call begins. A number that cannot be asked for ends it where there is a
/// room to ask for.
pub open spec fn tail_start(rooms: Seq<Seq<char>>, number: u64) -> TailState {
    TailState {
        rooms: listened_rooms(rooms),
        number,
        at: 0,
        stopped: if number > MAX_TAIL && listened_rooms(rooms).len() > 0 {
            Some(TailStop::InvalidRoom)
        } else {
            None
        },
        printed: Seq::empty(),
    }
}

/// A call that shows the last messages of rooms.
pub struct Tail {
    rooms: Vec<String>,
    number: u64,
    at: usize,
    stopped: Option<TailStop>,
    printed: Ghost<Seq<char>>,
}

impl View for Tail {
    type V = TailState;

    closed spec fn view(&self) -> TailState {
        TailState {
            rooms: texts(self.rooms@),
            number: self.number,
            at: self.at as int,
            stopped: self.stopped,
            printed: self.printed@,
        }
    }
}

impl Tail {
    /// Begins to show the last `number` messages of each of the rooms. Without rooms that is an
    /// error, and texts that are no room ids are skipped.
    pub fn start(rooms: &Vec<String>, number: u64) -> (r: Result<Tail, Error>)
        ensures
            rooms@.len() == 0 ==> (r matches Err(e) && e == Error::MissingRoom),
            rooms@.len() > 0 ==> (r matches Ok(t) && t@ == tail_start(texts(rooms@), number)),
    {
        match tail_rooms(rooms) {
            Ok(list) => {
                let stopped = if tail_limit(number).is_err() && list.len() > 0 {
                    Some(TailStop::InvalidRoom)
                } else {
                    None
                };
                Ok(Tail { rooms: list, number, at: 0, stopped, printed: Ghost(Seq::empty()) })
            },
            Err(e) => Err(e),
        }
    }

    /// The room that is asked for its last messages next, and how many are asked for.
    pub fn next_room(&self) -> (r: Option<(String, u64)>)
        ensures
            match r {
                Some((room, number)) => !self@.ended() && room@ == self@.rooms[self@.at] && number
                    == self@.number,
                None => self@.ended(),
            },
    {
        if self.stopped.is_some() || self.at >= self.rooms.len() {
            return None;
        }
        Some((self.rooms[self.at].clone(), self.number))
    }

    /// Takes note of what was found, and returns what is printed of it.
    pub fn report(&mut self, found: &TailFound, ctx: &ListenContext) -> (text: String)
        ensures
            exists|offsets: Seq<int>|
                found_offsets(*found, *ctx, offsets) && text@ == (if old(self)@.ended() {
                    Seq::empty()
                } else {
                    #[trigger] found_printed(*found, *ctx, offsets)
                }),
            final(self)@ == old(self)@.after(*found, text@),
    {
        let mut text = String::new();
        let ghost mut used: Seq<int> = Seq::empty();
        if let TailFound::Messages(m) = found {
            if ctx.output.is_text() {
                text = listen_tail(&m.events, ctx);
                proof {
                    used = choose|offsets: Seq<int>|
                        offsets_of(m.events@, offsets) && text@ == #[trigger] tail_printed(
                            m.events@,
                            *ctx,
                            times_at(m.events@, offsets),
                            m.events@.len(),
                        );
                }
            } else {
                text = listen_tail_raw(&m.raw, ctx);
            }
        }
        assert(found_offsets(*found, *ctx, used));
        assert(text@ =~= found_printed(*found, *ctx, used));
        if self.stopped.is_some() || self.at >= self.rooms.len() {
            return String::new();
        }
        match found {
            TailFound::UnknownRoom => {
                self.stopped = Some(TailStop::InvalidRoom);
            },
            TailFound::Failed => {
                self.stopped = Some(TailStop::ListenFailed);
            },
            TailFound::Messages(_) => {
                self.at = self.at + 1;
                self.printed = Ghost(self.printed@ + text@);
            },
        }
        text
    }

    /// The result of the call.
    pub fn finish(&self) -> (r: Result<(), Error>)
        ensures
            r == self@.result(),
    {
        match self.stopped {
            Some(TailStop::InvalidRoom) => Err(Error::InvalidRoom),
            Some(TailStop::ListenFailed) => Err(Error::ListenFailed),
            None => Ok(()),
        }
    }
}

/// Whether the same was found.
pub open spec fn same_found(a: TailFound, b: TailFound) -> bool {
    match (a, b) {
        (TailFound::Messages(m), TailFound::Messages(n)) => same_messages(m.events@, n.events@)
            && same_raw(m.raw@, n.raw@),
        (TailFound::UnknownRoom, TailFound::UnknownRoom) => true,
        (TailFound::Failed, TailFound::Failed) => true,
        _ => false,
    }
}

/// Two calls with the same arguments that find the same in every room print the same and have the
/// same result: as JSON always, and in plain text as long as the clocks of the machine are ahead
/// of UTC by the same at the times of the messages.
pub proof fn law_same_call_same_output(
    rooms: Seq<Seq<char>>,
    number: u64,
    a: Seq<TailFound>,
    b: Seq<TailFound>,
    ctx: ListenContext,
    offsets_a: Seq<Seq<int>>,
    offsets_b: Seq<Seq<int>>,
)
    requires
        a.len() == b.len(),
        forall|i: int| 0 <= i < a.len() ==> same_found(#[trigger] a[i], b[i]),
        ctx.output == Output::Text ==> offsets_a == offsets_b,
    ensures
        tail_start(rooms, number).run(a, ctx, offsets_a) == tail_start(rooms, number).run(
            b,
            ctx,
            offsets_b,
        ),
    decreases a.len(),
{
    if a.len() > 0 {
        assert forall|i: int| 0 <= i < a.drop_last().len() implies same_found(
            #[trigger] a.drop_last()[i],
            b.drop_last()[i],
        ) by {
            assert(same_found(a[i], b[i]));
        }
        law_same_call_same_output(
            rooms,
            number,
            a.drop_last(),
            b.drop_last(),
            ctx,
            offsets_a,
            offsets_b,
        );
        let last = a.len() - 1;
        assert(same_found(a[last], b[last]));
        if let TailFound::Messages(m) = a[last] {
            let n = b[last]->Messages_0;
            lemma_raw_same(m.raw@, n.raw@, ctx, m.raw@.len());
            lemma_tail_same(m.events@, n.events@, ctx, offsets_a[last], m.events@.len());
        }
    }
}

/// What is printed of the last messages of all rooms.
pub open spec fn rooms_printed(
    found: Seq<TailFound>,
    ctx: ListenContext,
    offsets: Seq<Seq<int>>,
) -> Seq<Seq<char>> {
    Seq::new(found.len(), |i: int| found_printed(found[i], ctx, offsets[i]))
}

/// Where every room is known and its messages can be fetched, those of all rooms are printed, in
/// the order in which the rooms are given, and the call succeeds.
pub proof fn law_all_rooms_are_shown(
    rooms: Seq<Seq<char>>,
    number: u64,
    found: Seq<TailFound>,
    ctx: ListenContext,
    offsets: Seq<Seq<int>>,
)
    requires
        number <= MAX_TAIL,
        found.len() <= listened_rooms(rooms).len(),
        forall|i: int| 0 <= i < found.len() ==> (#[trigger] found[i]) is Messages,
    ensures
        tail_start(rooms, number).run(found, ctx, offsets).printed == in_a_row(
            rooms_printed(found, ctx, offsets),
        ),
        tail_start(rooms, number).run(found, ctx, offsets).at == found.len(),
        tail_start(rooms, number).run(found, ctx, offsets).rooms == listened_rooms(rooms),
        tail_start(rooms, number).run(found, ctx, offsets).result() == Ok::<(), Error>(()),
    decreases found.len(),
{
    if found.len() > 0 {
        assert forall|i: int| 0 <= i < found.drop_last().len() implies (
        #[trigger] found.drop_last()[i]) is Messages by {
            assert(found[i] is Messages);
        }
        law_all_rooms_are_shown(rooms, number, found.drop_last(), ctx, offsets);
        assert(found[found.len() - 1] is Messages);
        assert(rooms_printed(found, ctx, offsets).drop_last() =~= rooms_printed(
            found.drop_last(),
            ctx,
            offsets,
        ));
    }
}

/// Whether all texts are room ids.
pub open spec fn all_room_ids(list: Seq<Seq<char>>) -> bool {
    forall|i: int| 0 <= i < list.len() ==> room_id_ok(#[trigger] list[i])
}

/// Whether all texts are room ids.
pub fn are_room_ids(list: &Vec<String>) -> (r: bool)
    ensures
        r == all_room_ids(texts(list@)),
{
    let mut i: usize = 0;
    while i < list.len()
        invariant
            i <= list.len(),
            forall|j: int| 0 <= j < i ==> room_id_ok(#[trigger] texts(list@)[j]),
        decreases list.len() - i,
    {
        assert(texts(list@)[i as int] == list@[i as int]@);
        if !is_room_id(list[i].as_str()) {
            return false;
        }
        i += 1;
    }
    true
}

/// The rooms to which --listen all listens. Without any that is an error.
pub fn listen_all(rooms: &Vec<String>) -> (r: Result<Vec<String>, Error>)
    requires
        all_room_ids(texts(rooms@)),
    ensures
        rooms@.len() == 0 ==> (r matches Err(e) && e == Error::MissingRoom),
        rooms@.len() > 0 ==> (r matches Ok(list) && texts(list@) == texts(rooms@)),
{
    if rooms.len() == 0 {
        return Err(Error::MissingRoom);
    }
    Ok(crate::text::copy_texts(rooms))
}

/// A message is printed with its text complete: the line ends with a separator, the text and the
/// line end.
pub proof fn law_message_is_printed_whole(
    ev: ReceivedEvent,
    body: String,
    shown: Seq<char>,
    print_event_id: bool,
)
    requires
        ev.body == EventBody::Message(body),
    ensures
        ({
            let line = event_line(ev, shown, print_event_id);
            let end = " | "@ + body@ + "\n"@;
            end.len() <= line.len() && line.subrange(line.len() - end.len(), line.len() as int)
                == end
        }),
{
    let line = event_line(ev, shown, print_event_id);
    let end = " | "@ + body@ + "\n"@;
    assert(line.subrange(line.len() - end.len(), line.len() as int) =~= end);
}

/// Two messages that differ in their texts alone, wherever these differ, are printed differently.
pub proof fn law_different_messages_different_lines(
    a: ReceivedEvent,
    b: ReceivedEvent,
    x: String,
    y: String,
    shown: Seq<char>,
    print_event_id: bool,
)
    requires
        a.body == EventBody::Message(x),
        b == (ReceivedEvent { body: EventBody::Message(y), ..a }),
        x@ != y@,
    ensures
        event_line(a, shown, print_event_id) != event_line(b, shown, print_event_id),
{
    let detail = if print_event_id {
        " | "@ + a.event_id@
    } else {
        Seq::empty()
    };
    let front = "Message received for room "@ + a.room_nick@ + " ["@ + a.room_id@ + "] | sender "@
        + a.sender_nick@ + " ["@ + a.sender@ + "] | "@ + shown + detail + " | "@;
    lemma_differ_inside(front, x@, y@, "\n"@);
    assert(event_line(a, shown, print_event_id) == front + x@ + "\n"@);
    assert(event_line(b, shown, print_event_id) == front + y@ + "\n"@);
}

/// The line for an event has the room, the sender, the time, the event id where it is asked for,
/// and what the event says as its columns. Of an event without text the last column says what it
/// is and, of one about removed content, who sent it.
pub proof fn law_event_columns(ev: ReceivedEvent, shown: Seq<char>, last: Seq<char>)
    requires
        match ev.body {
            EventBody::Message(text) => last == text@,
            EventBody::RedactedMessage => last == "Received redacted event: sender: "@ + ev.sender@,
            EventBody::Redaction => last == "Received redaction event: sender: "@ + ev.sender@,
            EventBody::Undecryptable => last == "Encrypted message could not be decrypted"@,
        },
    ensures
        event_line(ev, shown, false) == joined(
            seq!["Message received for room "@ + ev.room_nick@ + " ["@ + ev.room_id@ + "]"@].push(
                "sender "@ + ev.sender_nick@ + " ["@ + ev.sender@ + "]"@,
            ).push(shown).push(last),
            " | "@,
        ) + "\n"@,
        event_line(ev, shown, true) == joined(
            seq!["Message received for room "@ + ev.room_nick@ + " ["@ + ev.room_id@ + "]"@].push(
                "sender "@ + ev.sender_nick@ + " ["@ + ev.sender@ + "]"@,
            ).push(shown).push(ev.event_id@).push(last),
            " | "@,
        ) + "\n"@,
{
    let room = "Message received for room "@ + ev.room_nick@ + " ["@ + ev.room_id@ + "]"@;
    let sender = "sender "@ + ev.sender_nick@ + " ["@ + ev.sender@ + "]"@;
    lemma_joined_four(room, sender, shown, last, " | "@);
    lemma_joined_five(room, sender, shown, ev.event_id@, last, " | "@);
    reveal_strlit(" | ");
    reveal_strlit("]");
    reveal_strlit("] | ");
    reveal_strlit("sender ");
    reveal_strlit("] | sender ");
    assert("] | sender "@ =~= "]"@ + " | "@ + "sender "@);
    assert("] | "@ =~= "]"@ + " | "@);
    assert(event_line(ev, shown, false) =~= room + " | "@ + sender + " | "@ + shown + " | "@ + last
        + "\n"@);
    assert(event_line(ev, shown, true) =~= room + " | "@ + sender + " | "@ + shown + " | "@
        + ev.event_id@ + " | "@ + last + "\n"@);
}

/// An event of another user is always shown, and the user's own where they are asked for: in plain
/// text as its line, else as its content on a line. Among the last messages of a room one whose
/// content was removed is shown too, whoever sent it.
pub proof fn law_other_events_are_shown(ev: ReceivedEvent, ctx: ListenContext, shown: Seq<char>)
    ensures
        ev.sender@ != ctx.whoami@ || ctx.listen_self ==> event_printed(ev, ctx, shown) == (
        if ctx.output == Output::Text {
            event_line(ev, shown, ctx.print_event_id)
        } else {
            augmented(ev.content@, ev.event_id@, ev.sender@, ev.timestamp, ev.room_id@) + "\n"@
        }),
        ev.sender@ != ctx.whoami@ || ctx.listen_self || ev.body is RedactedMessage
            ==> tail_event_printed(ev, ctx, shown) == event_line(ev, shown, ctx.print_event_id),
        ev.sender@ == ctx.whoami@ && !ctx.listen_self && !(ev.body is RedactedMessage)
            ==> tail_event_printed(ev, ctx, shown) == Seq::<char>::empty(),
{
}

/// The content of an event is kept whole behind the fields that are put in front of it, and with
/// fields of its own a comma before them; what is no object is not changed.
pub proof fn law_content_is_kept(
    content: Seq<char>,
    event_id: Seq<char>,
    sender: Seq<char>,
    timestamp: u64,
    room_id: Seq<char>,
)
    ensures
        !(content.len() > 0 && content[0] == '{') ==> augmented(
            content,
            event_id,
            sender,
            timestamp,
            room_id,
        ) == content,
        content.len() > 0 && content[0] == '{' ==> ({
            let front = "{"@ + joined(
                seq!["\"event_id\":"@ + compact_text(JsonDoc::Text(event_id))].push(
                    "\"sender\":"@ + compact_text(JsonDoc::Text(sender)),
                ).push("\"origin_server_ts\":"@ + decimal(timestamp as nat)).push(
                    "\"room_id\":"@ + compact_text(JsonDoc::Text(room_id)),
                ),
                ","@,
            );
            let all = augmented(content, event_id, sender, timestamp, room_id);
            &&& trimmed(content.skip(1)) == "}"@ ==> all == front + content.skip(1)
            &&& trimmed(content.skip(1)) != "}"@ ==> all == front + ","@ + content.skip(1)
        }),
{
    reveal_strlit(",");
    reveal_strlit("{");
    reveal_strlit("{\"event_id\":");
    reveal_strlit("\"event_id\":");
    reveal_strlit(",\"sender\":");
    reveal_strlit("\"sender\":");
    reveal_strlit(",\"origin_server_ts\":");
    reveal_strlit("\"origin_server_ts\":");
    reveal_strlit(",\"room_id\":");
    reveal_strlit("\"room_id\":");
    let a = compact_text(JsonDoc::Text(event_id));
    let b = compact_text(JsonDoc::Text(sender));
    let c = decimal(timestamp as nat);
    let d = compact_text(JsonDoc::Text(room_id));
    lemma_joined_four(
        "\"event_id\":"@ + a,
        "\"sender\":"@ + b,
        "\"origin_server_ts\":"@ + c,
        "\"room_id\":"@ + d,
        ","@,
    );
    assert("{\"event_id\":"@ =~= "{"@ + "\"event_id\":"@);
    assert(",\"sender\":"@ =~= ","@ + "\"sender\":"@);
    assert(",\"origin_server_ts\":"@ =~= ","@ + "\"origin_server_ts\":"@);
    assert(",\"room_id\":"@ =~= ","@ + "\"room_id\":"@);
    let front = "{"@ + ("\"event_id\":"@ + a + ","@ + ("\"sender\":"@ + b) + ","@ + (
    "\"origin_server_ts\":"@ + c) + ","@ + ("\"room_id\":"@ + d));
    let all = augmented(content, event_id, sender, timestamp, room_id);
    if content.len() > 0 && content[0] == '{' {
        if trimmed(content.skip(1)) == "}"@ {
            assert(all =~= front + content.skip(1));
        } else {
            assert(all =~= front + ","@ + content.skip(1));
        }
    }
}

/// Of the rooms those with a valid id are listened to, each of them and in their order.
pub proof fn law_valid_rooms_are_listened_to(a: Seq<Seq<char>>, b: Seq<Seq<char>>, t: Seq<char>)
    ensures
        listened_rooms(a + b) == listened_rooms(a) + listened_rooms(b),
        room_id_ok(t) ==> listened_rooms(seq![t]) == seq![t],
        !room_id_ok(t) ==> listened_rooms(seq![t]) == Seq::<Seq<char>>::empty(),
    decreases b.len(),
{
    assert(seq![t].drop_last() =~= Seq::<Seq<char>>::empty());
    assert(listened_rooms(Seq::<Seq<char>>::empty()) =~= Seq::<Seq<char>>::empty());
    assert(Seq::<Seq<char>>::empty().push(t) =~= seq![t]);
    if b.len() == 0 {
        assert(a + b =~= a);
        assert(listened_rooms(a) + listened_rooms(b) =~= listened_rooms(a));
    } else {
        law_valid_rooms_are_listened_to(a, b.drop_last(), t);
        assert((a + b).drop_last() =~= a + b.drop_last());
        assert((a + b).last() == b.last());
        assert(listened_rooms(a + b) =~= listened_rooms(a) + listened_rooms(b));
    }
}

/// As JSON too, the older events are printed before the newer ones, each as it was received on a
/// line of its own; only the user's own are left out where they are not asked for, and never one
/// that does not say who sent it.
pub proof fn law_raw_events_are_kept(
    newer: Seq<RawLine>,
    older: Seq<RawLine>,
    ev: RawLine,
    ctx: ListenContext,
)
    ensures
        raw_tail_printed(newer + older, ctx, (newer + older).len()) == raw_tail_printed(
            older,
            ctx,
            older.len(),
        ) + raw_tail_printed(newer, ctx, newer.len()),
        ctx.listen_self || opt_text(ev.sender) != Some(ctx.whoami@) ==> raw_tail_printed(
            seq![ev],
            ctx,
            1,
        ) == ev.json@ + "\n"@,
        !ctx.listen_self && opt_text(ev.sender) == Some(ctx.whoami@) ==> raw_tail_printed(
            seq![ev],
            ctx,
            1,
        ) == Seq::<char>::empty(),
{
    lemma_raw_older_first(newer, older, ctx, (newer + older).len());
    let one = seq![ev];
    assert(raw_tail_printed(one, ctx, 0) =~= Seq::empty());
    assert(raw_tail_printed(one, ctx, 1) =~= (if raw_skipped(ev, ctx) {
        Seq::empty()
    } else {
        ev.json@ + "\n"@
    }));
}

/// The same for the last `n` events.
proof fn lemma_raw_older_first(
    newer: Seq<RawLine>,
    older: Seq<RawLine>,
    ctx: ListenContext,
    n: nat,
)
    requires
        n <= newer.len() + older.len(),
    ensures
        n <= older.len() ==> raw_tail_printed(newer + older, ctx, n) == raw_tail_printed(
            older,
            ctx,
            n,
        ),
        n >= older.len() ==> raw_tail_printed(newer + older, ctx, n) == raw_tail_printed(
            older,
            ctx,
            older.len(),
        ) + raw_tail_printed(newer, ctx, (n - older.len()) as nat),
    decreases n,
{
    let all = newer + older;
    let old_part = raw_tail_printed(older, ctx, older.len());
    if n > 0 {
        lemma_raw_older_first(newer, older, ctx, (n - 1) as nat);
        let i = all.len() - n;
        if n <= older.len() {
            assert(all[i] == older[older.len() - n]);
        } else {
            let m = (n - older.len()) as nat;
            assert(all[i] == newer[newer.len() - m]);
            assert(raw_tail_printed(all, ctx, n) =~= old_part + raw_tail_printed(newer, ctx, m));
        }
    }
    if n == older.len() {
        assert(raw_tail_printed(newer, ctx, 0) =~= Seq::empty());
        assert(old_part + Seq::<char>::empty() =~= old_part);
    }
}

/// All texts of a list are room ids exactly where each of them is.
pub proof fn law_each_is_a_room_id(list: Seq<Seq<char>>, t: Seq<char>)
    ensures
        all_room_ids(Seq::empty()),
        all_room_ids(list.push(t)) <==> all_room_ids(list) && room_id_ok(t),
{
    let more = list.push(t);
    if all_room_ids(more) {
        assert forall|i: int| 0 <= i < list.len() implies room_id_ok(#[trigger] list[i]) by {
            assert(more[i] == list[i]);
        }
        assert(more[list.len() as int] == t);
    }
    if all_room_ids(list) && room_id_ok(t) {
        assert forall|i: int| 0 <= i < more.len() implies room_id_ok(#[trigger] more[i]) by {
            if i < list.len() {
                assert(more[i] == list[i]);
            }
        }
    }
}

/// The first room that is not known, or whose messages cannot be fetched, ends the call with the
/// error for that and prints nothing; what was found is printed behind what was printed before,
/// and the next room follows.
pub proof fn law_tail_stops_with_the_first_failure(
    s: TailState,
    m: RoomMessages,
    text: Seq<char>,
    ctx: ListenContext,
    offsets: Seq<int>,
)
    requires
        !s.ended(),
    ensures
        s.after(TailFound::UnknownRoom, text).ended(),
        s.after(TailFound::UnknownRoom, text).result() == Err::<(), Error>(Error::InvalidRoom),
        s.after(TailFound::UnknownRoom, text).printed == s.printed,
        s.after(TailFound::Failed, text).ended(),
        s.after(TailFound::Failed, text).result() == Err::<(), Error>(Error::ListenFailed),
        s.after(TailFound::Failed, text).printed == s.printed,
        s.after(TailFound::Messages(m), text).printed == s.printed + text,
        s.after(TailFound::Messages(m), text).at == s.at + 1,
        s.after(TailFound::Messages(m), text).result() is Ok,
        s.after(TailFound::Messages(m), text).rooms == s.rooms,
        s.after(TailFound::Messages(m), text).number == s.number,
        ctx.output == Output::Text ==> found_printed(TailFound::Messages(m), ctx, offsets)
            == tail_printed(m.events@, ctx, times_at(m.events@, offsets), m.events@.len()),
        ctx.output != Output::Text ==> found_printed(TailFound::Messages(m), ctx, offsets)
            == raw_tail_printed(m.raw@, ctx, m.raw@.len()),
        found_printed(TailFound::UnknownRoom, ctx, offsets).len() == 0,
        found_printed(TailFound::Failed, ctx, offsets).len() == 0,
        found_offsets(TailFound::UnknownRoom, ctx, offsets),
        found_offsets(TailFound::Failed, ctx, offsets),
        found_offsets(TailFound::Messages(m), ctx, offsets) <==> ctx.output != Output::Text
            || offsets_of(m.events@, offsets),
{
}

/// A call begins with its first valid room and nothing printed; only a number that cannot be asked
/// for ends it before, with an error, where there is a room.
pub proof fn law_tail_begins_with_the_first_room(rooms: Seq<Seq<char>>, number: u64)
    ensures
        tail_start(rooms, number).printed.len() == 0,
        tail_start(rooms, number).at == 0,
        tail_start(rooms, number).number == number,
        tail_start(rooms, number).rooms == listened_rooms(rooms),
        number <= 9_007_199_254_740_991 ==> tail_start(rooms, number).result() is Ok,
        listened_rooms(rooms).len() == 0 ==> tail_start(rooms, number).result() is Ok && tail_start(
            rooms,
            number,
        ).ended(),
        number <= 9_007_199_254_740_991 && listened_rooms(rooms).len() > 0 ==> !tail_start(
            rooms,
            number,
        ).ended(),
        number > 9_007_199_254_740_991 && listened_rooms(rooms).len() > 0 ==> tail_start(
            rooms,
            number,
        ).result() == Err::<(), Error>(Error::InvalidRoom),
{
}

/// The time of each event is shown at its place, as its own time zone has it.
pub proof fn law_times_at_their_places(events: Seq<ReceivedEvent>, offsets: Seq<int>, i: int)
    requires
        0 <= i < events.len(),
        offsets_of(events, offsets),
    ensures
        times_at(events, offsets).len() == events.len(),
        times_at(events, offsets)[i] == millis_text(events[i].timestamp, offsets[i]),
        shows_millis(events[i].timestamp, times_at(events, offsets)[i]),
{
    assert(is_offset(offsets[i]));
}

} // verus!
