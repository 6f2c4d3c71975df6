//! Text messages: which are sent, how they are formatted, and what is printed of them.

use vstd::prelude::*;

use crate::json::{
    has_field, has_fields, lemma_has_field, member, parsed_json, print_json, printed, read_json,
    text_member, Fields, Json, JsonDoc,
};
use crate::text::{
    joined, law_joined_in_pieces, law_split_and_join, law_split_leaves_no_separator,
    lemma_joined_three, occurs, opt_text, replace_text, replaced, same_text, split_on, split_text,
    string_of, texts,
};
use crate::types::Output;

verus! {

/// What an argument of --message stands for.
#[derive(Debug)]
pub enum MessageSource {
    /// Nothing is sent.
    Skip,
    /// One message that is read from standard input.
    Stdin,
    /// Every line of standard input is a message.
    Stream,
    /// The message itself.
    Text(String),
}

/// What an argument of --message stands for, as a mathematical value.
pub enum MessageArgument {
    Skip,
    Stdin,
    Stream,
    Text(Seq<char>),
}

impl View for MessageSource {
    type V = MessageArgument;

    open spec fn view(&self) -> MessageArgument {
        match self {
            MessageSource::Skip => MessageArgument::Skip,
            MessageSource::Stdin => MessageArgument::Stdin,
            MessageSource::Stream => MessageArgument::Stream,
            MessageSource::Text(t) => MessageArgument::Text(t@),
        }
    }
}

/// What an argument of --message stands for. A single hyphen and a single underscore mean standard
/// input; with a backslash in front they are meant as they are.
pub open spec fn message_argument(arg: Seq<char>) -> MessageArgument {
    if arg.len() == 0 || arg == "--"@ {
        MessageArgument::Skip
    } else if arg == "-"@ {
        MessageArgument::Stdin
    } else if arg == "_"@ {
        MessageArgument::Stream
    } else if arg == "\\-"@ {
        MessageArgument::Text("-"@)
    } else if arg == "\\_"@ {
        MessageArgument::Text("_"@)
    } else if arg == "\\-\\-"@ {
        MessageArgument::Text("--"@)
    } else if arg == "\\-\\-\\-"@ {
        MessageArgument::Text("---"@)
    } else {
        MessageArgument::Text(arg)
    }
}

/// What an argument of --message stands for.
pub fn message_source(arg: &str) -> (r: MessageSource)
    ensures
        r@ == message_argument(arg@),
{
    if arg.is_empty() || same_text(arg, "--") {
        MessageSource::Skip
    } else if same_text(arg, "-") {
        MessageSource::Stdin
    } else if same_text(arg, "_") {
        MessageSource::Stream
    } else if same_text(arg, "\\-") {
        MessageSource::Text("-".to_string())
    } else if same_text(arg, "\\_") {
        MessageSource::Text("_".to_string())
    } else if same_text(arg, "\\-\\-") {
        MessageSource::Text("--".to_string())
    } else if same_text(arg, "\\-\\-\\-") {
        MessageSource::Text("---".to_string())
    } else {
        MessageSource::Text(arg.to_string())
    }
}

/// The text that an argument of --message gives, where `read` is what was read for it from
/// standard input. Streams have no text of their own.
pub open spec fn argument_text(arg: MessageArgument, read: Option<Seq<char>>) -> Seq<char> {
    match arg {
        MessageArgument::Text(t) => t,
        MessageArgument::Stdin => match read {
            Some(t) => without_line_end(t),
            None => Seq::empty(),
        },
        _ => Seq::empty(),
    }
}

/// The messages that the arguments of --message give, given what was read for each of them from
/// standard input. Empty ones are left out.
pub fn collect_messages(args: &Vec<String>, read: &Vec<Option<String>>) -> (out: Vec<String>)
    requires
        args.len() == read.len(),
    ensures
        texts(out@) == nonempty(
            Seq::new(
                args@.len(),
                |i: int| argument_text(message_argument(args@[i]@), opt_text(read@[i])),
            ),
        ),
{
    let mut list: Vec<String> = Vec::new();
    let mut i: usize = 0;
    while i < args.len()
        invariant
            i <= args.len(),
            args.len() == read.len(),
            list.len() == i,
            forall|j: int|
                0 <= j < i ==> (#[trigger] list@[j])@ == argument_text(
                    message_argument(args@[j]@),
                    opt_text(read@[j]),
                ),
        decreases args.len() - i,
    {
        let text = match message_source(args[i].as_str()) {
            MessageSource::Text(t) => t,
            MessageSource::Stdin => match &read[i] {
                Some(t) => strip_line_end(t.as_str()),
                None => String::new(),
            },
            _ => String::new(),
        };
        list.push(text);
        i += 1;
    }
    assert(texts(list@) =~= Seq::new(
        args@.len(),
        |i: int| argument_text(message_argument(args@[i]@), opt_text(read@[i])),
    ));
    keep_nonempty(&list)
}

/// The text that an argument of --event gives, where `read` is what was read for it from standard
/// input. A single hyphen means standard input.
pub open spec fn event_argument(arg: Seq<char>, read: Option<Seq<char>>) -> Seq<char> {
    if arg == "-"@ {
        match read {
            Some(t) => without_line_end(t),
            None => Seq::empty(),
        }
    } else {
        arg
    }
}

/// Whether an argument of --event means standard input.
pub fn event_from_stdin(arg: &str) -> (r: bool)
    ensures
        r == (arg@ == "-"@),
{
    same_text(arg, "-")
}

/// The events that the arguments of --event give, given what was read for each of them from
/// standard input. Empty ones are left out.
pub fn collect_events(args: &Vec<String>, read: &Vec<Option<String>>) -> (out: Vec<String>)
    requires
        args.len() == read.len(),
    ensures
        texts(out@) == nonempty(
            Seq::new(args@.len(), |i: int| event_argument(args@[i]@, opt_text(read@[i]))),
        ),
{
    let mut list: Vec<String> = Vec::new();
    let mut i: usize = 0;
    while i < args.len()
        invariant
            i <= args.len(),
            args.len() == read.len(),
            list.len() == i,
            forall|j: int|
                0 <= j < i ==> (#[trigger] list@[j])@ == event_argument(
                    args@[j]@,
                    opt_text(read@[j]),
                ),
        decreases args.len() - i,
    {
        let text = if event_from_stdin(args[i].as_str()) {
            match &read[i] {
                Some(t) => strip_line_end(t.as_str()),
                None => String::new(),
            }
        } else {
            args[i].clone()
        };
        list.push(text);
        i += 1;
    }
    assert(texts(list@) =~= Seq::new(
        args@.len(),
        |i: int| event_argument(args@[i]@, opt_text(read@[i])),
    ));
    keep_nonempty(&list)
}

/// The text without the line end behind it.
pub open spec fn without_line_end(t: Seq<char>) -> Seq<char> {
    if "\r\n"@.is_suffix_of(t) {
        t.take(t.len() - 2)
    } else if "\n"@.is_suffix_of(t) {
        t.take(t.len() - 1)
    } else {
        t
    }
}

/// Removes the line end behind a text that was read.
pub fn strip_line_end(t: &str) -> (out: String)
    ensures
        out@ == without_line_end(t@),
{
    proof {
        reveal_strlit("\r\n");
        reveal_strlit("\n");
    }
    let cs = crate::text::chars_of(t);
    if crate::text::ends_with(t, "\r\n") {
        let out = string_of(&cs, 0, cs.len() - 2);
        assert(out@ =~= t@.take(t@.len() - 2));
        out
    } else if crate::text::ends_with(t, "\n") {
        let out = string_of(&cs, 0, cs.len() - 1);
        assert(out@ =~= t@.take(t@.len() - 1));
        out
    } else {
        t.to_string()
    }
}

/// The separator of --split with its escapes decoded.
pub open spec fn split_separator(sep: Seq<char>) -> Seq<char> {
    replaced(replaced(replaced(sep, "\\n"@, "\n"@), "\\t"@, "\t"@), "\\\\"@, "\\"@)
}

/// Decodes the escapes in the separator of --split.
pub fn decode_split_separator(sep: &str) -> (out: String)
    ensures
        out@ == split_separator(sep@),
{
    let a = replace_text(sep, "\\n", "\n");
    let b = replace_text(a.as_str(), "\\t", "\t");
    replace_text(b.as_str(), "\\\\", "\\")
}

/// The entries that are not empty.
pub open spec fn nonempty(list: Seq<Seq<char>>) -> Seq<Seq<char>>
    decreases list.len(),
{
    if list.len() == 0 {
        list
    } else if list.last().len() == 0 {
        nonempty(list.drop_last())
    } else {
        nonempty(list.drop_last()).push(list.last())
    }
}

/// Keeps the entries that are not empty.
pub fn keep_nonempty(list: &Vec<String>) -> (out: Vec<String>)
    ensures
        texts(out@) == nonempty(texts(list@)),
{
    let mut out: Vec<String> = Vec::new();
    let mut i: usize = 0;
    let ghost all = texts(list@);
    assert(all.take(0) =~= Seq::empty());
    assert(texts(out@) =~= Seq::empty());
    while i < list.len()
        invariant
            i <= list.len(),
            all == texts(list@),
            texts(out@) == nonempty(all.take(i as int)),
        decreases list.len() - i,
    {
        let ghost before = texts(out@);
        assert(all.take(i + 1).drop_last() =~= all.take(i as int));
        if !list[i].as_str().is_empty() {
            out.push(list[i].clone());
            assert(texts(out@) =~= before.push(all[i as int]));
        }
        i += 1;
    }
    assert(all.take(all.len() as int) =~= all);
    out
}

/// The parts into which messages are split, without empty ones.
pub open spec fn messages_split(list: Seq<Seq<char>>, sep: Seq<char>) -> Seq<Seq<char>>
    decreases list.len(),
{
    if list.len() == 0 {
        list
    } else {
        messages_split(list.drop_last(), sep) + nonempty(split_on(list.last(), sep))
    }
}

/// Splits messages by a separator; empty parts are left out.
pub fn split_messages(list: &Vec<String>, sep: &str) -> (out: Vec<String>)
    ensures
        texts(out@) == messages_split(texts(list@), sep@),
{
    let mut out: Vec<String> = Vec::new();
    let mut i: usize = 0;
    let ghost all = texts(list@);
    assert(all.take(0) =~= Seq::empty());
    assert(texts(out@) =~= Seq::empty());
    while i < list.len()
        invariant
            i <= list.len(),
            all == texts(list@),
            texts(out@) == messages_split(all.take(i as int), sep@),
        decreases list.len() - i,
    {
        let ghost before = texts(out@);
        assert(all.take(i + 1).drop_last() =~= all.take(i as int));
        let parts = split_text(list[i].as_str(), sep);
        let mut kept = keep_nonempty(&parts);
        let ghost more = texts(kept@);
        out.append(&mut kept);
        assert(texts(out@) =~= before + more);
        i += 1;
    }
    assert(all.take(all.len() as int) =~= all);
    out
}

/// The pattern of a shortcode for an emoji.
pub const SHORTCODE_PATTERN: &'static str = ":([a-zA-Z0-9_+-]+):";

/// The emoji that `emojis::get_by_shortcode` finds.
pub uninterp spec fn emoji_of(code: Seq<char>) -> Option<Seq<char>>;

/// Calls `emojis::get_by_shortcode`. Which emoji it finds depends on the shortcode alone and is
/// named.
#[verifier::external_body]
pub(crate) fn emoji_by_shortcode(code: &str) -> (r: Option<String>)
    ensures
        opt_text(r) == emoji_of(code@),
{
    emojis::get_by_shortcode(code).map(|e| e.as_str().to_string())
}

/// The characters that a shortcode is made of.
pub open spec fn is_code_char(c: char) -> bool {
    'a' <= c <= 'z' || 'A' <= c <= 'Z' || '0' <= c <= '9' || c == '_' || c == '+' || c == '-'
}

/// How many characters at the beginning of a text can belong to a shortcode.
pub open spec fn code_run(s: Seq<char>) -> int
    decreases s.len(),
{
    if s.len() > 0 && is_code_char(s[0]) {
        1 + code_run(s.skip(1))
    } else {
        0
    }
}

/// The length of the shortcode between colons with which a text begins, zero where there is none.
pub open spec fn code_at_front(s: Seq<char>) -> int {
    if s.len() > 0 && s[0] == ':' {
        let n = code_run(s.skip(1));
        if n > 0 && 1 + n < s.len() && s[1 + n] == ':' {
            n
        } else {
            0
        }
    } else {
        0
    }
}

/// What is shown for a shortcode: its emoji, or the shortcode itself where there is none.
pub open spec fn shortcode_shown(code: Seq<char>, emoji: Option<Seq<char>>) -> Seq<char> {
    match emoji {
        Some(e) => e,
        None => ":"@ + code + ":"@,
    }
}

/// The text with its shortcodes replaced by emojis.
pub open spec fn emojized(s: Seq<char>) -> Seq<char>
    decreases s.len(),
{
    if s.len() == 0 {
        s
    } else {
        let n = code_at_front(s);
        if n > 0 {
            let code = s.subrange(1, 1 + n);
            shortcode_shown(code, emoji_of(code)) + emojized(s.skip(n + 2))
        } else {
            seq![s[0]] + emojized(s.skip(1))
        }
    }
}

/// What is shown for a shortcode, given its emoji.
pub fn show_code(code: &str, emoji: Option<String>) -> (out: String)
    ensures
        out@ == shortcode_shown(code@, opt_text(emoji)),
{
    match emoji {
        Some(e) => e,
        None => {
            let mut out = ":".to_string();
            out.append(code);
            out.append(":");
            out
        },
    }
}

/// What is shown for a shortcode.
pub fn show_shortcode(code: &str) -> (out: String)
    ensures
        out@ == shortcode_shown(code@, emoji_of(code@)),
{
    let emoji = emoji_by_shortcode(code);
    show_code(code, emoji)
}

/// Calls `Regex::replace_all` with the pattern of shortcodes: from the left, every shortcode
/// between colons is replaced by what is shown for it, and the rest stays.
#[verifier::external_body]
fn replace_shortcodes(msg: &str, pattern: &str) -> (out: String)
    requires
        pattern@ == SHORTCODE_PATTERN@,
    ensures
        out@ == emojized(msg@),
{
    let re = regex::Regex::new(pattern).unwrap();
    re.replace_all(msg, |caps: &regex::Captures| show_shortcode(&caps[1])).to_string()
}

/// Converts shortcodes like :thumbs_up: to emojis.
pub fn emojize_message(msg: &str) -> (out: String)
    ensures
        out@ == emojized(msg@),
{
    replace_shortcodes(msg, SHORTCODE_PATTERN)
}

/// A text without colons has no shortcodes and is left as it is.
pub proof fn law_no_colon_no_emoji(s: Seq<char>)
    requires
        !s.contains(':'),
    ensures
        emojized(s) == s,
    decreases s.len(),
{
    if s.len() > 0 {
        assert(s.contains(s[0]));
        assert forall|c: char| s.skip(1).contains(c) implies s.contains(c) by {
            let j = choose|j: int| 0 <= j < s.skip(1).len() && s.skip(1)[j] == c;
            assert(s[j + 1] == c);
        }
        law_no_colon_no_emoji(s.skip(1));
        assert(seq![s[0]] + s.skip(1) =~= s);
    }
}

/// The messages once they are split and their shortcodes replaced.
pub open spec fn messages_prepared(
    list: Seq<Seq<char>>,
    split: Option<Seq<char>>,
    emojize: bool,
) -> Seq<Seq<char>> {
    let parts = match split {
        Some(sep) => messages_split(list, split_separator(sep)),
        None => list,
    };
    if emojize {
        parts.map_values(|m: Seq<char>| emojized(m))
    } else {
        parts
    }
}

/// Splits messages where --split asks for it.
pub fn apply_split(list: &Vec<String>, split: &Option<String>) -> (out: Vec<String>)
    ensures
        texts(out@) == messages_prepared(texts(list@), opt_text(*split), false),
{
    match split {
        Some(sep) => {
            let decoded = decode_split_separator(sep.as_str());
            split_messages(list, decoded.as_str())
        },
        None => crate::text::copy_texts(list),
    }
}

/// Prepares messages for sending: --split and --emojize.
pub fn prepare_messages(list: &Vec<String>, split: &Option<String>, emojize: bool) -> (out: Vec<
    String,
>)
    ensures
        texts(out@) == messages_prepared(texts(list@), opt_text(*split), emojize),
{
    let parts = apply_split(list, split);
    if !emojize {
        return parts;
    }
    let mut out: Vec<String> = Vec::new();
    let mut i: usize = 0;
    while i < parts.len()
        invariant
            i <= parts.len(),
            out.len() == i,
            forall|j: int| 0 <= j < i ==> (#[trigger] out@[j])@ == emojized(parts@[j]@),
        decreases parts.len() - i,
    {
        out.push(emojize_message(parts[i].as_str()));
        i += 1;
    }
    assert(texts(out@) =~= texts(parts@).map_values(|m: Seq<char>| emojized(m)));
    out
}

/// The type of a message.
#[derive(Clone, Copy, Debug, PartialEq, Eq, Structural)]
pub enum MessageKind {
    Text,
    Notice,
    Emote,
}

/// The format of a message.
#[derive(Clone, Copy, Debug, PartialEq, Eq, Structural)]
pub enum MessageFormat {
    Plain,
    Markdown,
    Html,
}

/// A message that is ready to be sent.
#[derive(Debug)]
pub struct Message {
    pub kind: MessageKind,
    pub format: MessageFormat,
    pub body: String,
}

/// A text as a block of code.
pub open spec fn code_block(msg: Seq<char>) -> Seq<char> {
    let opened = "```\n"@ + msg;
    if opened.last() == '\n' {
        opened + "```"@
    } else {
        opened + "\n```"@
    }
}

/// The type of a message. A notice comes before an emote.
pub open spec fn kind_of(notice: bool, emote: bool) -> MessageKind {
    if notice {
        MessageKind::Notice
    } else if emote {
        MessageKind::Emote
    } else {
        MessageKind::Text
    }
}

/// The format of a message. Code is Markdown, and Markdown comes before HTML.
pub open spec fn format_of(code: bool, markdown: bool, html: bool) -> MessageFormat {
    if code || markdown {
        MessageFormat::Markdown
    } else if html {
        MessageFormat::Html
    } else {
        MessageFormat::Plain
    }
}

/// Formats a message.
pub fn format_message(
    msg: &str,
    code: bool,
    markdown: bool,
    notice: bool,
    emote: bool,
    html: bool,
) -> (r: Message)
    ensures
        r.kind == kind_of(notice, emote),
        r.format == format_of(code, markdown, html),
        r.body@ == if code {
            code_block(msg@)
        } else {
            msg@
        },
        code ==> r.body@.subrange(0, 4) == "```\n"@,
        code ==> r.body@.subrange(4, 4 + msg@.len() as int) == msg@,
        code ==> r.body@.len() == msg@.len() + 7 + (if msg@.len() > 0 && msg@.last() != '\n' {
            1int
        } else {
            0int
        }),
{
    proof {
        law_code_is_kept_whole(msg@);
    }
    let kind = if notice {
        MessageKind::Notice
    } else if emote {
        MessageKind::Emote
    } else {
        MessageKind::Text
    };
    let format = if code || markdown {
        MessageFormat::Markdown
    } else if html {
        MessageFormat::Html
    } else {
        MessageFormat::Plain
    };
    let body = if code {
        let mut body = "```\n".to_string();
        body.append(msg);
        proof {
            reveal_strlit("```\n");
            reveal_strlit("\n");
            reveal_strlit("```");
            reveal_strlit("\n```");
        }
        let ghost opened = body@;
        if !crate::text::ends_with(body.as_str(), "\n") {
            assert(opened.last() != '\n') by {
                if opened.last() == '\n' {
                    assert(opened.subrange(opened.len() - 1, opened.len() as int) =~= "\n"@);
                }
            }
            body.append("\n");
            body.append("```");
            assert(body@ =~= opened + "\n```"@);
        } else {
            assert(opened.subrange(opened.len() - 1, opened.len() as int)[0] == opened.last());
            body.append("```");
        }
        body
    } else {
        msg.to_string()
    };
    Message { kind, format, body }
}

/// The HTML that `TextMessageEventContent::markdown` makes of a text, where it finds Markdown in
/// it.
pub uninterp spec fn markdown_html(text: Seq<char>) -> Option<Seq<char>>;

/// Calls `TextMessageEventContent::markdown` and takes the formatted body. Whether there is one,
/// and its HTML, depend on the text alone and are named; they are the same for notices and emotes.
#[verifier::external_body]
pub(crate) fn render_markdown(text: &str) -> (r: Option<String>)
    ensures
        opt_text(r) == markdown_html(text@),
{
    let content =
        matrix_sdk::ruma::events::room::message::TextMessageEventContent::markdown(text);
    content.formatted.map(|f| f.body)
}

/// The HTML that is sent along with a message, given that of its Markdown: none with plain text,
/// and the body itself where it is HTML already.
pub open spec fn html_of(
    format: MessageFormat,
    body: Seq<char>,
    rendered: Option<Seq<char>>,
) -> Option<Seq<char>> {
    match format {
        MessageFormat::Plain => None,
        MessageFormat::Html => Some(body),
        MessageFormat::Markdown => rendered,
    }
}

/// The HTML that is sent along with a message, given that of its Markdown.
pub fn formatted_with(m: &Message, rendered: Option<String>) -> (r: Option<String>)
    ensures
        opt_text(r) == html_of(m.format, m.body@, opt_text(rendered)),
{
    match m.format {
        MessageFormat::Plain => None,
        MessageFormat::Html => Some(m.body.clone()),
        MessageFormat::Markdown => rendered,
    }
}

/// The HTML that is sent along with a message.
pub fn formatted_body(m: &Message) -> (r: Option<String>)
    ensures
        opt_text(r) == html_of(m.format, m.body@, markdown_html(m.body@)),
{
    let rendered = match m.format {
        MessageFormat::Markdown => render_markdown(m.body.as_str()),
        _ => None,
    };
    formatted_with(m, rendered)
}

/// What is printed of a message that was sent.
pub open spec fn sent_printed(
    event_id: Seq<char>,
    room_id: Seq<char>,
    msg: Seq<char>,
    print_event_id: bool,
    output: Output,
    sep: Seq<char>,
) -> Seq<char> {
    if !print_event_id {
        Seq::empty()
    } else {
        match output {
            Output::Text => event_id + sep + room_id + sep + msg + "\n"@,
            _ => printed(
                JsonDoc::Object(
                    seq![("event_id"@, JsonDoc::Text(event_id))].push(("room_id"@, JsonDoc::Text(room_id))).push(("message"@, JsonDoc::Text(msg))),
                ),
                output,
            ),
        }
    }
}

/// What is printed of a message that was sent.
pub fn print_sent(
    event_id: &str,
    room_id: &str,
    msg: &str,
    print_event_id: bool,
    output: Output,
    sep: &str,
) -> (out: String)
    ensures
        out@ == sent_printed(event_id@, room_id@, msg@, print_event_id, output, sep@),
{
    if !print_event_id {
        return String::new();
    }
    match output {
        Output::Text => {
            let mut out = event_id.to_string();
            out.append(sep);
            out.append(room_id);
            out.append(sep);
            out.append(msg);
            out.append("\n");
            out
        },
        _ => {
            let mut f = Fields::new();
            f.put_text("event_id", event_id);
            f.put_text("room_id", room_id);
            f.put_text("message", msg);
            let doc = f.object();
            print_json(&doc, output)
        },
    }
}

/// The type and the content of an event that is given as a document.
pub open spec fn event_in(doc: JsonDoc) -> Option<(Seq<char>, JsonDoc)> {
    match (text_member(doc, "type"@), member(doc, "content"@)) {
        (Some(t), Some(c)) => Some((t, c)),
        _ => None,
    }
}

/// The type and the content of an event that is given as a text.
pub open spec fn event_in_text(text: Seq<char>) -> Option<(Seq<char>, JsonDoc)> {
    match parsed_json(text) {
        Some(doc) => event_in(doc),
        None => None,
    }
}

/// Takes the type and the content out of an event.
pub fn event_of(doc: &Json) -> (r: Option<(&str, &Json)>)
    ensures
        match r {
            Some((t, c)) => event_in(doc@) == Some((t@, c@)),
            None => event_in(doc@) is None,
        },
{
    match doc.get_text("type") {
        Some(t) => match doc.get("content") {
            Some(c) => Some((t, c)),
            None => None,
        },
        None => None,
    }
}

/// An event that is ready to be sent.
#[derive(Debug)]
pub struct RawEvent {
    pub event_type: String,
    /// The content as JSON.
    pub content: String,
}

/// Reads an event from the command line. There is none where the text is no JSON or lacks a type
/// or a content.
pub fn read_event(text: &str) -> (r: Option<RawEvent>)
    ensures
        match r {
            Some(e) => event_in_text(text@) matches Some((t, c)) && e.event_type@ == t && e.content@
                == crate::json::compact_text(c),
            None => event_in_text(text@) is None,
        },
{
    match read_json(text) {
        Some(doc) => match event_of(&doc) {
            Some((t, c)) => Some(
                RawEvent { event_type: t.to_string(), content: crate::json::write_compact(c) },
            ),
            None => None,
        },
        None => None,
    }
}

/// What is kept of a list is not empty.
proof fn lemma_nonempty(list: Seq<Seq<char>>)
    ensures
        forall|i: int| 0 <= i < nonempty(list).len() ==> (#[trigger] nonempty(list)[i]).len() > 0,
    decreases list.len(),
{
    if list.len() > 0 {
        let head = nonempty(list.drop_last());
        lemma_nonempty(list.drop_last());
        assert forall|i: int| 0 <= i < nonempty(list).len() implies (#[trigger] nonempty(
            list,
        )[i]).len() > 0 by {
            if i < head.len() {
                assert(nonempty(list)[i] == head[i]);
            }
        }
    }
}

/// What splitting leaves is not empty.
proof fn lemma_split_parts(list: Seq<Seq<char>>, sep: Seq<char>)
    ensures
        forall|i: int|
            0 <= i < messages_split(list, sep).len() ==> (#[trigger] messages_split(
                list,
                sep,
            )[i]).len() > 0,
    decreases list.len(),
{
    if list.len() > 0 {
        let head = messages_split(list.drop_last(), sep);
        let parts = nonempty(split_on(list.last(), sep));
        lemma_split_parts(list.drop_last(), sep);
        lemma_nonempty(split_on(list.last(), sep));
        assert forall|i: int| 0 <= i < (head + parts).len() implies (#[trigger] (head
            + parts)[i]).len() > 0 by {
            if i < head.len() {
                assert((head + parts)[i] == head[i]);
            } else {
                assert((head + parts)[i] == parts[i - head.len()]);
            }
        }
    }
}

/// No empty message is sent: neither an argument nor a part that is left of one is empty, as long
/// as shortcodes are left alone.
pub proof fn law_no_empty_message(list: Seq<Seq<char>>, split: Option<Seq<char>>, i: int)
    requires
        0 <= i < messages_prepared(nonempty(list), split, false).len(),
    ensures
        messages_prepared(nonempty(list), split, false)[i].len() > 0,
{
    match split {
        Some(sep) => lemma_split_parts(nonempty(list), split_separator(sep)),
        None => lemma_nonempty(list),
    }
}

/// A message that is formatted as code is kept whole: it stands between a line that opens the
/// block and the closing of the block, with a line end behind it only where it has none of its own.
pub proof fn law_code_is_kept_whole(m: Seq<char>)
    ensures
        ({
            let block = code_block(m);
            &&& block.len() == m.len() + 7 + (if m.len() > 0 && m.last() != '\n' {
                1int
            } else {
                0int
            })
            &&& block.subrange(0, 4) == "```\n"@
            &&& block.subrange(4, 4 + m.len() as int) == m
            &&& block[block.len() - 4] == '\n'
            &&& block.subrange(block.len() - 3, block.len() as int) == "```"@
        }),
{
    reveal_strlit("```\n");
    reveal_strlit("\n");
    reveal_strlit("```");
    reveal_strlit("\n```");
    let block = code_block(m);
    let opened = "```\n"@ + m;
    if m.len() > 0 {
        assert(opened.last() == m.last());
    }
    assert(block.subrange(0, 4) =~= "```\n"@);
    assert(block.subrange(4, 4 + m.len() as int) =~= m);
    assert(block.subrange(block.len() - 3, block.len() as int) =~= "```"@);
}

/// The type of a message is that of the first option in the order notice, emote, and text without
/// either; it does not depend on how the message is formatted. Markdown, which code is too, goes
/// before HTML: it is sent along with the HTML that is made of it, HTML with itself, and any other
/// message without HTML.
pub proof fn law_kind_and_format(
    notice: bool,
    emote: bool,
    code: bool,
    markdown: bool,
    html: bool,
    body: Seq<char>,
    rendered: Option<Seq<char>>,
)
    ensures
        kind_of(notice, emote) == MessageKind::Notice <==> notice,
        kind_of(notice, emote) == MessageKind::Emote <==> emote && !notice,
        kind_of(notice, emote) == MessageKind::Text <==> !emote && !notice,
        code || markdown ==> html_of(format_of(code, markdown, html), body, rendered) == rendered,
        !code && !markdown && html ==> html_of(format_of(code, markdown, html), body, rendered)
            == Some(body),
        !code && !markdown && !html ==> html_of(
            format_of(code, markdown, html),
            body,
            rendered,
        ) is None,
        format_of(code, markdown, html) == MessageFormat::Markdown <==> code || markdown,
{
}

/// A line end behind a text is taken away, one and no more, and nothing else of the text.
pub proof fn law_one_line_end_is_dropped(t: Seq<char>)
    ensures
        without_line_end(t + "\r\n"@) == t,
        !(t.len() > 0 && t.last() == '\r') ==> without_line_end(t + "\n"@) == t,
        !(t.len() > 0 && t.last() == '\n') ==> without_line_end(t) == t,
{
    reveal_strlit("\r\n");
    reveal_strlit("\n");
    let crlf = t + "\r\n"@;
    assert(crlf.subrange(crlf.len() - 2, crlf.len() as int) =~= "\r\n"@);
    assert("\r\n"@.is_suffix_of(crlf));
    assert(crlf.take(crlf.len() - 2) =~= t);
    let lf = t + "\n"@;
    assert(lf.subrange(lf.len() - 1, lf.len() as int) =~= "\n"@);
    assert("\n"@.is_suffix_of(lf));
    assert(lf.take(lf.len() - 1) =~= t);
    if "\r\n"@.is_suffix_of(lf) {
        assert(lf.subrange(lf.len() - 2, lf.len() as int)[0] == '\r');
        assert(lf[lf.len() - 2] == t.last());
    }
    if "\n"@.is_suffix_of(t) {
        assert(t.subrange(t.len() - 1, t.len() as int)[0] == t.last());
    }
    if "\r\n"@.is_suffix_of(t) {
        assert(t.subrange(t.len() - 2, t.len() as int)[1] == t.last());
    }
}

/// Of a list the entries that are not empty are kept, each of them and in their order.
pub proof fn law_nonempty_entries_are_kept(a: Seq<Seq<char>>, b: Seq<Seq<char>>, t: Seq<char>)
    ensures
        nonempty(a + b) == nonempty(a) + nonempty(b),
        t.len() > 0 ==> nonempty(seq![t]) == seq![t],
        t.len() == 0 ==> nonempty(seq![t]) == Seq::<Seq<char>>::empty(),
    decreases b.len(),
{
    assert(seq![t].drop_last() =~= Seq::<Seq<char>>::empty());
    assert(nonempty(Seq::<Seq<char>>::empty()) =~= Seq::<Seq<char>>::empty());
    assert(Seq::<Seq<char>>::empty().push(t) =~= seq![t]);
    if b.len() == 0 {
        assert(a + b =~= a);
        assert(nonempty(a) + nonempty(b) =~= nonempty(a));
    } else {
        law_nonempty_entries_are_kept(a, b.drop_last(), t);
        assert((a + b).drop_last() =~= a + b.drop_last());
        assert((a + b).last() == b.last());
        assert(nonempty(a + b) =~= nonempty(a) + nonempty(b));
    }
}

/// Messages are split each by itself, in their order. Of a message nothing is lost but the
/// separators, and no part of it holds one; without the separator in it a message stays whole.
pub proof fn law_split_loses_separators_only(
    a: Seq<Seq<char>>,
    b: Seq<Seq<char>>,
    m: Seq<char>,
    sep: Seq<char>,
)
    requires
        sep.len() > 0,
    ensures
        messages_split(a + b, sep) == messages_split(a, sep) + messages_split(b, sep),
        joined(messages_split(seq![m], sep), Seq::empty()) == replaced(m, sep, Seq::empty()),
        forall|i: int|
            0 <= i < messages_split(seq![m], sep).len() ==> !occurs(
                #[trigger] messages_split(seq![m], sep)[i],
                sep,
            ),
{
    lemma_messages_split_in_pieces(a, b, sep);
    assert(seq![m].drop_last() =~= Seq::<Seq<char>>::empty());
    assert(messages_split(Seq::<Seq<char>>::empty(), sep) =~= Seq::<Seq<char>>::empty());
    let parts = split_on(m, sep);
    assert(messages_split(seq![m], sep) =~= nonempty(parts));
    law_split_and_join(m, sep, Seq::empty());
    lemma_nonempty_joined(parts);
    assert forall|i: int| 0 <= i < nonempty(parts).len() implies !occurs(
        #[trigger] nonempty(parts)[i],
        sep,
    ) by {
        lemma_nonempty_from(parts, i);
        let j = choose|j: int| 0 <= j < parts.len() && parts[j] == nonempty(parts)[i];
        law_split_leaves_no_separator(m, sep, j);
    }
}

/// Lists of messages are split one after the other.
proof fn lemma_messages_split_in_pieces(a: Seq<Seq<char>>, b: Seq<Seq<char>>, sep: Seq<char>)
    ensures
        messages_split(a + b, sep) == messages_split(a, sep) + messages_split(b, sep),
    decreases b.len(),
{
    if b.len() == 0 {
        assert(a + b =~= a);
        assert(messages_split(a, sep) + messages_split(b, sep) =~= messages_split(a, sep));
    } else {
        lemma_messages_split_in_pieces(a, b.drop_last(), sep);
        assert((a + b).drop_last() =~= a + b.drop_last());
        assert((a + b).last() == b.last());
        assert(messages_split(a + b, sep) =~= messages_split(a, sep) + messages_split(b, sep));
    }
}

/// Empty entries add nothing to what a list is joined to without a separator.
proof fn lemma_nonempty_joined(list: Seq<Seq<char>>)
    ensures
        joined(nonempty(list), Seq::empty()) == joined(list, Seq::empty()),
    decreases list.len(),
{
    let none = Seq::<char>::empty();
    if list.len() > 0 {
        let front = list.drop_last();
        lemma_nonempty_joined(front);
        assert(list =~= front + seq![list.last()]);
        law_joined_in_pieces(front, seq![list.last()], list.last(), none);
        law_joined_in_pieces(nonempty(front), seq![list.last()], list.last(), none);
        assert(nonempty(front).push(list.last()) =~= nonempty(front) + seq![list.last()]);
        if front.len() == 0 {
            assert(list =~= seq![list.last()]);
        }
        if nonempty(front).len() == 0 {
            assert(nonempty(front) =~= Seq::empty());
            assert(nonempty(front) + seq![list.last()] =~= seq![list.last()]);
        }
        if list.last().len() == 0 {
            assert(list.last() =~= none);
            assert(joined(front, none) + none + none =~= joined(front, none));
            assert(joined(front, none) =~= joined(list, none));
        } else {
            assert(joined(nonempty(list), none) =~= joined(list, none));
        }
    }
}

/// What is kept of a list comes from it.
proof fn lemma_nonempty_from(list: Seq<Seq<char>>, i: int)
    requires
        0 <= i < nonempty(list).len(),
    ensures
        exists|j: int| 0 <= j < list.len() && list[j] == nonempty(list)[i],
    decreases list.len(),
{
    let front = list.drop_last();
    if i < nonempty(front).len() {
        lemma_nonempty_from(front, i);
        let j = choose|j: int| 0 <= j < front.len() && front[j] == nonempty(front)[i];
        assert(list[j] == nonempty(list)[i]);
    } else {
        assert(list[list.len() - 1] == nonempty(list)[i]);
    }
}

/// Whether a text is another with a backslash before each of its characters.
pub open spec fn is_escaped(arg: Seq<char>, t: Seq<char>) -> bool {
    &&& arg.len() == 2 * t.len()
    &&& forall|i: int|
        0 <= i < t.len() ==> arg[2 * i] == '\\' && arg[2 * i + 1] == #[trigger] t[i]
}

/// An argument is the message itself, but for the ones that ask for standard input, skip the
/// message or are escaped. An escaped one has a backslash before each of its characters, and
/// stands for what it is without them.
pub proof fn law_escapes_are_undone(arg: Seq<char>, t: Seq<char>)
    ensures
        message_argument(arg) == MessageArgument::Stdin <==> arg == "-"@,
        message_argument(arg) == MessageArgument::Stream <==> arg == "_"@,
        message_argument(arg) == MessageArgument::Skip <==> arg.len() == 0 || arg == "--"@,
        arg.len() > 0 && arg[0] != '\\' && arg[0] != '-' && arg[0] != '_' ==> message_argument(arg)
            == MessageArgument::Text(arg),
        arg.len() > 6 ==> message_argument(arg) == MessageArgument::Text(arg),
        message_argument(arg) == MessageArgument::Text(t) && t != arg ==> is_escaped(arg, t),
        is_escaped(arg, t) && (t == "-"@ || t == "--"@ || t == "---"@ || t == "_"@)
            ==> message_argument(arg) == MessageArgument::Text(t),
{
    reveal_strlit("--");
    reveal_strlit("-");
    reveal_strlit("_");
    reveal_strlit("\\-");
    reveal_strlit("\\_");
    reveal_strlit("\\-\\-");
    reveal_strlit("\\-\\-\\-");
    reveal_strlit("---");
    assert("-"@[0] == '-');
    assert("_"@[0] == '_');
    assert("--"@[0] == '-');
    assert("\\-"@[1] == '-');
    assert("\\_"@[1] == '_');
    assert("\\-"@[0] == '\\');
    assert("\\_"@[0] == '\\');
    assert("\\-\\-"@[0] == '\\');
    assert("\\-\\-\\-"@[0] == '\\');
    if is_escaped(arg, t) && (t == "-"@ || t == "--"@ || t == "---"@ || t == "_"@) {
        assert(t[0] == '-' || t[0] == '_');
        assert(arg[2 * 0int] == '\\' && arg[2 * 0int + 1] == t[0]);
        if t == "-"@ {
            assert(arg =~= "\\-"@);
        } else if t == "_"@ {
            assert(arg =~= "\\_"@);
        } else if t == "--"@ {
            assert(t[1] == '-');
            assert(arg[2 * 1int] == '\\' && arg[2 * 1int + 1] == t[1]);
            assert(arg =~= "\\-\\-"@);
        } else {
            assert(t[1] == '-' && t[2] == '-');
            assert(arg[2 * 1int] == '\\' && arg[2 * 1int + 1] == t[1]);
            assert(arg[2 * 2int] == '\\' && arg[2 * 2int + 1] == t[2]);
            assert(arg =~= "\\-\\-\\-"@);
        }
    }
}

/// A message that is read from standard input is what was read without the line end behind it; one
/// that is given as a text is not changed by what was read.
pub proof fn law_read_text_is_the_message(
    t: Seq<char>,
    read: Option<Seq<char>>,
    arg: Seq<char>,
)
    requires
        !(t.len() > 0 && t.last() == '\r'),
    ensures
        argument_text(MessageArgument::Stdin, Some(t + "\n"@)) == t,
        argument_text(MessageArgument::Stdin, None) == Seq::<char>::empty(),
        argument_text(MessageArgument::Text(t), read) == t,
        event_argument("-"@, Some(t + "\n"@)) == t,
        event_argument("-"@, None) == Seq::<char>::empty(),
        arg != "-"@ ==> event_argument(arg, read) == arg,
{
    law_one_line_end_is_dropped(t);
}

/// A shortcode between colons is shown by its emoji, and as it is where there is none; the text
/// before it is kept, and what stands behind it is treated by itself.
pub proof fn law_shortcode_is_shown(a: Seq<char>, code: Seq<char>, b: Seq<char>)
    requires
        !a.contains(':'),
        code.len() > 0,
        forall|i: int|
            0 <= i < code.len() ==> ('a' <= #[trigger] code[i] <= 'z' || 'A' <= code[i] <= 'Z' || '0'
                <= code[i] <= '9' || code[i] == '_' || code[i] == '+' || code[i] == '-'),
    ensures
        emojized(a + ":"@ + code + ":"@ + b) == a + (match emoji_of(code) {
            Some(e) => e,
            None => ":"@ + code + ":"@,
        }) + emojized(b),
    decreases a.len(),
{
    reveal_strlit(":");
    let s = a + ":"@ + code + ":"@ + b;
    if a.len() == 0 {
        let after = s.skip(1);
        assert(after =~= code + (":"@ + b));
        lemma_code_run(code, ":"@ + b);
        assert(s[1 + code.len() as int] == ':');
        assert(s.subrange(1, 1 + code.len() as int) =~= code);
        assert(s.skip(code.len() as int + 2) =~= b);
        assert(code_at_front(s) == code.len());
        let shown = shortcode_shown(code, emoji_of(code));
        assert(emojized(s) == shown + emojized(b));
        assert(a + shown + emojized(b) =~= shown + emojized(b));
    } else {
        let rest = a.skip(1);
        assert(a.contains(a[0]));
        assert(s[0] == a[0]);
        assert forall|c: char| rest.contains(c) implies a.contains(c) by {
            let j = choose|j: int| 0 <= j < rest.len() && rest[j] == c;
            assert(a[j + 1] == c);
        }
        law_shortcode_is_shown(rest, code, b);
        assert(s.skip(1) =~= rest + ":"@ + code + ":"@ + b);
        let shown = shortcode_shown(code, emoji_of(code));
        assert(seq![a[0]] + (rest + shown + emojized(b)) =~= a + shown + emojized(b));
    }
}

/// Characters of shortcodes are counted up to the first other one.
proof fn lemma_code_run(code: Seq<char>, back: Seq<char>)
    requires
        forall|i: int| 0 <= i < code.len() ==> is_code_char(#[trigger] code[i]),
        back.len() > 0,
        !is_code_char(back[0]),
    ensures
        code_run(code + back) == code.len(),
    decreases code.len(),
{
    let s = code + back;
    if code.len() == 0 {
        assert(s[0] == back[0]);
    } else {
        assert(s[0] == code[0]);
        assert(s.skip(1) =~= code.skip(1) + back);
        lemma_code_run(code.skip(1), back);
    }
}

/// A colon at which no shortcode begins is kept: behind it no character of a shortcode stands.
pub proof fn law_lone_colon_is_kept(b: Seq<char>)
    requires
        b.len() == 0 || !is_code_char(b[0]),
    ensures
        emojized(":"@ + b) == ":"@ + emojized(b),
{
    reveal_strlit(":");
    let s = ":"@ + b;
    assert(s.skip(1) =~= b);
    assert(code_at_front(s) == 0);
    assert(seq![s[0]] =~= ":"@);
}

/// With emojis each message is changed by itself; without, and without a separator, the messages
/// are sent as they are.
pub proof fn law_each_message_by_itself(
    list: Seq<Seq<char>>,
    split: Option<Seq<char>>,
    i: int,
)
    requires
        0 <= i < messages_prepared(list, split, false).len(),
    ensures
        messages_prepared(list, None, false) == list,
        messages_prepared(list, split, true).len() == messages_prepared(list, split, false).len(),
        messages_prepared(list, split, true)[i] == emojized(messages_prepared(list, split, false)[i]),
{
}

/// Where it is asked for, the event id, the room and the message of a message that was sent are
/// printed: in plain text as the columns of a line, in JSON as the fields of an object. Otherwise
/// nothing is.
pub proof fn law_sent_message_is_shown(
    event_id: Seq<char>,
    room_id: Seq<char>,
    msg: Seq<char>,
    output: Output,
    sep: Seq<char>,
)
    ensures
        sent_printed(event_id, room_id, msg, false, output, sep) == Seq::<char>::empty(),
        sent_printed(event_id, room_id, msg, true, Output::Text, sep) == joined(
            seq![event_id].push(room_id).push(msg),
            sep,
        ) + "\n"@,
        output != Output::Text ==> exists|doc: JsonDoc|
            {
                &&& sent_printed(event_id, room_id, msg, true, output, sep) == #[trigger] printed(
                    doc,
                    output,
                )
                &&& has_fields(doc, 3)
                &&& has_field(doc, "event_id"@, JsonDoc::Text(event_id))
                &&& has_field(doc, "room_id"@, JsonDoc::Text(room_id))
                &&& has_field(doc, "message"@, JsonDoc::Text(msg))
            },
{
    lemma_joined_three(event_id, room_id, msg, sep);
    let items = seq![("event_id"@, JsonDoc::Text(event_id))].push(
        ("room_id"@, JsonDoc::Text(room_id)),
    ).push(("message"@, JsonDoc::Text(msg)));
    lemma_has_field(items, 0);
    lemma_has_field(items, 1);
    lemma_has_field(items, 2);
    if output != Output::Text {
        assert(sent_printed(event_id, room_id, msg, true, output, sep) == printed(
            JsonDoc::Object(items),
            output,
        ));
    }
}

/// An event is read from a document with its type and its content; it needs both, and its type is
/// a text.
pub proof fn law_event_needs_type_and_content(doc: JsonDoc, t: Seq<char>, c: JsonDoc)
    ensures
        member(doc, "type"@) == Some(JsonDoc::Text(t)) && member(doc, "content"@) == Some(c)
            ==> event_in(doc) == Some((t, c)),
        member(doc, "content"@) is None ==> event_in(doc) is None,
        !(member(doc, "type"@) matches Some(JsonDoc::Text(_))) ==> event_in(doc) is None,
{
}

} // verus!
