//! JSON documents and how they are printed.

use vstd::prelude::*;

use crate::ids::begins;
use crate::text::{join, joined, opt_str, opt_text, same_text, texts};
use crate::types::Output;

verus! {

/// The number type of `serde_json`; its values are only carried through.
#[verifier::external_type_specification]
#[verifier::external_body]
pub struct ExNumber(serde_json::Number);

/// The document type of `serde_json`; documents are converted to and from it.
#[verifier::external_type_specification]
#[verifier::external_body]
pub struct ExValue(serde_json::Value);

/// A JSON document. The fields of an object stand in the order in which they are printed.
#[derive(Debug)]
pub enum Json {
    Null,
    Bool(bool),
    Int(i64),
    Uint(u64),
    /// A number that was read from a text.
    Number(serde_json::Number),
    Text(String),
    Array(Vec<Json>),
    Object(Vec<(String, Json)>),
}

/// A JSON document as a mathematical value.
pub enum JsonDoc {
    Null,
    Bool(bool),
    Int(i64),
    Uint(u64),
    Number(serde_json::Number),
    Text(Seq<char>),
    Array(Seq<JsonDoc>),
    Object(Seq<(Seq<char>, JsonDoc)>),
}

impl View for Json {
    type V = JsonDoc;

    open spec fn view(&self) -> JsonDoc {
        self.doc()
    }
}

impl Json {
    /// The mathematical value of the document.
    pub open spec fn doc(&self) -> JsonDoc
        decreases self,
    {
        match self {
            Json::Null => JsonDoc::Null,
            Json::Bool(b) => JsonDoc::Bool(*b),
            Json::Int(n) => JsonDoc::Int(*n),
            Json::Uint(n) => JsonDoc::Uint(*n),
            Json::Number(n) => JsonDoc::Number(*n),
            Json::Text(s) => JsonDoc::Text(s@),
            Json::Array(items) => JsonDoc::Array(
                Seq::new(
                    items@.len(),
                    |i: int|
                        if 0 <= i < items@.len() {
                            items@[i].doc()
                        } else {
                            JsonDoc::Null
                        },
                ),
            ),
            Json::Object(items) => JsonDoc::Object(
                Seq::new(
                    items@.len(),
                    |i: int|
                        if 0 <= i < items@.len() {
                            (items@[i].0@, items@[i].1.doc())
                        } else {
                            (Seq::empty(), JsonDoc::Null)
                        },
                ),
            ),
        }
    }
}

/// The mathematical values of a list of documents.
pub open spec fn docs(items: Seq<Json>) -> Seq<JsonDoc> {
    items.map_values(|j: Json| j@)
}

/// The mathematical values of a list of fields.
pub open spec fn fields(items: Seq<(String, Json)>) -> Seq<(Seq<char>, JsonDoc)> {
    items.map_values(|e: (String, Json)| (e.0@, e.1@))
}

/// A text, or null where there is none.
pub open spec fn text_or_null(t: Option<Seq<char>>) -> JsonDoc {
    match t {
        Some(s) => JsonDoc::Text(s),
        None => JsonDoc::Null,
    }
}

/// A text, or null where it is empty.
pub open spec fn nonempty_or_null(t: Seq<char>) -> JsonDoc {
    if t.len() == 0 {
        JsonDoc::Null
    } else {
        JsonDoc::Text(t)
    }
}

/// A list of texts as an array.
pub open spec fn text_array(list: Seq<Seq<char>>) -> JsonDoc {
    JsonDoc::Array(list.map_values(|s: Seq<char>| JsonDoc::Text(s)))
}

/// The first field of that name in an object.
pub open spec fn field_of(items: Seq<(Seq<char>, JsonDoc)>, key: Seq<char>) -> Option<JsonDoc>
    decreases items.len(),
{
    if items.len() == 0 {
        None
    } else if items[0].0 == key {
        Some(items[0].1)
    } else {
        field_of(items.skip(1), key)
    }
}

/// The field of that name, where the document is an object that has it.
pub open spec fn member(doc: JsonDoc, key: Seq<char>) -> Option<JsonDoc> {
    match doc {
        JsonDoc::Object(items) => field_of(items, key),
        _ => None,
    }
}

/// The text, where the document is one.
pub open spec fn as_text(doc: JsonDoc) -> Option<Seq<char>> {
    match doc {
        JsonDoc::Text(s) => Some(s),
        _ => None,
    }
}

/// The text in the field of that name.
pub open spec fn text_member(doc: JsonDoc, key: Seq<char>) -> Option<Seq<char>> {
    match member(doc, key) {
        Some(v) => as_text(v),
        None => None,
    }
}

/// Whether the document is an object of texts under names that all differ and do not begin with a
/// dollar sign, as the names do that `serde_json` keeps for itself.
pub open spec fn flat_texts(doc: JsonDoc) -> bool {
    doc matches JsonDoc::Object(items) && {
        &&& forall|i: int|
            0 <= i < items.len() ==> (#[trigger] items[i]).1 is Text && !begins(items[i].0, '$')
        &&& forall|i: int, j: int|
            0 <= i < j < items.len() ==> (#[trigger] items[i]).0 != (#[trigger] items[j]).0
    }
}

/// The text that `serde_json::to_string` writes for a document.
pub uninterp spec fn compact_text(doc: JsonDoc) -> Seq<char>;

/// The text that `serde_json::to_string_pretty` writes for a document.
pub uninterp spec fn pretty_text(doc: JsonDoc) -> Seq<char>;

/// The document that `serde_json::from_str` reads from a text, if it can.
pub uninterp spec fn parsed_json(text: Seq<char>) -> Option<JsonDoc>;

/// Converts a document, variant by variant, into a `serde_json::Value`.
#[verifier::external_body]
fn to_value(doc: &Json) -> serde_json::Value {
    match doc {
        Json::Null => serde_json::Value::Null,
        Json::Bool(b) => serde_json::Value::Bool(*b),
        Json::Int(n) => serde_json::Value::from(*n),
        Json::Uint(n) => serde_json::Value::from(*n),
        Json::Number(n) => serde_json::Value::Number(n.clone()),
        Json::Text(s) => serde_json::Value::String(s.clone()),
        Json::Array(v) => serde_json::Value::Array(v.iter().map(to_value).collect()),
        Json::Object(v) => serde_json::Value::Object(
            v.iter().map(|e| (e.0.clone(), to_value(&e.1))).collect(),
        ),
    }
}

/// Converts a `serde_json::Value`, variant by variant, into a document.
#[verifier::external_body]
fn of_value(value: serde_json::Value) -> Json {
    match value {
        serde_json::Value::Null => Json::Null,
        serde_json::Value::Bool(b) => Json::Bool(b),
        serde_json::Value::Number(n) => Json::Number(n),
        serde_json::Value::String(s) => Json::Text(s),
        serde_json::Value::Array(v) => Json::Array(v.into_iter().map(of_value).collect()),
        serde_json::Value::Object(m) => Json::Object(
            m.into_iter().map(|e| (e.0, of_value(e.1))).collect(),
        ),
    }
}

/// Calls `serde_json::to_string` on the document. The text depends on the document alone and is
/// named; of a truth value it is `true` or `false`.
#[verifier::external_body]
pub(crate) fn write_compact(doc: &Json) -> (text: String)
    ensures
        text@ == compact_text(doc@),
        doc@ matches JsonDoc::Bool(b) ==> text@ == if b { "true"@ } else { "false"@ },
{
    serde_json::to_string(&to_value(doc)).unwrap_or_default()
}

/// Calls `serde_json::to_string_pretty` on the document. The text depends on the document alone
/// and is named; where the document is an object of texts under different names, none of them one
/// that `serde_json` keeps for itself, `serde_json::from_str` reads it back from the text.
#[verifier::external_body]
pub(crate) fn write_pretty(doc: &Json) -> (text: String)
    ensures
        text@ == pretty_text(doc@),
        flat_texts(doc@) ==> parsed_json(text@) == Some(doc@),
{
    serde_json::to_string_pretty(&to_value(doc)).unwrap_or_default()
}

/// Calls `serde_json::from_str`. Whether it can read the text, and the document that it reads,
/// depend on the text alone and are named.
#[verifier::external_body]
pub(crate) fn read_json(text: &str) -> (r: Option<Json>)
    ensures
        match r {
            Some(doc) => parsed_json(text@) == Some(doc@),
            None => parsed_json(text@) is None,
        },
{
    serde_json::from_str::<serde_json::Value>(text).ok().map(of_value)
}

/// A list of fields under construction.
pub struct Fields {
    items: Vec<(String, Json)>,
}

impl View for Fields {
    type V = Seq<(Seq<char>, JsonDoc)>;

    closed spec fn view(&self) -> Seq<(Seq<char>, JsonDoc)> {
        fields(self.items@)
    }
}

impl Fields {
    /// No fields.
    pub fn new() -> (f: Fields)
        ensures
            f@ == Seq::<(Seq<char>, JsonDoc)>::empty(),
    {
        let f = Fields { items: Vec::new() };
        assert(f@ =~= Seq::<(Seq<char>, JsonDoc)>::empty());
        f
    }

    /// Appends a field.
    pub fn put(&mut self, key: &str, value: Json)
        ensures
            final(self)@ == old(self)@.push((key@, value@)),
    {
        let ghost before = self@;
        let ghost doc = value@;
        self.items.push((key.to_string(), value));
        assert(self@ =~= before.push((key@, doc)));
    }

    /// Appends a field that holds a text.
    pub fn put_text(&mut self, key: &str, value: &str)
        ensures
            final(self)@ == old(self)@.push((key@, JsonDoc::Text(value@))),
    {
        self.put(key, Json::Text(value.to_string()));
    }

    /// The object with these fields.
    pub fn object(self) -> (doc: Json)
        ensures
            doc@ == JsonDoc::Object(self@),
    {
        let doc = Json::Object(self.items);
        assert(doc@->Object_0 =~= self@);
        doc
    }
}

/// The array of these documents.
pub fn array_of(items: Vec<Json>) -> (doc: Json)
    ensures
        doc@ == JsonDoc::Array(docs(items@)),
{
    let ghost list = items@;
    let doc = Json::Array(items);
    assert(doc@->Array_0 =~= docs(list));
    doc
}

/// The array of these texts.
pub fn array_of_texts(list: &Vec<String>) -> (doc: Json)
    ensures
        doc@ == text_array(texts(list@)),
{
    let mut items: Vec<Json> = Vec::new();
    let mut i: usize = 0;
    while i < list.len()
        invariant
            i <= list.len(),
            items.len() == i,
            forall|j: int| 0 <= j < i ==> (#[trigger] items@[j])@ == JsonDoc::Text(list@[j]@),
        decreases list.len() - i,
    {
        items.push(Json::Text(list[i].clone()));
        i += 1;
    }
    assert(docs(items@) =~= texts(list@).map_values(|s: Seq<char>| JsonDoc::Text(s)));
    array_of(items)
}

/// A text, or null where there is none.
pub fn json_opt_text(t: Option<&str>) -> (doc: Json)
    ensures
        doc@ == text_or_null(opt_str(t)),
{
    match t {
        Some(s) => Json::Text(s.to_string()),
        None => Json::Null,
    }
}

/// A text, or null where there is none.
pub fn json_opt_string(t: &Option<String>) -> (doc: Json)
    ensures
        doc@ == text_or_null(opt_text(*t)),
{
    match t {
        Some(s) => Json::Text(s.clone()),
        None => Json::Null,
    }
}

/// A text, or null where it is empty.
pub fn json_nonempty(t: &str) -> (doc: Json)
    ensures
        doc@ == nonempty_or_null(t@),
{
    if t.is_empty() {
        Json::Null
    } else {
        Json::Text(t.to_string())
    }
}

impl Json {
    /// The field of that name, where the document is an object that has it.
    pub fn get(&self, key: &str) -> (r: Option<&Json>)
        ensures
            match r {
                Some(v) => member(self@, key@) == Some(v@),
                None => member(self@, key@) is None,
            },
    {
        if let Json::Object(items) = self {
            let mut i: usize = 0;
            assert(self@->Object_0 =~= fields(items@));
            assert(fields(items@).skip(0) =~= fields(items@));
            while i < items.len()
                invariant
                    i <= items.len(),
                    self@ == JsonDoc::Object(fields(items@)),
                    field_of(fields(items@).skip(i as int), key@) == member(self@, key@),
                decreases items.len() - i,
            {
                assert(fields(items@).skip(i as int)[0] == (items@[i as int].0@, items@[i as int].1@));
                if same_text(items[i].0.as_str(), key) {
                    return Some(&items[i].1);
                }
                assert(fields(items@).skip(i as int).skip(1) =~= fields(items@).skip(i + 1));
                i += 1;
            }
            None
        } else {
            None
        }
    }

    /// The text, where the document is one.
    pub fn text(&self) -> (r: Option<&str>)
        ensures
            opt_str(r) == as_text(self@),
    {
        if let Json::Text(s) = self {
            Some(s.as_str())
        } else {
            None
        }
    }

    /// The text in the field of that name.
    pub fn get_text(&self, key: &str) -> (r: Option<&str>)
        ensures
            opt_str(r) == text_member(self@, key@),
    {
        match self.get(key) {
            Some(v) => v.text(),
            None => None,
        }
    }
}

/// An element of an array as it is shown in plain text: a text as it is, anything else as JSON.
pub open spec fn element_text(doc: JsonDoc) -> Seq<char> {
    match doc {
        JsonDoc::Text(s) => s,
        _ => compact_text(doc),
    }
}

/// The value of a field as it is shown in plain text.
pub open spec fn value_text(doc: JsonDoc) -> Seq<char>
    decreases doc, 2nat,
{
    match doc {
        JsonDoc::Object(items) => plain_text(doc),
        JsonDoc::Null => "    "@,
        JsonDoc::Text(s) => "    "@ + s,
        JsonDoc::Array(items) => "    ["@ + joined(
            items.map_values(|v: JsonDoc| element_text(v)),
            ", "@,
        ) + "]"@,
        _ => "    "@ + compact_text(doc),
    }
}

/// The first `n` fields as they are shown in plain text, one after the other.
pub open spec fn fields_text(items: Seq<(Seq<char>, JsonDoc)>, n: nat) -> Seq<char>
    decreases items, n,
{
    if n == 0 || n > items.len() {
        Seq::empty()
    } else {
        fields_text(items, (n - 1) as nat) + (if n == 1 {
            Seq::empty()
        } else {
            "    "@
        }) + items[n - 1].0 + ":"@ + value_text(items[n - 1].1)
    }
}

/// An object in plain text: its fields on one line. Nothing of any other document.
pub open spec fn plain_text(doc: JsonDoc) -> Seq<char>
    decreases doc, 1nat,
{
    match doc {
        JsonDoc::Object(items) => fields_text(items, items.len()) + "\n"@,
        _ => Seq::empty(),
    }
}

/// What is printed of a document: plain text or one line of JSON. Nothing in the mode that is
/// restricted to what the Matrix protocol defines.
pub open spec fn printed(doc: JsonDoc, output: Output) -> Seq<char> {
    match output {
        Output::Text => plain_text(doc),
        Output::JsonSpec => Seq::empty(),
        _ => compact_text(doc) + "\n"@,
    }
}

/// In the mode that is restricted to what the Matrix protocol defines, nothing is printed of
/// the program's own documents; the two other modes of JSON print the same, the document on a
/// line; and in plain text only objects are shown.
pub proof fn law_output_modes(doc: JsonDoc)
    ensures
        printed(doc, Output::JsonSpec) == Seq::<char>::empty(),
        printed(doc, Output::Json) == printed(doc, Output::JsonMax),
        printed(doc, Output::Json) == compact_text(doc) + "\n"@,
        printed(doc, Output::Text) == plain_text(doc),
        !(doc is Object) ==> printed(doc, Output::Text) == Seq::<char>::empty(),
{
}

/// The elements of an array as they are shown in plain text.
fn element_texts(items: &Vec<Json>) -> (out: Vec<String>)
    ensures
        texts(out@) == docs(items@).map_values(|v: JsonDoc| element_text(v)),
{
    let mut out: Vec<String> = Vec::new();
    let mut i: usize = 0;
    while i < items.len()
        invariant
            i <= items.len(),
            out.len() == i,
            forall|j: int| 0 <= j < i ==> (#[trigger] out@[j])@ == element_text(items@[j]@),
        decreases items.len() - i,
    {
        let t = match items[i].text() {
            Some(s) => s.to_string(),
            None => write_compact(&items[i]),
        };
        out.push(t);
        i += 1;
    }
    assert(texts(out@) =~= docs(items@).map_values(|v: JsonDoc| element_text(v)));
    out
}

/// The value of a field in plain text.
fn print_value(value: &Json) -> (out: String)
    ensures
        out@ == value_text(value@),
    decreases value, 2nat,
{
    match value {
        Json::Object(_) => print_text(value),
        Json::Null => "    ".to_string(),
        Json::Text(s) => {
            let mut out = "    ".to_string();
            out.append(s.as_str());
            out
        },
        Json::Array(items) => {
            let list = element_texts(items);
            let mut out = "    [".to_string();
            let inner = join(&list, ", ");
            out.append(inner.as_str());
            out.append("]");
            assert(value@->Array_0 =~= docs(items@));
            out
        },
        _ => {
            let mut out = "    ".to_string();
            let inner = write_compact(value);
            out.append(inner.as_str());
            out
        },
    }
}

/// An object in plain text.
fn print_text(doc: &Json) -> (out: String)
    ensures
        out@ == plain_text(doc@),
    decreases doc, 1nat,
{
    match doc {
        Json::Object(items) => {
            let mut out = String::new();
            let mut i: usize = 0;
            assert(doc@->Object_0 =~= fields(items@));
            while i < items.len()
                invariant
                    i <= items.len(),
                    doc == Json::Object(*items),
                    out@ == fields_text(fields(items@), i as nat),
                decreases items.len() - i,
            {
                if i > 0 {
                    out.append("    ");
                }
                out.append(items[i].0.as_str());
                out.append(":");
                assert(decreases_to!(doc => doc->Object_0));
                assert(decreases_to!(doc->Object_0 => items@));
                assert(decreases_to!(items@ => items@[i as int]));
                assert(decreases_to!(items@[i as int] => items@[i as int].1));
                let value = print_value(&items[i].1);
                out.append(value.as_str());
                i += 1;
            }
            out.append("\n");
            out
        },
        _ => String::new(),
    }
}

/// What is printed of a JSON document, as JSON or as plain text.
pub fn print_json(doc: &Json, output: Output) -> (out: String)
    ensures
        out@ == printed(doc@, output),
{
    match output {
        Output::Text => print_text(doc),
        Output::JsonSpec => String::new(),
        _ => print_line(doc),
    }
}

/// A document as one line of JSON.
pub fn print_line(doc: &Json) -> (out: String)
    ensures
        out@ == compact_text(doc@) + "\n"@,
{
    let mut out = write_compact(doc);
    out.append("\n");
    out
}

/// Whether the document is an object that holds that field.
pub open spec fn has_field(doc: JsonDoc, key: Seq<char>, value: JsonDoc) -> bool {
    doc matches JsonDoc::Object(items) && items.contains((key, value))
}

/// Whether the document is an object of so many fields.
pub open spec fn has_fields(doc: JsonDoc, count: nat) -> bool {
    doc matches JsonDoc::Object(items) && items.len() == count
}

/// A field that stands at a position is a field of the object.
pub proof fn lemma_has_field(items: Seq<(Seq<char>, JsonDoc)>, i: int)
    requires
        0 <= i < items.len(),
    ensures
        has_field(JsonDoc::Object(items), items[i].0, items[i].1),
{
    assert(items.contains(items[i]));
    assert((items[i].0, items[i].1) == items[i]);
}

/// The fields that stand at the first positions are fields of the object.
pub proof fn lemma_has_first_fields(items: Seq<(Seq<char>, JsonDoc)>)
    ensures
        forall|i: int|
            0 <= i < items.len() ==> has_field(
                JsonDoc::Object(items),
                (#[trigger] items[i]).0,
                items[i].1,
            ),
{
    assert forall|i: int| 0 <= i < items.len() implies has_field(
        JsonDoc::Object(items),
        (#[trigger] items[i]).0,
        items[i].1,
    ) by {
        lemma_has_field(items, i);
    }
}

/// The first field of a name is the one that is found, whatever stands behind it; a name that no
/// field bears is not found.
pub proof fn law_first_field_is_found(
    front: Seq<(Seq<char>, JsonDoc)>,
    key: Seq<char>,
    value: JsonDoc,
    back: Seq<(Seq<char>, JsonDoc)>,
    text: Seq<char>,
)
    requires
        forall|i: int| 0 <= i < front.len() ==> (#[trigger] front[i]).0 != key,
    ensures
        member(JsonDoc::Object(front), key) is None,
        member(JsonDoc::Object(front.push((key, value)) + back), key) == Some(value),
        member(JsonDoc::Text(text), key) is None,
        text_member(JsonDoc::Object(front.push((key, JsonDoc::Text(text))) + back), key) == Some(
            text,
        ),
    decreases front.len(),
{
    let all = front.push((key, value)) + back;
    let named = front.push((key, JsonDoc::Text(text))) + back;
    if front.len() == 0 {
        assert(all[0] == (key, value));
        assert(named[0] == (key, JsonDoc::Text(text)));
    } else {
        let rest = front.skip(1);
        assert forall|i: int| 0 <= i < rest.len() implies (#[trigger] rest[i]).0 != key by {
            assert(rest[i] == front[i + 1]);
        }
        law_first_field_is_found(rest, key, value, back, text);
        assert(all[0] == front[0]);
        assert(named[0] == front[0]);
        assert(all.skip(1) =~= rest.push((key, value)) + back);
        assert(named.skip(1) =~= rest.push((key, JsonDoc::Text(text))) + back);
    }
}

/// In plain text an object is one line in which its fields stand one after the other: a field
/// more adds its name, a colon and its value, behind four blanks where others stand before it. A
/// text is shown as it is behind four blanks, nothing of null but the blanks, and an array of
/// texts in brackets with its elements between commas.
pub proof fn law_plain_text_grows_by_fields(
    items: Seq<(Seq<char>, JsonDoc)>,
    key: Seq<char>,
    value: JsonDoc,
    text: Seq<char>,
    list: Seq<Seq<char>>,
)
    ensures
        plain_text(JsonDoc::Object(Seq::empty())) == "\n"@,
        items.len() > 0 ==> plain_text(JsonDoc::Object(items.push((key, value)))) == plain_text(
            JsonDoc::Object(items),
        ).drop_last() + "    "@ + key + ":"@ + value_text(value) + "\n"@,
        plain_text(JsonDoc::Object(seq![(key, value)])) == key + ":"@ + value_text(value) + "\n"@,
        value_text(JsonDoc::Text(text)) == "    "@ + text,
        value_text(JsonDoc::Null) == "    "@,
        value_text(text_array(list)) == "    ["@ + joined(list, ", "@) + "]"@,
{
    reveal_strlit("\n");
    let none = Seq::<(Seq<char>, JsonDoc)>::empty();
    assert(fields_text(none, 0) =~= Seq::<char>::empty());
    assert(plain_text(JsonDoc::Object(none)) =~= "\n"@);
    let more = items.push((key, value));
    lemma_fields_text_front(items, (key, value), items.len());
    assert(plain_text(JsonDoc::Object(items)).drop_last() =~= fields_text(items, items.len()));
    assert(more.len() == items.len() + 1);
    assert(plain_text(JsonDoc::Object(more)) == fields_text(more, more.len()) + "\n"@);
    let one = seq![(key, value)];
    assert(fields_text(one, 0) =~= Seq::<char>::empty());
    assert(fields_text(one, 1) =~= key + ":"@ + value_text(value));
    let docs = list.map_values(|s: Seq<char>| JsonDoc::Text(s));
    assert(docs.map_values(|v: JsonDoc| element_text(v)) =~= list);
}

/// A field behind the first `n` changes nothing of them.
proof fn lemma_fields_text_front(
    items: Seq<(Seq<char>, JsonDoc)>,
    last: (Seq<char>, JsonDoc),
    n: nat,
)
    requires
        n <= items.len(),
    ensures
        fields_text(items.push(last), n) == fields_text(items, n),
    decreases n,
{
    if n > 0 {
        lemma_fields_text_front(items, last, (n - 1) as nat);
        assert(items.push(last)[n - 1] == items[n - 1]);
    }
}

/// A text that is there is itself, and null stands only for one that is not there or is empty.
pub proof fn law_null_for_nothing(t: Seq<char>)
    ensures
        text_or_null(Some(t)) == JsonDoc::Text(t),
        text_or_null(None) == JsonDoc::Null,
        t.len() > 0 ==> nonempty_or_null(t) == JsonDoc::Text(t),
        t.len() == 0 ==> nonempty_or_null(t) == JsonDoc::Null,
{
}

/// A list of texts is an array that has each of them at its place.
pub proof fn law_texts_in_an_array(list: Seq<Seq<char>>, i: int)
    requires
        0 <= i < list.len(),
    ensures
        text_array(list)->Array_0.len() == list.len(),
        text_array(list)->Array_0[i] == JsonDoc::Text(list[i]),
{
}

} // verus!
