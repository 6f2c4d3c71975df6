//! Calls of the REST interface of the server.

use vstd::prelude::*;

use crate::account::text_or_empty;
use crate::credentials::Credentials;
use crate::json::{
    compact_text, has_field, has_fields, lemma_has_field, parsed_json, print_line, read_json,
    Fields, JsonDoc,
};
use crate::server::{trim_slash, without_slash};
use crate::session::{host_of, url_host};
use crate::text::{
    all_ascii, ascii_upper, is_blank, law_absent_text_is_not_replaced, law_joined_in_pieces,
    law_split_and_join, law_split_at_the_first_separator, lemma_occurs_contains, occurs, occurs_at,
    replace_text, replaced, same_text, to_upper, trim, trimmed, upper_text,
};
use crate::tokens::{percent_encoded, url_encode};
use crate::types::{Error, Output};

verus! {

/// The method of a request.
#[derive(Clone, Copy, Debug, PartialEq, Eq, Structural)]
pub enum RestMethod {
    Get,
    Post,
    Put,
    Delete,
    Options,
}

impl RestMethod {
    /// Whether data can go with a request.
    pub open spec fn takes_data(self) -> bool {
        self == RestMethod::Post || self == RestMethod::Put
    }
}

/// The method that a word in capitals names.
pub open spec fn method_of(word: Seq<char>) -> Option<RestMethod> {
    if word == "GET"@ {
        Some(RestMethod::Get)
    } else if word == "POST"@ {
        Some(RestMethod::Post)
    } else if word == "PUT"@ {
        Some(RestMethod::Put)
    } else if word == "DELETE"@ {
        Some(RestMethod::Delete)
    } else if word == "OPTIONS"@ {
        Some(RestMethod::Options)
    } else {
        None
    }
}

/// The method that a word in capitals names.
pub fn read_method(word: &str) -> (r: Option<RestMethod>)
    ensures
        r == method_of(word@),
{
    if same_text(word, "GET") {
        Some(RestMethod::Get)
    } else if same_text(word, "POST") {
        Some(RestMethod::Post)
    } else if same_text(word, "PUT") {
        Some(RestMethod::Put)
    } else if same_text(word, "DELETE") {
        Some(RestMethod::Delete)
    } else if same_text(word, "OPTIONS") {
        Some(RestMethod::Options)
    } else {
        None
    }
}

/// What the placeholders in a request stand for.
#[derive(Debug)]
pub struct RestValues {
    pub homeserver: String,
    pub hostname: String,
    pub access_token: String,
    pub user_id: String,
    pub device_id: String,
    /// The default room, encoded for an address.
    pub room_id: String,
}

/// A text with its placeholders filled in, one after the other.
pub open spec fn filled(t: Seq<char>, v: RestValues) -> Seq<char> {
    let t = replaced(t, "__homeserver__"@, v.homeserver@);
    let t = replaced(t, "__hostname__"@, v.hostname@);
    let t = replaced(t, "__access_token__"@, v.access_token@);
    let t = replaced(t, "__user_id__"@, v.user_id@);
    let t = replaced(t, "__device_id__"@, v.device_id@);
    replaced(t, "__room_id__"@, v.room_id@)
}

/// Fills in the placeholders of a text.
pub fn fill(t: &str, v: &RestValues) -> (out: String)
    ensures
        out@ == filled(t@, *v),
{
    let t = replace_text(t, "__homeserver__", v.homeserver.as_str());
    let t = replace_text(t.as_str(), "__hostname__", v.hostname.as_str());
    let t = replace_text(t.as_str(), "__access_token__", v.access_token.as_str());
    let t = replace_text(t.as_str(), "__user_id__", v.user_id.as_str());
    let t = replace_text(t.as_str(), "__device_id__", v.device_id.as_str());
    replace_text(t.as_str(), "__room_id__", v.room_id.as_str())
}

/// What the placeholders stand for, given the credentials. The name of the host is that in the
/// address of the homeserver, and empty where there is none in it. An access token on the command
/// line comes before the one of the credentials.
pub fn rest_values(creds: &Credentials, access_token: Option<&str>) -> (v: RestValues)
    ensures
        v.homeserver@ == without_slash(creds.homeserver@),
        v.hostname@ == match url_host(creds.homeserver@) {
            Some(h) => h,
            None => Seq::empty(),
        },
        v.access_token@ == match access_token {
            Some(t) => t@,
            None => creds.access_token@,
        },
        v.user_id@ == creds.user_id@,
        v.device_id@ == creds.device_id@,
        v.room_id@ == percent_encoded(vstd::utf8::encode_utf8(creds.room_id@)),
{
    let host = host_of(creds.homeserver.as_str());
    let name = text_or_empty(&host);
    rest_values_on(creds, name, access_token)
}

/// What the placeholders stand for, given the credentials and the name of the host.
pub fn rest_values_on(creds: &Credentials, hostname: &str, access_token: Option<&str>) -> (v:
    RestValues)
    ensures
        v.homeserver@ == without_slash(creds.homeserver@),
        v.hostname@ == hostname@,
        v.access_token@ == match access_token {
            Some(t) => t@,
            None => creds.access_token@,
        },
        v.user_id@ == creds.user_id@,
        v.device_id@ == creds.device_id@,
        v.room_id@ == percent_encoded(vstd::utf8::encode_utf8(creds.room_id@)),
{
    RestValues {
        homeserver: trim_slash(creds.homeserver.as_str()),
        hostname: hostname.to_string(),
        access_token: match access_token {
            Some(t) => t.to_string(),
            None => creds.access_token.clone(),
        },
        user_id: creds.user_id.clone(),
        device_id: creds.device_id.clone(),
        room_id: url_encode(creds.room_id.as_str()),
    }
}

/// A request.
#[derive(Debug)]
pub struct RestCall {
    pub method: RestMethod,
    pub data: String,
    pub url: String,
}

/// A request as a mathematical value.
pub struct RestOrder {
    pub method: RestMethod,
    pub data: Seq<char>,
    pub url: Seq<char>,
}

impl View for RestCall {
    type V = RestOrder;

    open spec fn view(&self) -> RestOrder {
        RestOrder { method: self.method, data: self.data@, url: self.url@ }
    }
}

/// The request that a method, data and an address ask for. There is none where the method is not
/// known, the address is empty, or data are given that cannot go with the request.
pub open spec fn rest_order(
    method: Option<RestMethod>,
    data: Seq<char>,
    url: Seq<char>,
    v: RestValues,
) -> Option<RestOrder> {
    match method {
        Some(m) => if trimmed(url).len() == 0 || (filled(data, v).len() > 0 && !m.takes_data()) {
            None
        } else {
            Some(RestOrder { method: m, data: filled(data, v), url: trimmed(filled(url, v)) })
        },
        None => None,
    }
}

/// A request as a mathematical value, where there is one.
pub open spec fn call_view(c: Option<RestCall>) -> Option<RestOrder> {
    match c {
        Some(call) => Some(call@),
        None => None,
    }
}

/// The request that a method, data and an address ask for.
pub fn build_call(method: Option<RestMethod>, data: &str, url: &str, v: &RestValues) -> (r: Option<
    RestCall,
>)
    ensures
        call_view(r) == rest_order(method, data@, url@, *v),
{
    match method {
        Some(m) => {
            if is_blank(url) {
                return None;
            }
            let data = fill(data, v);
            let url = fill(url, v);
            let takes_data = m == RestMethod::Post || m == RestMethod::Put;
            if !data.as_str().is_empty() && !takes_data {
                return None;
            }
            Some(RestCall { method: m, data, url: trim(url.as_str()) })
        },
        None => None,
    }
}

/// The method that a text names, whatever its case and the white space around it.
pub open spec fn method_in(text: Seq<char>) -> Option<RestMethod> {
    method_of(trimmed(upper_text(text)))
}

/// The requests that the arguments of --rest ask for: a method, data and an address each. There
/// is none where these do not fit.
pub fn rest(args: &Vec<String>, v: &RestValues) -> (r: Result<Vec<Option<RestCall>>, Error>)
    ensures
        args@.len() % 3 != 0 ==> (r matches Err(e) && e == Error::RestFailed),
        args@.len() % 3 == 0 ==> (r matches Ok(list) && list@.len() == args@.len() / 3 && (forall|
            i: int,
        |
            0 <= i < list@.len() ==> call_view(#[trigger] list@[i]) == rest_order(
                method_in(args@[3 * i]@),
                args@[3 * i + 1]@,
                args@[3 * i + 2]@,
                *v,
            ) && (all_ascii(args@[3 * i]@) ==> method_in(args@[3 * i]@) == method_of(
                trimmed(ascii_upper(args@[3 * i]@)),
            )))),
{
    if args.len() % 3 != 0 {
        return Err(Error::RestFailed);
    }
    let count: usize = args.len() / 3;
    let mut list: Vec<Option<RestCall>> = Vec::new();
    let mut i: usize = 0;
    while i < count
        invariant
            i <= count,
            count == args@.len() / 3,
            args@.len() % 3 == 0,
            list.len() == i,
            forall|j: int|
                0 <= j < i ==> call_view(#[trigger] list@[j]) == rest_order(
                    method_in(args@[3 * j]@),
                    args@[3 * j + 1]@,
                    args@[3 * j + 2]@,
                    *v,
                ) && (all_ascii(args@[3 * j]@) ==> method_in(args@[3 * j]@) == method_of(
                    trimmed(ascii_upper(args@[3 * j]@)),
                )),
        decreases count - i,
    {
        assert(3 * i + 2 < args.len());
        let upper = to_upper(args[3 * i].as_str());
        let word = trim(upper.as_str());
        let method = read_method(word.as_str());
        list.push(build_call(method, args[3 * i + 1].as_str(), args[3 * i + 2].as_str(), v));
        i += 1;
    }
    Ok(list)
}

/// The document for an answer that is no JSON.
pub open spec fn wrapped_answer(body: Seq<char>) -> JsonDoc {
    JsonDoc::Object(seq![("response"@, JsonDoc::Text(body))])
}

/// What is printed of the answer to a request that succeeded. An answer that is no JSON is put
/// into a document.
pub open spec fn answer_printed(body: Seq<char>, read: Option<JsonDoc>, output: Output) -> Seq<char> {
    match output {
        Output::Text => body + "\n"@,
        _ => match read {
            Some(doc) => compact_text(doc) + "\n"@,
            None => compact_text(wrapped_answer(body)) + "\n"@,
        },
    }
}

/// What is printed of the answer to a request, and whether it succeeded. Only the status 200 is a
/// success.
pub fn rest_answer(status: u16, body: &str, output: Output) -> (r: (String, bool))
    ensures
        r.1 == (status == 200),
        r.0@ == if status == 200 {
            answer_printed(body@, parsed_json(body@), output)
        } else {
            Seq::empty()
        },
{
    if status != 200 {
        return (String::new(), false);
    }
    match output {
        Output::Text => {
            let mut out = body.to_string();
            out.append("\n");
            (out, true)
        },
        _ => match read_json(body) {
            Some(doc) => (print_line(&doc), true),
            None => {
                let mut f = Fields::new();
                f.put_text("response", body);
                let doc = f.object();
                (print_line(&doc), true)
            },
        },
    }
}

/// The word in capitals names its method, no other word names one, and only with the two methods
/// that store something data can go.
pub proof fn law_method_is_named(word: Seq<char>, m: RestMethod)
    ensures
        method_of(word) == Some(RestMethod::Get) <==> word == "GET"@,
        method_of(word) == Some(RestMethod::Post) <==> word == "POST"@,
        method_of(word) == Some(RestMethod::Put) <==> word == "PUT"@,
        method_of(word) == Some(RestMethod::Delete) <==> word == "DELETE"@,
        method_of(word) == Some(RestMethod::Options) <==> word == "OPTIONS"@,
        m.takes_data() <==> m == RestMethod::Post || m == RestMethod::Put,
        method_in(word) == method_of(trimmed(upper_text(word))),
{
    reveal_strlit("GET");
    reveal_strlit("POST");
    reveal_strlit("PUT");
    reveal_strlit("DELETE");
    reveal_strlit("OPTIONS");
    assert("GET"@[0] == 'G');
    assert("PUT"@[0] == 'P');
    assert("GET"@.len() == 3);
    assert("PUT"@.len() == 3);
    assert("POST"@.len() == 4);
    assert("DELETE"@.len() == 6);
    assert("OPTIONS"@.len() == 7);
}

/// A text without underscores is not changed by filling in placeholders.
pub proof fn law_no_placeholder_no_change(t: Seq<char>, v: RestValues)
    requires
        !t.contains('_'),
    ensures
        filled(t, v) == t,
{
    reveal_strlit("__homeserver__");
    reveal_strlit("__hostname__");
    reveal_strlit("__access_token__");
    reveal_strlit("__user_id__");
    reveal_strlit("__device_id__");
    reveal_strlit("__room_id__");
    lemma_not_filled(t, "__homeserver__"@, v.homeserver@);
    lemma_not_filled(t, "__hostname__"@, v.hostname@);
    lemma_not_filled(t, "__access_token__"@, v.access_token@);
    lemma_not_filled(t, "__user_id__"@, v.user_id@);
    lemma_not_filled(t, "__device_id__"@, v.device_id@);
    lemma_not_filled(t, "__room_id__"@, v.room_id@);
}

/// What begins with a character that a text does not hold is not filled in.
proof fn lemma_not_filled(t: Seq<char>, name: Seq<char>, value: Seq<char>)
    requires
        name.len() > 0,
        !t.contains(name[0]),
    ensures
        replaced(t, name, value) == t,
{
    if occurs(t, name) {
        lemma_occurs_contains(t, name, 0);
    }
    law_absent_text_is_not_replaced(t, name, value);
}

/// Each placeholder stands for its own value, wherever in a text it stands, as long as neither the
/// values nor the rest of the text hold underscores.
#[verifier::rlimit(60)]
pub proof fn law_each_placeholder_has_its_value(a: Seq<char>, b: Seq<char>, v: RestValues)
    requires
        !a.contains('_'),
        !b.contains('_'),
    ensures
        !v.homeserver@.contains('_') ==> filled(a + "__homeserver__"@ + b, v) == a + v.homeserver@ + b,
        !v.hostname@.contains('_') ==> filled(a + "__hostname__"@ + b, v) == a + v.hostname@ + b,
        !v.access_token@.contains('_') ==> filled(a + "__access_token__"@ + b, v) == a
            + v.access_token@ + b,
        !v.user_id@.contains('_') ==> filled(a + "__user_id__"@ + b, v) == a + v.user_id@ + b,
        !v.device_id@.contains('_') ==> filled(a + "__device_id__"@ + b, v) == a + v.device_id@ + b,
        filled(a + "__room_id__"@ + b, v) == a + v.room_id@ + b,
{
    reveal_strlit("__homeserver__");
    reveal_strlit("__hostname__");
    reveal_strlit("__access_token__");
    reveal_strlit("__user_id__");
    reveal_strlit("__device_id__");
    reveal_strlit("__room_id__");
    let n1 = "__homeserver__"@;
    let n2 = "__hostname__"@;
    let n3 = "__access_token__"@;
    let n4 = "__user_id__"@;
    let n5 = "__device_id__"@;
    let n6 = "__room_id__"@;
    assert(n1[2] == 'h' && n1[4] == 'm' && n2[2] == 'h' && n2[4] == 's' && n3[2] == 'a' && n4[2]
        == 'u' && n5[2] == 'd' && n6[2] == 'r');
    lemma_one_filled(a, n1, b, v.homeserver@);
    lemma_one_filled(a, n2, b, v.hostname@);
    lemma_one_filled(a, n3, b, v.access_token@);
    lemma_one_filled(a, n4, b, v.user_id@);
    lemma_one_filled(a, n5, b, v.device_id@);
    lemma_one_filled(a, n6, b, v.room_id@);
    lemma_other_kept(a, n2, b, n1, v.homeserver@);
    lemma_other_kept(a, n3, b, n1, v.homeserver@);
    lemma_other_kept(a, n4, b, n1, v.homeserver@);
    lemma_other_kept(a, n5, b, n1, v.homeserver@);
    lemma_other_kept(a, n6, b, n1, v.homeserver@);
    lemma_other_kept(a, n3, b, n2, v.hostname@);
    lemma_other_kept(a, n4, b, n2, v.hostname@);
    lemma_other_kept(a, n5, b, n2, v.hostname@);
    lemma_other_kept(a, n6, b, n2, v.hostname@);
    lemma_other_kept(a, n4, b, n3, v.access_token@);
    lemma_other_kept(a, n5, b, n3, v.access_token@);
    lemma_other_kept(a, n6, b, n3, v.access_token@);
    lemma_other_kept(a, n5, b, n4, v.user_id@);
    lemma_other_kept(a, n6, b, n4, v.user_id@);
    lemma_other_kept(a, n6, b, n5, v.device_id@);
    if !v.homeserver@.contains('_') {
        lemma_rest_not_filled(a, v.homeserver@, b, v);
    }
    if !v.hostname@.contains('_') {
        lemma_rest_not_filled(a, v.hostname@, b, v);
    }
    if !v.access_token@.contains('_') {
        lemma_rest_not_filled(a, v.access_token@, b, v);
    }
    if !v.user_id@.contains('_') {
        lemma_rest_not_filled(a, v.user_id@, b, v);
    }
    if !v.device_id@.contains('_') {
        lemma_rest_not_filled(a, v.device_id@, b, v);
    }
}

/// A text without underscores has no further placeholders.
proof fn lemma_rest_not_filled(a: Seq<char>, value: Seq<char>, b: Seq<char>, v: RestValues)
    requires
        !a.contains('_'),
        !b.contains('_'),
        !value.contains('_'),
    ensures
        replaced(a + value + b, "__hostname__"@, v.hostname@) == a + value + b,
        replaced(a + value + b, "__access_token__"@, v.access_token@) == a + value + b,
        replaced(a + value + b, "__user_id__"@, v.user_id@) == a + value + b,
        replaced(a + value + b, "__device_id__"@, v.device_id@) == a + value + b,
        replaced(a + value + b, "__room_id__"@, v.room_id@) == a + value + b,
{
    reveal_strlit("__hostname__");
    reveal_strlit("__access_token__");
    reveal_strlit("__user_id__");
    reveal_strlit("__device_id__");
    reveal_strlit("__room_id__");
    let s = a + value + b;
    if s.contains('_') {
        let i = choose|i: int| 0 <= i < s.len() && s[i] == '_';
        if i < a.len() {
            assert(a[i] == '_');
        } else if i < a.len() + value.len() {
            assert(value[i - a.len()] == '_');
        } else {
            assert(b[i - a.len() - value.len()] == '_');
        }
    }
    lemma_not_filled(s, "__hostname__"@, v.hostname@);
    lemma_not_filled(s, "__access_token__"@, v.access_token@);
    lemma_not_filled(s, "__user_id__"@, v.user_id@);
    lemma_not_filled(s, "__device_id__"@, v.device_id@);
    lemma_not_filled(s, "__room_id__"@, v.room_id@);
}

/// A placeholder is filled in between texts that do not hold its first character.
proof fn lemma_one_filled(a: Seq<char>, name: Seq<char>, b: Seq<char>, value: Seq<char>)
    requires
        name.len() > 0,
        !a.contains(name[0]),
        !b.contains(name[0]),
    ensures
        replaced(a + name + b, name, value) == a + value + b,
{
    law_split_at_the_first_separator(a, name, b);
    law_split_at_the_first_separator(b, name, b);
    law_split_and_join(a + name + b, name, value);
    law_joined_in_pieces(seq![a], seq![b], a, value);
    law_joined_in_pieces(seq![b], seq![b], b, value);
}

/// Another placeholder stays.
proof fn lemma_other_kept(
    a: Seq<char>,
    name: Seq<char>,
    b: Seq<char>,
    other: Seq<char>,
    value: Seq<char>,
)
    requires
        name.len() >= 11,
        other.len() >= 11,
        other[0] == '_' && other[1] == '_' && other[2] != '_' && other[other.len() - 1] == '_',
        name[0] == '_' && name[1] == '_' && name[2] != '_' && name[3] != '_',
        name[2] != other[2] || name[4] != other[4],
        name[name.len() - 1] == '_' && name[name.len() - 2] == '_',
        !a.contains('_'),
        !b.contains('_'),
        forall|j: int|
            2 <= j < name.len() - 1 && #[trigger] name[j] == '_' ==> name[j + 1] != '_' || j
                == name.len() - 2,
    ensures
        replaced(a + name + b, other, value) == a + name + b,
{
    let s = a + name + b;
    assert forall|i: int| !occurs_at(s, other, i) by {
        if occurs_at(s, other, i) {
            let w = s.subrange(i, i + other.len());
            assert(w[0] == s[i] && w[1] == s[i + 1] && w[2] == s[i + 2] && w[4] == s[i + 4]);
            if i < a.len() {
                assert(a[i] == '_');
            } else if i >= a.len() + name.len() {
                assert(b[i - a.len() - name.len()] == '_');
            } else {
                let j = i - a.len();
                assert(name[j] == '_');
                if j == 0 {
                    assert(s[i + 2] == name[2]);
                    assert(s[i + 4] == name[4]);
                } else if j == 1 {
                    assert(s[i + 1] == name[2]);
                } else if j == name.len() - 1 {
                    assert(s[i + 1] == b[0]);
                    assert(b.contains('_'));
                } else {
                    assert(s[i + 1] == name[j + 1]);
                    assert(j == name.len() - 2);
                    let k = i + other.len() - 1;
                    assert(s[k] == w[other.len() - 1]);
                    assert(s[k] == b[k - a.len() - name.len()]);
                    assert(b.contains('_'));
                }
            }
        }
    }
    law_absent_text_is_not_replaced(s, other, value);
}

/// A request is made exactly where the method is known, there is an address, and data are given
/// only with a method that takes them; it has that method, the data and, without white space around
/// it, the address, both with their placeholders filled in.
pub proof fn law_request_as_asked(
    method: Option<RestMethod>,
    data: Seq<char>,
    url: Seq<char>,
    v: RestValues,
)
    ensures
        method is None ==> rest_order(method, data, url, v) is None,
        trimmed(url).len() == 0 ==> rest_order(method, data, url, v) is None,
        method matches Some(m) ==> {
            &&& filled(data, v).len() > 0 && m != RestMethod::Post && m != RestMethod::Put
                ==> rest_order(method, data, url, v) is None
            &&& trimmed(url).len() > 0 && (filled(data, v).len() == 0 || m == RestMethod::Post || m
                == RestMethod::Put) ==> rest_order(method, data, url, v) is Some
            &&& rest_order(method, data, url, v) matches Some(order) ==> order.method == m
                && order.data == filled(data, v) && order.url == trimmed(filled(url, v))
        },
{
}

/// An answer is printed as it is in plain text; otherwise as JSON, into which it is put as a text
/// where it is none.
pub proof fn law_answer_is_printed(
    body: Seq<char>,
    doc: JsonDoc,
    read: Option<JsonDoc>,
    output: Output,
)
    ensures
        answer_printed(body, read, Output::Text) == body + "\n"@,
        output != Output::Text ==> answer_printed(body, Some(doc), output) == compact_text(doc)
            + "\n"@,
        output != Output::Text ==> exists|wrapped: JsonDoc|
            {
                &&& answer_printed(body, None, output) == #[trigger] compact_text(wrapped) + "\n"@
                &&& has_fields(wrapped, 1)
                &&& has_field(wrapped, "response"@, JsonDoc::Text(body))
            },
{
    let items = seq![("response"@, JsonDoc::Text(body))];
    lemma_has_field(items, 0);
    if output != Output::Text {
        assert(answer_printed(body, None, output) == compact_text(JsonDoc::Object(items)) + "\n"@);
    }
}

} // verus!
