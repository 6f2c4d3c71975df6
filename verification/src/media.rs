//! Files and media: uploads, downloads, addresses and the keys of encrypted media.

use vstd::prelude::*;

use crate::account::parts_view;
use crate::ids::{first_from, is_mxc_short, mxc_ok, mxc_parts, mxc_parts_of, mxc_short};
use crate::json::{
    as_text, docs, has_field, has_fields, lemma_has_field, member, parsed_json, print_json, printed,
    read_json, text_member, Fields, Json, JsonDoc,
};
use crate::text::{
    chars_of, is_blank, joined, law_absent_text_is_not_replaced, law_split_and_join,
    lemma_joined_four, lemma_joined_two, lemma_occurs_contains, lemma_replaced_contains, matches_at,
    occurs, occurs_at, opt_text, replace_text, replaced, same_text, split_on, string_of, texts,
    trimmed,
};
use crate::types::{Error, Output};

verus! {

/// The media type that `mime_guess::from_path` finds first for the ending of a file name.
pub uninterp spec fn guessed_mime(path: Seq<char>) -> Option<Seq<char>>;

/// Whether a text is accepted as a media type by the parser of `mime`.
pub uninterp spec fn mime_ok(text: Seq<char>) -> bool;

/// The bytes that `Base64::<UrlSafe>::parse` decodes.
pub uninterp spec fn url_safe_bytes(text: Seq<char>) -> Option<Seq<u8>>;

/// The bytes that `Base64::<Standard>::parse` decodes.
pub uninterp spec fn standard_bytes(text: Seq<char>) -> Option<Seq<u8>>;

/// Calls `mime_guess::from_path` and takes the first guess. It depends on the path alone and is
/// named.
#[verifier::external_body]
pub(crate) fn guess_mime(path: &str) -> (r: Option<String>)
    ensures
        opt_text(r) == guessed_mime(path@),
{
    mime_guess::from_path(path).first().map(|m| m.to_string())
}

/// Calls the parser of `mime::Mime`. Whether it accepts the text depends on the text alone and is
/// named.
#[verifier::external_body]
pub(crate) fn is_mime(text: &str) -> (r: bool)
    ensures
        r == mime_ok(text@),
{
    text.parse::<mime::Mime>().is_ok()
}

/// The contents of optional bytes.
pub open spec fn opt_bytes(b: Option<Vec<u8>>) -> Option<Seq<u8>> {
    match b {
        Some(v) => Some(v@),
        None => None,
    }
}

/// Calls `Base64::<UrlSafe>::parse`. The bytes depend on the text alone and are named.
#[verifier::external_body]
pub(crate) fn decode_url_safe(text: &str) -> (r: Option<Vec<u8>>)
    ensures
        opt_bytes(r) == url_safe_bytes(text@),
{
    matrix_sdk::ruma::serde::Base64::<matrix_sdk::ruma::serde::base64::UrlSafe>::parse(text).ok().map(
        |b| b.into_inner(),
    )
}

/// Calls `Base64::<Standard>::parse`. The bytes depend on the text alone and are named.
#[verifier::external_body]
pub(crate) fn decode_standard(text: &str) -> (r: Option<Vec<u8>>)
    ensures
        opt_bytes(r) == standard_bytes(text@),
{
    matrix_sdk::ruma::serde::Base64::<matrix_sdk::ruma::serde::base64::Standard>::parse(text).ok().map(
        |b| b.into_inner(),
    )
}

/// Where the contents of a file come from.
#[derive(Debug)]
pub enum FileSource {
    Stdin,
    Path(String),
}

/// The path of a file, none for standard input.
pub open spec fn file_path(name: Seq<char>) -> Option<Seq<char>> {
    if name == "-"@ {
        None
    } else if name == "\\-"@ {
        Some("-"@)
    } else {
        Some(name)
    }
}

/// Where the contents of a file come from. A single hyphen means standard input; with a backslash
/// in front it is the name of a file.
pub fn file_source(name: &str) -> (r: FileSource)
    ensures
        match r {
            FileSource::Stdin => file_path(name@) is None,
            FileSource::Path(p) => file_path(name@) == Some(p@),
        },
{
    if same_text(name, "-") {
        FileSource::Stdin
    } else if same_text(name, "\\-") {
        FileSource::Path("-".to_string())
    } else {
        FileSource::Path(name.to_string())
    }
}

/// The path under which a file is attached. What comes from standard input has a name of its own.
pub fn attachment_path(name: &str, stdin_name: &str) -> (out: String)
    ensures
        out@ == match file_path(name@) {
            Some(p) => p,
            None => stdin_name@,
        },
{
    match file_source(name) {
        FileSource::Stdin => stdin_name.to_string(),
        FileSource::Path(p) => p,
    }
}

/// The name for what comes from standard input: the first one given, else a default.
pub fn stdin_name(file_names: &Vec<String>, default_name: &str) -> (out: String)
    ensures
        out@ == if file_names@.len() > 0 {
            file_names@[0]@
        } else {
            default_name@
        },
{
    if file_names.len() > 0 {
        file_names[0].clone()
    } else {
        default_name.to_string()
    }
}

/// The guess, or another media type where there is none.
pub open spec fn mime_or(guess: Option<Seq<char>>, other: Seq<char>) -> Seq<char> {
    match guess {
        Some(m) => m,
        None => other,
    }
}

/// The guess, or another media type where there is none.
pub fn choose_mime(guess: Option<String>, other: &str) -> (out: String)
    ensures
        out@ == mime_or(opt_text(guess), other@),
{
    match guess {
        Some(m) => m,
        None => other.to_string(),
    }
}

/// The media type of a file that is attached to a message.
pub fn attachment_mime(path: &str) -> (out: String)
    ensures
        out@ == mime_or(guessed_mime(path@), "application/octet-stream"@),
{
    let guess = guess_mime(path);
    choose_mime(guess, "application/octet-stream")
}

/// The media type of an avatar.
pub fn avatar_mime(path: &str) -> (out: String)
    ensures
        out@ == mime_or(guessed_mime(path@), "image/png"@),
{
    let guess = guess_mime(path);
    choose_mime(guess, "image/png")
}

/// The media type of an upload: the one given, where it is valid, else a guess where none is
/// given.
pub open spec fn upload_mime_of(path: Seq<char>, given: Seq<char>) -> Option<Seq<char>> {
    if trimmed(given).len() == 0 {
        Some(mime_or(guessed_mime(path), "application/octet-stream"@))
    } else if mime_ok(given) {
        Some(given)
    } else {
        None
    }
}

/// The media type of an upload, none where the one given is not valid.
pub fn upload_mime(path: &str, given: &str) -> (r: Option<String>)
    ensures
        opt_text(r) == upload_mime_of(path@, given@),
{
    if is_blank(given) {
        Some(attachment_mime(path))
    } else if is_mime(given) {
        Some(given.to_string())
    } else {
        None
    }
}

/// An upload.
#[derive(Debug)]
pub struct Upload {
    pub source: FileSource,
    pub mime: String,
}

/// The upload of a file, none where the media type is not valid.
pub fn plan_upload(name: &str, given_mime: &str) -> (r: Option<Upload>)
    ensures
        match r {
            Some(u) => {
                &&& upload_mime_of(name@, given_mime@) == Some(u.mime@)
                &&& match u.source {
                    FileSource::Stdin => file_path(name@) is None,
                    FileSource::Path(p) => file_path(name@) == Some(p@),
                }
            },
            None => upload_mime_of(name@, given_mime@) is None,
        },
{
    match upload_mime(name, given_mime) {
        Some(mime) => Some(Upload { source: file_source(name), mime }),
        None => None,
    }
}

/// The uploads of a list of files. Each has the media type at its position, if one is given.
pub fn media_upload(names: &Vec<String>, mimes: &Vec<String>) -> (out: Vec<Option<Upload>>)
    ensures
        out@.len() == names@.len(),
        forall|i: int|
            0 <= i < names@.len() ==> match #[trigger] out@[i] {
                Some(u) => {
                    &&& upload_mime_of(
                        names@[i]@,
                        crate::room_create::entry_or_empty(texts(mimes@), i),
                    ) == Some(u.mime@)
                    &&& match u.source {
                        FileSource::Stdin => file_path(names@[i]@) is None,
                        FileSource::Path(p) => file_path(names@[i]@) == Some(p@),
                    }
                },
                None => upload_mime_of(
                    names@[i]@,
                    crate::room_create::entry_or_empty(texts(mimes@), i),
                ) is None,
            },
{
    let mut out: Vec<Option<Upload>> = Vec::new();
    let mut i: usize = 0;
    while i < names.len()
        invariant
            i <= names.len(),
            out.len() == i,
            forall|j: int|
                0 <= j < i ==> match #[trigger] out@[j] {
                    Some(u) => {
                        &&& upload_mime_of(
                            names@[j]@,
                            crate::room_create::entry_or_empty(texts(mimes@), j),
                        ) == Some(u.mime@)
                        &&& match u.source {
                            FileSource::Stdin => file_path(names@[j]@) is None,
                            FileSource::Path(p) => file_path(names@[j]@) == Some(p@),
                        }
                    },
                    None => upload_mime_of(
                        names@[j]@,
                        crate::room_create::entry_or_empty(texts(mimes@), j),
                    ) is None,
                },
        decreases names.len() - i,
    {
        let given = crate::room_create::entry(mimes, i);
        out.push(plan_upload(names[i].as_str(), given.as_str()));
        i += 1;
    }
    out
}

/// What is printed of an upload.
pub fn print_upload(content_uri: &str, output: Output, sep: &str) -> (out: String)
    ensures
        out@ == (match output {
            Output::Text => content_uri@ + sep@ + "None\n"@,
            _ => printed(
                JsonDoc::Object(
                    seq![("content_uri"@, JsonDoc::Text(content_uri@))].push(("decryption_dict"@, JsonDoc::Null)),
                ),
                output,
            ),
        }),
{
    match output {
        Output::Text => {
            let mut out = content_uri.to_string();
            out.append(sep);
            out.append("None\n");
            out
        },
        _ => {
            let mut f = Fields::new();
            f.put_text("content_uri", content_uri);
            f.put("decryption_dict", Json::Null);
            let doc = f.object();
            print_json(&doc, output)
        },
    }
}

/// The text with the first occurrences of `from`, at most `n` of them, replaced by `to`.
pub open spec fn replaced_first(s: Seq<char>, from: Seq<char>, to: Seq<char>, n: nat) -> Seq<char>
    decreases s.len(),
{
    if n == 0 || from.len() == 0 || s.len() < from.len() {
        s
    } else if occurs_at(s, from, 0) {
        to + replaced_first(s.skip(from.len() as int), from, to, (n - 1) as nat)
    } else {
        seq![s[0]] + replaced_first(s.skip(1), from, to, n)
    }
}

/// Replaces the first occurrences of `from`, at most `n` of them, by `to`.
pub fn replace_first(s: &str, from: &str, to: &str, n: usize) -> (out: String)
    ensures
        out@ == replaced_first(s@, from@, to@, n as nat),
{
    let cs = chars_of(s);
    let ps = chars_of(from);
    let mut out = String::new();
    let mut i: usize = 0;
    let mut left: usize = n;
    assert(cs@.skip(0) =~= cs@);
    while left > 0 && ps.len() > 0 && cs.len() - i >= ps.len()
        invariant
            i <= cs.len(),
            cs@ == s@,
            ps@ == from@,
            out@ + replaced_first(cs@.skip(i as int), from@, to@, left as nat) == replaced_first(
                s@,
                from@,
                to@,
                n as nat,
            ),
        decreases cs.len() - i,
    {
        let ghost before = out@;
        let ghost rest = cs@.skip(i as int);
        assert(rest.subrange(0, from@.len() as int) =~= cs@.subrange(i as int, i + from@.len()));
        if matches_at(&cs, &ps, i) {
            assert(occurs_at(rest, from@, 0));
            assert(rest.skip(from@.len() as int) =~= cs@.skip(i + from@.len()));
            out.append(to);
            i += ps.len();
            left -= 1;
            assert(out@ + replaced_first(cs@.skip(i as int), from@, to@, left as nat) =~= before + (
            to@ + replaced_first(cs@.skip(i as int), from@, to@, left as nat)));
        } else {
            assert(!occurs_at(rest, from@, 0));
            assert(rest.skip(1) =~= cs@.skip(i + 1));
            assert(rest[0] == cs@[i as int]);
            out.push(cs[i]);
            i += 1;
            assert(out@ + replaced_first(cs@.skip(i as int), from@, to@, left as nat) =~= before + (
            seq![cs@[i - 1]] + replaced_first(cs@.skip(i as int), from@, to@, left as nat)));
        }
    }
    let tail = string_of(&cs, i, cs.len());
    assert(tail@ =~= cs@.skip(i as int));
    out.append(tail.as_str());
    out
}

/// The media id of a media URI, empty where the URI is not valid.
pub open spec fn media_id_of(parts: Option<(Seq<char>, Seq<char>)>) -> Seq<char> {
    match parts {
        Some((_, media)) => media,
        None => Seq::empty(),
    }
}

/// Whether there is anything to send. A file without data is not sent, and counts as a failure.
pub fn has_data(data: &Vec<u8>) -> (r: bool)
    ensures
        r == (data@.len() > 0),
{
    data.len() > 0
}

/// Whether the name of a download depends on the URI.
pub open spec fn name_uses_uri(name: Seq<char>) -> bool {
    name.len() == 0 || occurs(name, "__mxc_id__"@)
}

/// Whether the name of a download depends on the URI.
pub fn needs_uri(name: &str) -> (r: bool)
    ensures
        r == name_uses_uri(name@),
{
    name.is_empty() || crate::text::contains_text(name, "__mxc_id__")
}

/// The name of the file for a download, given the media id.
pub open spec fn download_name_for(name: Seq<char>, media: Seq<char>) -> Seq<char> {
    if name.len() == 0 {
        "mxc-"@ + media
    } else if occurs(name, "__mxc_id__"@) {
        replaced_first(name, "__mxc_id__"@, media, 10)
    } else {
        name
    }
}

/// The name of the file for a download, given the media id.
pub fn name_download(name: &str, media: &str) -> (out: String)
    ensures
        out@ == download_name_for(name@, media@),
{
    if name.is_empty() {
        let mut out = "mxc-".to_string();
        out.append(media);
        out
    } else if crate::text::contains_text(name, "__mxc_id__") {
        replace_first(name, "__mxc_id__", media, 10)
    } else {
        name.to_string()
    }
}

/// The name of the file for a download. A name that is not given is made of the media id, and the
/// placeholder for the media id is filled in.
pub fn download_name(uri: &str, name: &str) -> (out: String)
    requires
        name_uses_uri(name@) ==> mxc_short(uri@),
    ensures
        name_uses_uri(name@) ==> out@ == download_name_for(name@, media_id_of(mxc_parts_of(uri@))),
        !name_uses_uri(name@) ==> out@ == name@,
{
    if needs_uri(name) {
        match mxc_parts(uri) {
            Some((_, media)) => name_download(name, media.as_str()),
            None => {
                let none = String::new();
                name_download(name, none.as_str())
            },
        }
    } else {
        name.to_string()
    }
}

/// The key of an encrypted medium.
#[derive(Debug)]
pub struct MediaKey {
    pub kty: String,
    pub key_ops: Vec<String>,
    pub alg: String,
    pub k: Vec<u8>,
    pub ext: bool,
    pub sha256: Vec<u8>,
    pub iv: Vec<u8>,
    pub v: String,
}

/// A key dictionary in Python notation, turned into JSON.
pub open spec fn key_dict_json(text: Seq<char>) -> Seq<char> {
    replaced(replaced(replaced(text, "'"@, "\""@), "True"@, "true"@), "False"@, "false"@)
}

/// Turns a key dictionary in Python notation into JSON.
pub fn normalize_key_dict(text: &str) -> (out: String)
    ensures
        out@ == key_dict_json(text@),
{
    let a = replace_text(text, "'", "\"");
    let b = replace_text(a.as_str(), "True", "true");
    replace_text(b.as_str(), "False", "false")
}

/// The field of that name, null where there is none.
pub open spec fn member_or_null(doc: JsonDoc, key: Seq<char>) -> JsonDoc {
    match member(doc, key) {
        Some(v) => v,
        None => JsonDoc::Null,
    }
}

/// The text in a field, or another one.
pub open spec fn text_or(doc: JsonDoc, key: Seq<char>, other: Seq<char>) -> Seq<char> {
    match text_member(doc, key) {
        Some(t) => t,
        None => other,
    }
}

/// The texts among the elements of an array.
pub open spec fn texts_in(items: Seq<JsonDoc>) -> Seq<Seq<char>>
    decreases items.len(),
{
    if items.len() == 0 {
        Seq::empty()
    } else {
        match as_text(items.last()) {
            Some(t) => texts_in(items.drop_last()).push(t),
            None => texts_in(items.drop_last()),
        }
    }
}

/// What the key may be used for; encryption and decryption where nothing is said.
pub open spec fn key_ops_in(key: JsonDoc) -> Seq<Seq<char>> {
    match member(key, "key_ops"@) {
        Some(JsonDoc::Array(items)) => texts_in(items),
        _ => seq!["encrypt"@].push("decrypt"@),
    }
}

/// Whether the key may leave the device; it may where nothing is said.
pub open spec fn key_ext_in(key: JsonDoc) -> bool {
    match member(key, "ext"@) {
        Some(JsonDoc::Bool(b)) => b,
        _ => true,
    }
}

/// The encoded secrets of a key dictionary: the key, the hash and the initialization vector.
pub open spec fn secrets_in(dict: JsonDoc) -> Option<(Seq<char>, Seq<char>, Seq<char>)> {
    match (
        text_member(member_or_null(dict, "key"@), "k"@),
        text_member(member_or_null(dict, "hashes"@), "sha256"@),
        text_member(dict, "iv"@),
    ) {
        (Some(k), Some(h), Some(iv)) => Some((k, h, iv)),
        _ => None,
    }
}

/// Whether a key is the one that a key dictionary describes, given its decoded secrets.
pub open spec fn key_matches(
    key: MediaKey,
    dict: JsonDoc,
    k: Seq<u8>,
    sha256: Seq<u8>,
    iv: Seq<u8>,
) -> bool {
    let obj = member_or_null(dict, "key"@);
    &&& key.kty@ == text_or(obj, "kty"@, "oct"@)
    &&& texts(key.key_ops@) == key_ops_in(obj)
    &&& key.alg@ == text_or(obj, "alg"@, "A256CTR"@)
    &&& key.k@ == k
    &&& key.ext == key_ext_in(obj)
    &&& key.sha256@ == sha256
    &&& key.iv@ == iv
    &&& key.v@ == text_or(dict, "v"@, "v2"@)
}

/// The decoded secrets of a key dictionary.
pub open spec fn decoded_secrets(dict: JsonDoc) -> Option<(Seq<u8>, Seq<u8>, Seq<u8>)> {
    match secrets_in(dict) {
        Some((k, h, iv)) => match (url_safe_bytes(k), standard_bytes(h), standard_bytes(iv)) {
            (Some(a), Some(b), Some(c)) => Some((a, b, c)),
            _ => None,
        },
        None => None,
    }
}

/// Whether a key can be read from a key dictionary on the command line.
pub open spec fn key_readable(text: Seq<char>) -> bool {
    match parsed_json(key_dict_json(text)) {
        Some(dict) => decoded_secrets(dict) is Some,
        None => false,
    }
}

/// Whether a key is the one that a key dictionary on the command line describes.
pub open spec fn is_key_for(key: MediaKey, text: Seq<char>) -> bool {
    match parsed_json(key_dict_json(text)) {
        Some(dict) => match decoded_secrets(dict) {
            Some((k, h, iv)) => key_matches(key, dict, k, h, iv),
            None => false,
        },
        None => false,
    }
}

/// The key operations of a key.
fn read_key_ops(key: Option<&Json>) -> (out: Vec<String>)
    ensures
        texts(out@) == key_ops_in(match key {
            Some(k) => k@,
            None => JsonDoc::Null,
        }),
{
    if let Some(k) = key {
        if let Some(Json::Array(items)) = k.get("key_ops") {
            let mut out: Vec<String> = Vec::new();
            let mut i: usize = 0;
            let ghost all = docs(items@);
            assert((Json::Array(*items))@->Array_0 =~= all);
            assert(texts(out@) =~= Seq::empty());
            assert(all.take(0) =~= Seq::empty());
            while i < items.len()
                invariant
                    i <= items.len(),
                    all == docs(items@),
                    texts(out@) == texts_in(all.take(i as int)),
                decreases items.len() - i,
            {
                let ghost before = texts(out@);
                assert(all.take(i + 1).drop_last() =~= all.take(i as int));
                assert(all[i as int] == items@[i as int]@);
                if let Some(t) = items[i].text() {
                    out.push(t.to_string());
                    assert(texts(out@) =~= before.push(t@));
                }
                i += 1;
            }
            assert(all.take(all.len() as int) =~= all);
            return out;
        }
    }
    let mut out: Vec<String> = Vec::new();
    out.push("encrypt".to_string());
    out.push("decrypt".to_string());
    assert(texts(out@) =~= seq!["encrypt"@].push("decrypt"@));
    out
}

/// The text in a field, or another one.
fn text_in(doc: Option<&Json>, key: &str, other: &str) -> (out: String)
    ensures
        out@ == text_or(
            match doc {
                Some(d) => d@,
                None => JsonDoc::Null,
            },
            key@,
            other@,
        ),
{
    if let Some(d) = doc {
        if let Some(t) = d.get_text(key) {
            return t.to_string();
        }
    }
    other.to_string()
}

/// The encoded secrets of a key dictionary.
pub fn read_secrets(dict: &Json) -> (r: Option<(String, String, String)>)
    ensures
        match r {
            Some((k, h, iv)) => secrets_in(dict@) == Some((k@, h@, iv@)),
            None => secrets_in(dict@) is None,
        },
{
    let k = match dict.get("key") {
        Some(key) => key.get_text("k"),
        None => None,
    };
    let h = match dict.get("hashes") {
        Some(hashes) => hashes.get_text("sha256"),
        None => None,
    };
    match (k, h, dict.get_text("iv")) {
        (Some(k), Some(h), Some(iv)) => Some((k.to_string(), h.to_string(), iv.to_string())),
        _ => None,
    }
}

/// Builds the key that a key dictionary describes, given its decoded secrets.
pub fn build_key(dict: &Json, k: Vec<u8>, sha256: Vec<u8>, iv: Vec<u8>) -> (key: MediaKey)
    ensures
        key_matches(key, dict@, k@, sha256@, iv@),
{
    let obj = dict.get("key");
    let ext = match obj {
        Some(o) => match o.get("ext") {
            Some(Json::Bool(b)) => *b,
            _ => true,
        },
        None => true,
    };
    MediaKey {
        kty: text_in(obj, "kty", "oct"),
        key_ops: read_key_ops(obj),
        alg: text_in(obj, "alg", "A256CTR"),
        k,
        ext,
        sha256,
        iv,
        v: text_in(Some(dict), "v", "v2"),
    }
}

/// Reads the key of an encrypted medium from a key dictionary on the command line. It must be
/// JSON, or the same in Python notation, and hold the key, the hash and the initialization vector.
pub fn parse_key_dict(text: &str) -> (r: Result<MediaKey, Error>)
    ensures
        match r {
            Ok(key) => is_key_for(key, text@),
            Err(e) => e == Error::MediaDownloadFailed && !key_readable(text@),
        },
{
    let json = normalize_key_dict(text);
    let dict = match read_json(json.as_str()) {
        Some(d) => d,
        None => {
            return Err(Error::MediaDownloadFailed);
        },
    };
    match read_secrets(&dict) {
        Some((k, h, iv)) => {
            let k = decode_url_safe(k.as_str());
            let h = decode_standard(h.as_str());
            let iv = decode_standard(iv.as_str());
            match (k, h, iv) {
                (Some(k), Some(h), Some(iv)) => Ok(build_key(&dict, k, h, iv)),
                _ => Err(Error::MediaDownloadFailed),
            }
        },
        None => Err(Error::MediaDownloadFailed),
    }
}

/// A download.
#[derive(Debug)]
pub struct Download {
    /// The name of the file, where a single hyphen means standard output.
    pub name: String,
    /// The key, where the medium is encrypted.
    pub key: Option<MediaKey>,
}

/// The download of a medium, given the name of the file and the key dictionary that belong to it.
/// It fails where the key dictionary is not valid; without one the medium is not encrypted.
pub fn plan_download(uri: &str, name: &str, key_dict: &str) -> (r: Result<Download, Error>)
    requires
        name_uses_uri(name@) ==> mxc_short(uri@),
    ensures
        download_matches(r, uri@, name@, key_dict@),
{
    let file = download_name(uri, name);
    if key_dict.is_empty() {
        return Ok(Download { name: file, key: None });
    }
    match parse_key_dict(key_dict) {
        Ok(key) => Ok(Download { name: file, key: Some(key) }),
        Err(e) => Err(e),
    }
}

/// Whether a download is the one that a URI, a file name and a key dictionary ask for.
pub open spec fn download_matches(
    r: Result<Download, Error>,
    uri: Seq<char>,
    name: Seq<char>,
    key_dict: Seq<char>,
) -> bool {
    match r {
        Ok(d) => {
            &&& d.name@ == (if name_uses_uri(name) {
                download_name_for(name, media_id_of(mxc_parts_of(uri)))
            } else {
                name
            })
            &&& key_dict.len() == 0 ==> d.key is None
            &&& key_dict.len() > 0 ==> (d.key matches Some(key) && is_key_for(key, key_dict))
        },
        Err(e) => e == Error::MediaDownloadFailed && key_dict.len() > 0 && !key_readable(key_dict),
    }
}

/// Whether the names of all downloads can be made: where a name depends on the URI, its server
/// name is not too long.
pub open spec fn names_fit(uris: Seq<Seq<char>>, names: Seq<Seq<char>>) -> bool {
    forall|i: int|
        0 <= i < uris.len() && name_uses_uri(crate::room_create::entry_or_empty(names, i))
            ==> mxc_short(#[trigger] uris[i])
}

/// Whether the names of all downloads can be made.
pub fn can_name_downloads(uris: &Vec<String>, names: &Vec<String>) -> (r: bool)
    ensures
        r == names_fit(texts(uris@), texts(names@)),
{
    let ghost all = texts(uris@);
    let mut i: usize = 0;
    while i < uris.len()
        invariant
            i <= uris.len(),
            all == texts(uris@),
            forall|j: int|
                0 <= j < i && name_uses_uri(
                    crate::room_create::entry_or_empty(texts(names@), j),
                ) ==> mxc_short(#[trigger] all[j]),
        decreases uris.len() - i,
    {
        let name = crate::room_create::entry(names, i);
        assert(all[i as int] == uris@[i as int]@);
        if needs_uri(name.as_str()) && !is_mxc_short(uris[i].as_str()) {
            return false;
        }
        i += 1;
    }
    true
}

/// The downloads of a list of media. Each has the file name and the key dictionary at its
/// position, if these are given.
pub fn media_download(uris: &Vec<String>, names: &Vec<String>, key_dicts: &Vec<String>) -> (out:
    Vec<Result<Download, Error>>)
    requires
        names_fit(texts(uris@), texts(names@)),
    ensures
        out@.len() == uris@.len(),
        forall|i: int|
            0 <= i < uris@.len() ==> download_matches(
                #[trigger] out@[i],
                uris@[i]@,
                crate::room_create::entry_or_empty(texts(names@), i),
                crate::room_create::entry_or_empty(texts(key_dicts@), i),
            ),
{
    let mut out: Vec<Result<Download, Error>> = Vec::new();
    let mut i: usize = 0;
    while i < uris.len()
        invariant
            i <= uris.len(),
            out.len() == i,
            names_fit(texts(uris@), texts(names@)),
            forall|j: int|
                0 <= j < i ==> download_matches(
                    #[trigger] out@[j],
                    uris@[j]@,
                    crate::room_create::entry_or_empty(texts(names@), j),
                    crate::room_create::entry_or_empty(texts(key_dicts@), j),
                ),
        decreases uris.len() - i,
    {
        let name = crate::room_create::entry(names, i);
        let key_dict = crate::room_create::entry(key_dicts, i);
        assert(texts(uris@)[i as int] == uris@[i as int]@);
        out.push(plan_download(uris[i].as_str(), name.as_str(), key_dict.as_str()));
        i += 1;
    }
    out
}

/// Whether a media URI is valid.
pub fn is_mxc(uri: &str) -> (r: bool)
    requires
        mxc_short(uri@),
    ensures
        r == mxc_ok(uri@),
{
    mxc_parts(uri).is_some()
}

/// Whether the protocol can be told from the address of a homeserver: there is a slash, and an
/// ASCII character before it.
pub open spec fn has_protocol(homeserver: Seq<char>) -> bool {
    let k = first_from(homeserver, '/', 0);
    0 < k < homeserver.len() && (homeserver[k - 1] as u32) < 128
}

/// Whether the protocol can be told from the address of a homeserver.
pub fn tells_protocol(homeserver: &str) -> (r: bool)
    ensures
        r == has_protocol(homeserver@),
{
    let cs = chars_of(homeserver);
    let mut k: usize = 0;
    while k < cs.len() && cs[k] != '/'
        invariant
            k <= cs.len(),
            first_from(cs@, '/', 0) == first_from(cs@, '/', k as int),
        decreases cs.len() - k,
    {
        k += 1;
    }
    0 < k && k < cs.len() && (cs[k - 1] as u32) < 128
}

/// The protocol of the address of a homeserver: what comes before the colon and the slashes.
pub open spec fn protocol_of(homeserver: Seq<char>) -> Seq<char> {
    homeserver.take(first_from(homeserver, '/', 0) - 1)
}

/// The protocol of the address of a homeserver.
pub fn protocol(homeserver: &str) -> (out: String)
    requires
        has_protocol(homeserver@),
    ensures
        out@ == protocol_of(homeserver@),
{
    let cs = chars_of(homeserver);
    let mut k: usize = 0;
    while k < cs.len() && cs[k] != '/'
        invariant
            k <= cs.len(),
            first_from(cs@, '/', 0) == first_from(cs@, '/', k as int),
        decreases cs.len() - k,
    {
        k += 1;
    }
    let out = string_of(&cs, 0, k - 1);
    assert(out@ =~= protocol_of(homeserver@));
    out
}

/// The address of a medium, given the protocol and the parts of its URI.
pub open spec fn http_address(protocol: Seq<char>, server: Seq<char>, media: Seq<char>) -> Seq<
    char,
> {
    protocol + "://"@ + server + "/_matrix/media/r0/download/"@ + server + "/"@ + media
}

/// What is printed of one media URI, given its parts.
pub open spec fn mxc_printed(
    uri: Seq<char>,
    parts: Option<(Seq<char>, Seq<char>)>,
    protocol: Seq<char>,
    output: Output,
    sep: Seq<char>,
) -> Seq<char> {
    match parts {
        Some((server, media)) => {
            let http = http_address(protocol, server, media);
            match output {
                Output::Text => uri + sep + http + "\n"@,
                _ => printed(
                    JsonDoc::Object(
                        seq![("mxc"@, JsonDoc::Text(uri))].push(("http"@, JsonDoc::Text(http))),
                    ),
                    output,
                ),
            }
        },
        None => Seq::empty(),
    }
}

/// What is printed of one media URI, given its parts. Nothing where it is not valid.
pub fn print_mxc(
    uri: &str,
    parts: &Option<(String, String)>,
    protocol: &str,
    output: Output,
    sep: &str,
) -> (out: String)
    ensures
        out@ == mxc_printed(uri@, parts_view(*parts), protocol@, output, sep@),
{
    match parts {
        Some((server, media)) => {
            let mut http = protocol.to_string();
            http.append("://");
            http.append(server.as_str());
            http.append("/_matrix/media/r0/download/");
            http.append(server.as_str());
            http.append("/");
            http.append(media.as_str());
            match output {
                Output::Text => {
                    let mut out = uri.to_string();
                    out.append(sep);
                    out.append(http.as_str());
                    out.append("\n");
                    out
                },
                _ => {
                    let mut f = Fields::new();
                    f.put_text("mxc", uri);
                    f.put_text("http", http.as_str());
                    let doc = f.object();
                    print_json(&doc, output)
                },
            }
        },
        None => String::new(),
    }
}

/// What is printed of the first `n` media URIs.
pub open spec fn mxcs_printed(
    uris: Seq<Seq<char>>,
    protocol: Seq<char>,
    output: Output,
    sep: Seq<char>,
    n: nat,
) -> Seq<char>
    decreases n,
{
    if n == 0 {
        Seq::empty()
    } else {
        mxcs_printed(uris, protocol, output, sep, (n - 1) as nat) + mxc_printed(
            uris[n - 1],
            mxc_parts_of(uris[n - 1]),
            protocol,
            output,
            sep,
        )
    }
}

/// Converts media URIs to addresses for a web browser. `mxc://matrix.server.org/SomeStrangeUriKey`
/// becomes
/// `https://matrix.server.org/_matrix/media/r0/download/matrix.server.org/SomeStrangeUriKey`.
/// It fails where a URI is not valid; the others are printed all the same.
pub fn media_mxc_to_http(uris: &Vec<String>, homeserver: &str, output: Output, sep: &str) -> (r: (
    String,
    Result<(), Error>,
))
    requires
        has_protocol(homeserver@),
        forall|i: int| 0 <= i < uris@.len() ==> mxc_short((#[trigger] uris@[i])@),
    ensures
        r.0@ == mxcs_printed(texts(uris@), protocol_of(homeserver@), output, sep@, uris@.len()),
        (forall|i: int| 0 <= i < uris@.len() ==> mxc_ok((#[trigger] uris@[i])@)) ==> r.1 is Ok,
        !(forall|i: int| 0 <= i < uris@.len() ==> mxc_ok((#[trigger] uris@[i])@)) ==> (
        r.1 matches Err(e) && e == Error::MediaMxcToHttpFailed),
{
    let p = protocol(homeserver);
    let mut out = String::new();
    let mut failed = false;
    let mut i: usize = 0;
    while i < uris.len()
        invariant
            i <= uris.len(),
            forall|j: int| 0 <= j < uris@.len() ==> mxc_short((#[trigger] uris@[j])@),
            p@ == protocol_of(homeserver@),
            out@ == mxcs_printed(texts(uris@), p@, output, sep@, i as nat),
            failed == !(forall|j: int| 0 <= j < i ==> mxc_ok((#[trigger] uris@[j])@)),
        decreases uris.len() - i,
    {
        let parts = mxc_parts(uris[i].as_str());
        if parts.is_none() {
            failed = true;
        }
        let line = print_mxc(uris[i].as_str(), &parts, p.as_str(), output, sep);
        out.append(line.as_str());
        assert(texts(uris@)[i as int] == uris@[i as int]@);
        i += 1;
    }
    if failed {
        (out, Err(Error::MediaMxcToHttpFailed))
    } else {
        (out, Ok(()))
    }
}

/// A single hyphen means standard input, with a backslash before it the file of that name, and any
/// other name is the path.
pub proof fn law_file_names_as_given(name: Seq<char>)
    ensures
        file_path(name) is None <==> name == "-"@,
        name != "-"@ && name != "\\-"@ ==> file_path(name) == Some(name),
        file_path("\\-"@) == Some("-"@),
{
    reveal_strlit("-");
    reveal_strlit("\\-");
    assert("-"@.len() == 1);
    assert("\\-"@.len() == 2);
}

/// A media type that is given is taken where it is valid and refused where it is not; without one
/// it is guessed from the name, and where nothing can be guessed the general one is taken.
pub proof fn law_given_type_before_the_guess(path: Seq<char>, given: Seq<char>, m: Seq<char>)
    ensures
        trimmed(given).len() > 0 && mime_ok(given) ==> upload_mime_of(path, given) == Some(given),
        trimmed(given).len() > 0 && !mime_ok(given) ==> upload_mime_of(path, given) is None,
        trimmed(given).len() == 0 && guessed_mime(path) == Some(m) ==> upload_mime_of(path, given)
            == Some(m),
        trimmed(given).len() == 0 && guessed_mime(path) is None ==> upload_mime_of(path, given)
            == Some("application/octet-stream"@),
        mime_or(Some(m), given) == m,
        mime_or(None, given) == given,
{
}

/// The first occurrences are replaced, from the left, as many as are asked for; the rest stays.
pub proof fn law_first_occurrences_are_replaced(
    a: Seq<char>,
    from: Seq<char>,
    to: Seq<char>,
    b: Seq<char>,
    n: nat,
)
    requires
        from.len() > 0,
        !a.contains(from[0]),
    ensures
        replaced_first(a + from + b, from, to, n + 1) == a + to + replaced_first(b, from, to, n),
        replaced_first(b, from, to, 0) == b,
        replaced_first(a, from, to, n) == a,
    decreases a.len(),
{
    let s = a + from + b;
    if a.len() == 0 {
        assert(s.subrange(0, from.len() as int) =~= from);
        assert(occurs_at(s, from, 0));
        assert(s.skip(from.len() as int) =~= b);
        assert(a + to =~= to);
    } else {
        let rest = a.skip(1);
        assert(a.contains(a[0]));
        assert(s[0] == a[0]);
        if occurs_at(s, from, 0) {
            assert(s.subrange(0, from.len() as int)[0] == a[0]);
        }
        if occurs_at(a, from, 0) {
            assert(a.subrange(0, from.len() as int)[0] == a[0]);
        }
        assert forall|c: char| rest.contains(c) implies a.contains(c) by {
            let j = choose|j: int| 0 <= j < rest.len() && rest[j] == c;
            assert(a[j + 1] == c);
        }
        law_first_occurrences_are_replaced(rest, from, to, b, n);
        assert(s.skip(1) =~= rest + from + b);
        assert(seq![a[0]] + rest =~= a);
        assert(seq![a[0]] + (rest + to + replaced_first(b, from, to, n)) =~= a + to + replaced_first(
            b,
            from,
            to,
            n,
        ));
    }
}

/// A download is named by its media id where no name is given; in a name the placeholder stands
/// for the media id, and a name without it is taken as it is.
pub proof fn law_download_names(
    name: Seq<char>,
    front: Seq<char>,
    back: Seq<char>,
    server: Seq<char>,
    media: Seq<char>,
)
    ensures
        download_name_for(Seq::empty(), media) == "mxc-"@ + media,
        name.len() > 0 && !occurs(name, "__mxc_id__"@) ==> download_name_for(name, media) == name
            && !name_uses_uri(name),
        !front.contains('_') && !back.contains('_') ==> download_name_for(
            front + "__mxc_id__"@ + back,
            media,
        ) == front + media + back && name_uses_uri(front + "__mxc_id__"@ + back),
        name_uses_uri(Seq::empty()),
        media_id_of(Some((server, media))) == media,
        media_id_of(None).len() == 0,
{
    reveal_strlit("__mxc_id__");
    if !front.contains('_') && !back.contains('_') {
        let s = front + "__mxc_id__"@ + back;
        let at = front.len() as int;
        assert(s.subrange(at, at + 10) =~= "__mxc_id__"@);
        assert(occurs_at(s, "__mxc_id__"@, at));
        law_first_occurrences_are_replaced(front, "__mxc_id__"@, media, back, 9);
        law_first_occurrences_are_replaced(back, "__mxc_id__"@, media, back, 9);
    }
}

/// In a key dictionary single quotes become double ones, wherever they stand, and the words for
/// truth values are written with small letters; all else stays.
pub proof fn law_key_dictionary_becomes_json(text: Seq<char>)
    ensures
        !text.contains('T') && !text.contains('F') ==> key_dict_json(text) == joined(
            split_on(text, "'"@),
            "\""@,
        ),
        !text.contains('\'') && !text.contains('F') ==> key_dict_json(text) == joined(
            split_on(text, "True"@),
            "true"@,
        ),
        !text.contains('\'') && !text.contains('T') ==> key_dict_json(text) == joined(
            split_on(text, "False"@),
            "false"@,
        ),
{
    reveal_strlit("'");
    reveal_strlit("\"");
    reveal_strlit("True");
    reveal_strlit("true");
    reveal_strlit("False");
    reveal_strlit("false");
    law_split_and_join(text, "'"@, "\""@);
    law_split_and_join(text, "True"@, "true"@);
    law_split_and_join(text, "False"@, "false"@);
    let quoted = replaced(text, "'"@, "\""@);
    if !text.contains('\'') {
        lemma_not_replaced(text, "'"@, "\""@);
    }
    if !text.contains('T') {
        if quoted.contains('T') {
            lemma_replaced_contains(text, "'"@, "\""@, 'T');
        }
        lemma_not_replaced(quoted, "True"@, "true"@);
    }
    let truths = replaced(quoted, "True"@, "true"@);
    if !text.contains('F') {
        if quoted.contains('F') {
            lemma_replaced_contains(text, "'"@, "\""@, 'F');
        }
        if truths.contains('F') {
            lemma_replaced_contains(quoted, "True"@, "true"@, 'F');
        }
        lemma_not_replaced(truths, "False"@, "false"@);
    }
}

/// What begins with a character that a text does not hold is not replaced in it.
proof fn lemma_not_replaced(s: Seq<char>, from: Seq<char>, to: Seq<char>)
    requires
        from.len() > 0,
        !s.contains(from[0]),
    ensures
        replaced(s, from, to) == s,
{
    if occurs(s, from) {
        lemma_occurs_contains(s, from, 0);
    }
    law_absent_text_is_not_replaced(s, from, to);
}

/// A key has what its dictionary says of it: its type, uses, algorithm, version and whether it may
/// leave the device; the common values where it says nothing; and the secrets that were decoded.
pub proof fn law_key_as_described(
    key: MediaKey,
    dict: JsonDoc,
    obj: JsonDoc,
    k: Seq<u8>,
    sha256: Seq<u8>,
    iv: Seq<u8>,
)
    requires
        member(dict, "key"@) == Some(obj),
        key_matches(key, dict, k, sha256, iv),
    ensures
        key.k@ == k && key.sha256@ == sha256 && key.iv@ == iv,
        member(obj, "kty"@) matches Some(JsonDoc::Text(t)) ==> key.kty@ == t,
        member(obj, "kty"@) is None ==> key.kty@ == "oct"@,
        member(obj, "alg"@) matches Some(JsonDoc::Text(t)) ==> key.alg@ == t,
        member(obj, "alg"@) is None ==> key.alg@ == "A256CTR"@,
        member(dict, "v"@) matches Some(JsonDoc::Text(t)) ==> key.v@ == t,
        member(dict, "v"@) is None ==> key.v@ == "v2"@,
        member(obj, "ext"@) matches Some(JsonDoc::Bool(b)) ==> key.ext == b,
        member(obj, "ext"@) is None ==> key.ext,
        member(obj, "key_ops"@) is None ==> texts(key.key_ops@) == seq!["encrypt"@].push("decrypt"@),
        member(obj, "key_ops"@) matches Some(JsonDoc::Array(items)) ==> texts(key.key_ops@)
            == texts_in(items),
{
}

/// Of the elements of an array the texts are kept, each of them and in their order.
pub proof fn law_texts_are_kept(a: Seq<JsonDoc>, b: Seq<JsonDoc>, t: Seq<char>, other: JsonDoc)
    ensures
        texts_in(a + b) == texts_in(a) + texts_in(b),
        texts_in(seq![JsonDoc::Text(t)]) == seq![t],
        !(other is Text) ==> texts_in(seq![other]).len() == 0,
    decreases b.len(),
{
    let none = Seq::<JsonDoc>::empty();
    assert(seq![JsonDoc::Text(t)].drop_last() =~= none);
    assert(seq![other].drop_last() =~= none);
    assert(texts_in(none) =~= Seq::empty());
    assert(texts_in(seq![JsonDoc::Text(t)]) =~= seq![t]);
    if b.len() == 0 {
        assert(a + b =~= a);
        assert(texts_in(a) + texts_in(b) =~= texts_in(a));
    } else {
        law_texts_are_kept(a, b.drop_last(), t, other);
        assert((a + b).drop_last() =~= a + b.drop_last());
        assert((a + b).last() == b.last());
        assert(texts_in(a + b) =~= texts_in(a) + texts_in(b));
    }
}

/// The secrets of a key dictionary are the key in the object for the key, the hash in that for the
/// hashes, and the initialization vector; all three are needed.
pub proof fn law_secrets_where_they_stand(
    dict: JsonDoc,
    obj: JsonDoc,
    hashes: JsonDoc,
    k: Seq<char>,
    h: Seq<char>,
    iv: Seq<char>,
)
    requires
        member(dict, "key"@) == Some(obj),
        member(dict, "hashes"@) == Some(hashes),
    ensures
        member(obj, "k"@) == Some(JsonDoc::Text(k)) && member(hashes, "sha256"@) == Some(
            JsonDoc::Text(h),
        ) && member(dict, "iv"@) == Some(JsonDoc::Text(iv)) ==> secrets_in(dict) == Some((k, h, iv)),
        member(obj, "k"@) is None ==> secrets_in(dict) is None,
        member(hashes, "sha256"@) is None ==> secrets_in(dict) is None,
        member(dict, "iv"@) is None ==> secrets_in(dict) is None,
        secrets_in(dict) == Some((k, h, iv)) ==> {
            &&& decoded_secrets(dict) is Some <==> url_safe_bytes(k) is Some && standard_bytes(
                h,
            ) is Some && standard_bytes(iv) is Some
            &&& decoded_secrets(dict) matches Some(bytes) ==> url_safe_bytes(k) == Some(bytes.0)
                && standard_bytes(h) == Some(bytes.1) && standard_bytes(iv) == Some(bytes.2)
        },
{
}

/// A download fails only with a key dictionary that cannot be read; without a dictionary it has
/// no key, and with one the key that it describes.
pub proof fn law_download_as_asked(
    r: Result<Download, Error>,
    uri: Seq<char>,
    name: Seq<char>,
    key_dict: Seq<char>,
)
    requires
        download_matches(r, uri, name, key_dict),
    ensures
        key_dict.len() == 0 ==> (r matches Ok(d) && d.key is None),
        key_dict.len() > 0 && key_readable(key_dict) ==> (r matches Ok(d) && d.key is Some),
        key_dict.len() > 0 && !key_readable(key_dict) ==> r is Err,
        r matches Ok(d) ==> {
            &&& name.len() > 0 && !occurs(name, "__mxc_id__"@) ==> d.name@ == name
            &&& name.len() == 0 ==> d.name@ == "mxc-"@ + media_id_of(mxc_parts_of(uri))
            &&& d.key matches Some(key) ==> is_key_for(key, key_dict)
        },
{
}

/// The protocol of an address is what stands before the colon and the slashes.
pub proof fn law_protocol_of_an_address(protocol: Seq<char>, rest: Seq<char>)
    requires
        !protocol.contains('/'),
    ensures
        has_protocol(protocol + "://"@ + rest),
        protocol_of(protocol + "://"@ + rest) == protocol,
        !has_protocol(protocol),
{
    reveal_strlit("://");
    let s = protocol + "://"@ + rest;
    lemma_first_at(s, '/', 0, protocol.len() as int + 1);
    assert(s.take(protocol.len() as int) =~= protocol);
    lemma_first_nowhere(protocol, '/', 0);
}

/// A character is found where it first stands.
proof fn lemma_first_at(s: Seq<char>, c: char, i: int, at: int)
    requires
        0 <= i <= at < s.len(),
        s[at] == c,
        forall|j: int| i <= j < at ==> #[trigger] s[j] != c,
    ensures
        first_from(s, c, i) == at,
    decreases at - i,
{
    if i < at {
        assert(s[i] != c);
        lemma_first_at(s, c, i + 1, at);
    }
}

/// A character that does not stand in a text is found at its end.
proof fn lemma_first_nowhere(s: Seq<char>, c: char, i: int)
    requires
        !s.contains(c),
        0 <= i <= s.len(),
    ensures
        first_from(s, c, i) == s.len(),
    decreases s.len() - i,
{
    if i < s.len() {
        assert(s.contains(s[i]));
        lemma_first_nowhere(s, c, i + 1);
    }
}

/// Of a media URI the URI and its address are printed, in plain text as columns, in JSON as
/// fields; of one that is not valid nothing is. The address has the protocol, the server and, in
/// its path, the server once more and the media id.
pub proof fn law_media_address_is_printed(
    uri: Seq<char>,
    server: Seq<char>,
    media: Seq<char>,
    protocol: Seq<char>,
    output: Output,
    sep: Seq<char>,
)
    ensures
        http_address(protocol, server, media) == protocol + "://"@ + joined(
            seq![server].push("_matrix/media/r0/download"@).push(server).push(media),
            "/"@,
        ),
        mxc_printed(uri, Some((server, media)), protocol, Output::Text, sep) == joined(
            seq![uri].push(http_address(protocol, server, media)),
            sep,
        ) + "\n"@,
        mxc_printed(uri, None, protocol, output, sep).len() == 0,
        output != Output::Text ==> exists|doc: JsonDoc|
            {
                &&& mxc_printed(uri, Some((server, media)), protocol, output, sep)
                    == #[trigger] printed(doc, output)
                &&& has_fields(doc, 2)
                &&& has_field(doc, "mxc"@, JsonDoc::Text(uri))
                &&& has_field(doc, "http"@, JsonDoc::Text(http_address(protocol, server, media)))
            },
{
    reveal_strlit("/");
    reveal_strlit("_matrix/media/r0/download");
    reveal_strlit("/_matrix/media/r0/download/");
    let http = http_address(protocol, server, media);
    lemma_joined_four(server, "_matrix/media/r0/download"@, server, media, "/"@);
    assert("/_matrix/media/r0/download/"@ =~= "/"@ + "_matrix/media/r0/download"@ + "/"@);
    assert(http =~= protocol + "://"@ + (server + "/"@ + "_matrix/media/r0/download"@ + "/"@ + server
        + "/"@ + media));
    lemma_joined_two(uri, http, sep);
    let items = seq![("mxc"@, JsonDoc::Text(uri))].push(("http"@, JsonDoc::Text(http)));
    lemma_has_field(items, 0);
    lemma_has_field(items, 1);
    if output != Output::Text {
        assert(mxc_printed(uri, Some((server, media)), protocol, output, sep) == printed(
            JsonDoc::Object(items),
            output,
        ));
    }
}

/// The addresses of all media URIs are printed, one after the other and in their order.
pub proof fn law_every_media_address_is_printed(
    uris: Seq<Seq<char>>,
    uri: Seq<char>,
    protocol: Seq<char>,
    output: Output,
    sep: Seq<char>,
)
    ensures
        mxcs_printed(uris.push(uri), protocol, output, sep, (uris.len() + 1) as nat) == mxcs_printed(
            uris,
            protocol,
            output,
            sep,
            uris.len(),
        ) + mxc_printed(uri, mxc_parts_of(uri), protocol, output, sep),
        mxcs_printed(uris, protocol, output, sep, 0).len() == 0,
{
    lemma_mxcs_front(uris, uri, protocol, output, sep, uris.len());
    assert(uris.push(uri)[uris.len() as int] == uri);
}

/// A URI behind the first `n` changes nothing of them.
proof fn lemma_mxcs_front(
    uris: Seq<Seq<char>>,
    uri: Seq<char>,
    protocol: Seq<char>,
    output: Output,
    sep: Seq<char>,
    n: nat,
)
    requires
        n <= uris.len(),
    ensures
        mxcs_printed(uris.push(uri), protocol, output, sep, n) == mxcs_printed(
            uris,
            protocol,
            output,
            sep,
            n,
        ),
    decreases n,
{
    if n > 0 {
        lemma_mxcs_front(uris, uri, protocol, output, sep, (n - 1) as nat);
        assert(uris.push(uri)[n - 1] == uris[n - 1]);
    }
}

/// A key can be read exactly where the dictionary is JSON with all its secrets, and a key that is
/// the one for a dictionary has them.
pub proof fn law_readable_keys(text: Seq<char>, key: MediaKey, dict: JsonDoc)
    ensures
        parsed_json(key_dict_json(text)) is None ==> !key_readable(text),
        parsed_json(key_dict_json(text)) == Some(dict) ==> (key_readable(text) <==> decoded_secrets(
            dict,
        ) is Some),
        is_key_for(key, text) ==> key_readable(text),
        is_key_for(key, text) && parsed_json(key_dict_json(text)) == Some(dict) ==> decoded_secrets(
            dict,
        ) == Some((key.k@, key.sha256@, key.iv@)),
{
}

/// An upload is printed with its URI, and with nothing about a key, which it does not have.
pub proof fn law_upload_is_printed(
    uri: &str,
    output: Output,
    sep: &str,
    line: String,
    json: String,
)
    requires
        call_ensures(print_upload, (uri, Output::Text, sep), line),
        call_ensures(print_upload, (uri, output, sep), json),
        output != Output::Text,
    ensures
        line@ == joined(seq![uri@].push("None"@), sep@) + "\n"@,
        exists|doc: JsonDoc|
            {
                &&& json@ == #[trigger] printed(doc, output)
                &&& has_fields(doc, 2)
                &&& has_field(doc, "content_uri"@, JsonDoc::Text(uri@))
                &&& has_field(doc, "decryption_dict"@, JsonDoc::Null)
            },
{
    assert("None\n"@ =~= "None"@ + "\n"@) by {
        reveal_strlit("None");
        reveal_strlit("None\n");
        reveal_strlit("\n");
    }
    lemma_joined_two(uri@, "None"@, sep@);
    assert(uri@ + sep@ + ("None"@ + "\n"@) =~= uri@ + sep@ + "None"@ + "\n"@);
    let items = seq![("content_uri"@, JsonDoc::Text(uri@))].push(("decryption_dict"@, JsonDoc::Null));
    lemma_has_field(items, 0);
    lemma_has_field(items, 1);
    assert(json@ == printed(JsonDoc::Object(items), output));
}

/// Standard input goes by the first file name that is given, else by the default; any other file
/// by its own.
pub proof fn law_names_of_attachments(
    names: &Vec<String>,
    default_name: &str,
    name: &str,
    stdin: String,
    path: String,
)
    requires
        call_ensures(stdin_name, (names, default_name), stdin),
        call_ensures(attachment_path, (name, default_name), path),
    ensures
        names@.len() > 0 ==> stdin@ == names@[0]@,
        names@.len() == 0 ==> stdin@ == default_name@,
        name@ == "-"@ ==> path@ == default_name@,
        name@.len() > 2 ==> path@ == name@,
{
    law_file_names_as_given(name@);
    reveal_strlit("-");
    reveal_strlit("\\-");
    assert("-"@.len() == 1);
    assert("\\-"@.len() == 2);
}

} // verus!
