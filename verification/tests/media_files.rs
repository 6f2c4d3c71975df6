use matrix_commander_ng::json::{Fields, Json};
use matrix_commander_ng::media::{
    attachment_mime, attachment_path, avatar_mime, build_key, can_name_downloads, choose_mime, download_name,
    file_source, has_data, media_download, media_mxc_to_http, media_upload, name_download,
    needs_uri, normalize_key_dict, tells_protocol, parse_key_dict, plan_download, plan_upload, print_mxc, print_upload,
    protocol, read_secrets, replace_first, stdin_name, upload_mime, FileSource,
};
use matrix_commander_ng::{Error, Output};

fn list(parts: &[&str]) -> Vec<String> {
    parts.iter().map(|p| p.to_string()).collect()
}

fn some(t: &str) -> Option<String> {
    Some(t.to_string())
}

fn source(name: &str) -> String {
    match file_source(name) {
        FileSource::Stdin => "stdin".to_string(),
        FileSource::Path(p) => format!("path {p}"),
    }
}

#[test]
fn files_and_standard_input() {
    assert_eq!(source("-"), "stdin");
    assert_eq!(source("\\-"), "path -");
    assert_eq!(source("a.png"), "path a.png");
    assert_eq!(attachment_path("-", "file"), "file");
    assert_eq!(attachment_path("\\-", "file"), "-");
    assert_eq!(attachment_path("a.png", "file"), "a.png");
    assert_eq!(stdin_name(&list(&["x.png"]), "file"), "x.png");
    assert_eq!(stdin_name(&list(&[]), "file"), "file");
}

#[test]
fn kinds_of_files() {
    assert_eq!(attachment_mime("a.txt"), "text/plain");
    assert_eq!(attachment_mime("a"), "application/octet-stream");
    assert_eq!(avatar_mime("me.png"), "image/png");
    assert_eq!(avatar_mime("me"), "image/png");
    assert_eq!(avatar_mime("me.jpg"), "image/jpeg");
    assert_eq!(choose_mime(some("a/b"), "c/d"), "a/b");
    assert_eq!(choose_mime(None, "c/d"), "c/d");
    assert_eq!(upload_mime("a.pdf", " "), some("application/pdf"));
    assert_eq!(upload_mime("a.nothing", ""), some("application/octet-stream"));
    assert_eq!(upload_mime("a.pdf", "text/html"), some("text/html"));
    assert_eq!(upload_mime("a.pdf", "text"), None);
}

#[test]
fn uploads() {
    let u = plan_upload("a.pdf", "").unwrap();
    assert!(matches!(&u.source, FileSource::Path(p) if p == "a.pdf"));
    assert_eq!(u.mime, "application/pdf");
    let u = plan_upload("-", "image/png").unwrap();
    assert!(matches!(u.source, FileSource::Stdin));
    assert!(plan_upload("a", "broken").is_none());
    let r = media_upload(&list(&["a.png", "b.png", "c.png"]), &list(&["text/plain", "bad"]));
    assert_eq!(r.len(), 3);
    assert_eq!(r[0].as_ref().unwrap().mime, "text/plain");
    assert!(r[1].is_none());
    assert_eq!(r[2].as_ref().unwrap().mime, "image/png");
    assert_eq!(print_upload("mxc://s/k", Output::Text, "|"), "mxc://s/k|None\n");
    assert_eq!(
        print_upload("mxc://s/k", Output::Json, "|"),
        "{\"content_uri\":\"mxc://s/k\",\"decryption_dict\":null}\n"
    );
}

#[test]
fn names_of_downloads() {
    assert_eq!(replace_first("aaa", "a", "b", 2), "bba");
    assert_eq!(replace_first("aaa", "x", "b", 2), "aaa");
    assert_eq!(name_download("", "key"), "mxc-key");
    assert_eq!(name_download("f-__mxc_id__.png", "key"), "f-key.png");
    assert_eq!(name_download("f.png", "key"), "f.png");
    let eleven = "__mxc_id__".repeat(11);
    assert_eq!(name_download(&eleven, "k"), format!("{}__mxc_id__", "k".repeat(10)));
    assert_eq!(download_name("mxc://s/key", ""), "mxc-key");
    assert_eq!(download_name("bad", ""), "mxc-");
    assert_eq!(download_name("mxc://s/key", "x"), "x");
}

const KEY: &str = "{'v': 'v2', 'key': {'kty': 'oct', 'alg': 'A256CTR', 'ext': True, \
                   'key_ops': ['encrypt', 'decrypt'], 'k': 'AAEC_w'}, 'iv': 'AAEC', \
                   'hashes': {'sha256': '/+8'}}";

#[test]
fn keys_of_encrypted_media() {
    assert_eq!(normalize_key_dict("{'a': True, 'b': False}"), "{\"a\": true, \"b\": false}");
    let key = parse_key_dict(KEY).unwrap();
    assert_eq!(key.kty, "oct");
    assert_eq!(key.alg, "A256CTR");
    assert_eq!(key.key_ops, list(&["encrypt", "decrypt"]));
    assert_eq!(key.v, "v2");
    assert!(key.ext);
    // One alphabet for the key, the other for the hash and the initial vector.
    assert_eq!(key.k, vec![0, 1, 2, 255]);
    assert_eq!(key.iv, vec![0, 1, 2]);
    assert_eq!(key.sha256, vec![0xff, 0xef]);
}

#[test]
fn keys_that_cannot_be_read() {
    let swapped = KEY.replace("AAEC_w", "AAEC/w");
    assert!(matches!(parse_key_dict(&swapped), Err(Error::MediaDownloadFailed)));
    let swapped = KEY.replace("/+8", "_-8");
    assert!(matches!(parse_key_dict(&swapped), Err(Error::MediaDownloadFailed)));
    assert!(parse_key_dict("not a dictionary").is_err());
    assert!(parse_key_dict("{}").is_err());
}

#[test]
fn parts_of_keys_have_defaults() {
    let mut hashes = Fields::new();
    hashes.put_text("sha256", "h");
    let mut inner = Fields::new();
    inner.put_text("k", "kk");
    let mut f = Fields::new();
    f.put("key", inner.object());
    f.put("hashes", hashes.object());
    f.put_text("iv", "i");
    let dict = f.object();
    let secrets = read_secrets(&dict).unwrap();
    assert_eq!(secrets, ("kk".to_string(), "h".to_string(), "i".to_string()));
    let key = build_key(&dict, vec![1], vec![2], vec![3]);
    assert_eq!((key.kty.as_str(), key.alg.as_str(), key.v.as_str()), ("oct", "A256CTR", "v2"));
    assert_eq!(key.key_ops, list(&["encrypt", "decrypt"]));
    assert!(key.ext);
    assert_eq!((key.k, key.sha256, key.iv), (vec![1], vec![2], vec![3]));
    assert!(read_secrets(&Json::Null).is_none());
}

#[test]
fn downloads() {
    let d = plan_download("mxc://s/key", "", "").unwrap();
    assert_eq!(d.name, "mxc-key");
    assert!(d.key.is_none());
    let d = plan_download("mxc://s/key", "f", KEY).unwrap();
    assert_eq!(d.name, "f");
    assert_eq!(d.key.unwrap().k, vec![0, 1, 2, 255]);
    assert!(matches!(
        plan_download("mxc://s/key", "f", "{}"),
        Err(Error::MediaDownloadFailed)
    ));
    let r = media_download(
        &list(&["mxc://s/a", "mxc://s/b"]),
        &list(&["first"]),
        &list(&["{}"]),
    );
    assert!(r[0].is_err());
    assert_eq!(r[1].as_ref().unwrap().name, "mxc-b");
}

#[test]
fn addresses_of_media() {
    assert_eq!(protocol("https://server/"), "https");
    let (out, r) = media_mxc_to_http(
        &list(&["mxc://s/a", "bad", "mxc://t/b"]),
        "https://server/",
        Output::Text,
        "|",
    );
    assert_eq!(
        out,
        "mxc://s/a|https://s/_matrix/media/r0/download/s/a\n\
         mxc://t/b|https://t/_matrix/media/r0/download/t/b\n"
    );
    assert!(matches!(r, Err(Error::MediaMxcToHttpFailed)));
    let (out, r) = media_mxc_to_http(&list(&["mxc://s/a"]), "http://x/", Output::Json, "|");
    assert_eq!(
        out,
        "{\"mxc\":\"mxc://s/a\",\"http\":\"http://s/_matrix/media/r0/download/s/a\"}\n"
    );
    assert!(r.is_ok());
    let parts = Some(("s".to_string(), "m".to_string()));
    assert_eq!(
        print_mxc("u", &parts, "p", Output::Text, " "),
        "u p://s/_matrix/media/r0/download/s/m\n"
    );
    assert_eq!(print_mxc("u", &None, "p", Output::Text, " "), "");
}

#[test]
fn long_server_names_only_matter_where_they_are_used() {
    let long = format!("mxc://{}/key", "s".repeat(300));
    let uris = vec!["mxc://s/key".to_string(), long];
    assert!(!can_name_downloads(&uris, &vec![]));
    assert!(can_name_downloads(&uris, &vec!["".to_string(), "name".to_string()]));
    assert!(!can_name_downloads(&uris, &vec!["".to_string(), "__mxc_id__".to_string()]));
    assert!(has_data(&vec![0]) && !has_data(&vec![]));
    assert!(needs_uri("") && needs_uri("a__mxc_id__") && !needs_uri("a"));
}

#[test]
fn homeservers_tell_their_protocol() {
    assert!(tells_protocol("https://s"));
    assert!(!tells_protocol("s.org"));
    assert!(!tells_protocol("/s"));
    assert!(!tells_protocol("é/s"));
}
