//! The credentials that are kept between runs.

use vstd::prelude::*;

use crate::ids::begins;
use crate::json::{
    field_of, flat_texts, parsed_json, pretty_text, text_member, write_pretty, Fields, Json,
    JsonDoc,
};
use crate::server::{trim_slash, without_slash};
use crate::text::opt_text;

verus! {

/// The credentials. They are written as JSON to a file for permanent storage and future access.
#[derive(Debug)]
pub struct Credentials {
    /// The address of the homeserver.
    pub homeserver: String,
    pub user_id: String,
    pub access_token: String,
    pub device_id: String,
    pub room_id: String,
    pub refresh_token: Option<String>,
}

/// The credentials as they are stored: the homeserver without a slash at its end, and the refresh
/// token only where there is one.
pub open spec fn stored_doc(c: Credentials) -> JsonDoc {
    let fields = seq![("homeserver"@, JsonDoc::Text(without_slash(c.homeserver@)))].push(("device_id"@, JsonDoc::Text(c.device_id@))).push(("user_id"@, JsonDoc::Text(c.user_id@))).push(("room_id"@, JsonDoc::Text(c.room_id@))).push(("access_token"@, JsonDoc::Text(c.access_token@)));
    match c.refresh_token {
        Some(t) => JsonDoc::Object(fields.push(("refresh_token"@, JsonDoc::Text(t@)))),
        None => JsonDoc::Object(fields),
    }
}

impl Credentials {
    /// Credentials of these parts.
    pub fn new(
        homeserver: String,
        user_id: String,
        access_token: String,
        device_id: String,
        room_id: String,
        refresh_token: Option<String>,
    ) -> (c: Credentials)
        ensures
            c == (Credentials {
                homeserver,
                user_id,
                access_token,
                device_id,
                room_id,
                refresh_token,
            }),
    {
        Credentials { homeserver, user_id, access_token, device_id, room_id, refresh_token }
    }

    /// The credentials as they are stored.
    pub fn stored(&self) -> (doc: Json)
        ensures
            doc@ == stored_doc(*self),
    {
        let homeserver = trim_slash(self.homeserver.as_str());
        let mut f = Fields::new();
        f.put_text("homeserver", homeserver.as_str());
        f.put_text("device_id", self.device_id.as_str());
        f.put_text("user_id", self.user_id.as_str());
        f.put_text("room_id", self.room_id.as_str());
        f.put_text("access_token", self.access_token.as_str());
        if let Some(t) = &self.refresh_token {
            f.put_text("refresh_token", t.as_str());
        }
        f.object()
    }

    /// The text of the file in which the credentials are kept. Read as JSON it gives them back.
    pub fn save(&self) -> (text: String)
        ensures
            text@ == pretty_text(stored_doc(*self)),
            parsed_json(text@) == Some(stored_doc(*self)),
    {
        let doc = self.stored();
        proof {
            lemma_stored_flat(*self);
        }
        write_pretty(&doc)
    }
}

/// Whether a file with these permissions can be read by everyone, so that they are narrowed to
/// those of the owner.
pub fn readable_by_all(mode: u32) -> (r: bool)
    ensures
        r == (mode & 0o4 == 0o4),
{
    mode & 0o4 == 0o4
}

/// The names of the stored fields differ, and none begins with a dollar sign.
proof fn lemma_names_differ()
    ensures
        "homeserver"@ != "device_id"@,
        "homeserver"@ != "user_id"@,
        "homeserver"@ != "room_id"@,
        "homeserver"@ != "access_token"@,
        "homeserver"@ != "refresh_token"@,
        "device_id"@ != "user_id"@,
        "device_id"@ != "room_id"@,
        "device_id"@ != "access_token"@,
        "device_id"@ != "refresh_token"@,
        "user_id"@ != "room_id"@,
        "user_id"@ != "access_token"@,
        "user_id"@ != "refresh_token"@,
        "room_id"@ != "access_token"@,
        "room_id"@ != "refresh_token"@,
        "access_token"@ != "refresh_token"@,
        !begins("homeserver"@, '$'),
        !begins("device_id"@, '$'),
        !begins("user_id"@, '$'),
        !begins("room_id"@, '$'),
        !begins("access_token"@, '$'),
        !begins("refresh_token"@, '$'),
{
    reveal_strlit("homeserver");
    reveal_strlit("device_id");
    reveal_strlit("user_id");
    reveal_strlit("room_id");
    reveal_strlit("access_token");
    reveal_strlit("refresh_token");
    assert("homeserver"@.len() == 10);
    assert("device_id"@.len() == 9);
    assert("user_id"@.len() == 7);
    assert("room_id"@.len() == 7);
    assert("user_id"@[0] == 'u');
    assert("room_id"@[0] == 'r');
    assert("access_token"@.len() == 12);
    assert("refresh_token"@.len() == 13);
}

/// The stored document is an object of texts under different names.
proof fn lemma_stored_flat(c: Credentials)
    ensures
        flat_texts(stored_doc(c)),
{
    lemma_names_differ();
}

/// Every part of the credentials is found in the document that is stored, the homeserver without
/// a slash at its end.
pub proof fn law_stored_parts_are_found(c: Credentials)
    ensures
        text_member(stored_doc(c), "homeserver"@) == Some(without_slash(c.homeserver@)),
        text_member(stored_doc(c), "device_id"@) == Some(c.device_id@),
        text_member(stored_doc(c), "user_id"@) == Some(c.user_id@),
        text_member(stored_doc(c), "room_id"@) == Some(c.room_id@),
        text_member(stored_doc(c), "access_token"@) == Some(c.access_token@),
        text_member(stored_doc(c), "refresh_token"@) == opt_text(c.refresh_token),
{
    lemma_names_differ();
    reveal_with_fuel(field_of, 8);
    let f = stored_doc(c)->Object_0;
    assert(f.skip(1)[0] == f[1]);
    assert(f.skip(1).skip(1)[0] == f[2]);
    assert(f.skip(1).skip(1).skip(1)[0] == f[3]);
    assert(f.skip(1).skip(1).skip(1).skip(1)[0] == f[4]);
    if c.refresh_token is Some {
        assert(f.skip(1).skip(1).skip(1).skip(1).skip(1)[0] == f[5]);
    }
}

/// A file can be read by all exactly where the bit for it is set in its mode, whatever the other
/// bits are.
pub proof fn law_read_bit_decides(mode: u32, with: bool, without: bool)
    requires
        call_ensures(readable_by_all, (mode | 0o4,), with),
        call_ensures(readable_by_all, (mode & !0o4,), without),
    ensures
        with,
        !without,
{
    assert((mode | 0o4u32) & 0o4u32 == 0o4u32) by (bit_vector);
    assert((mode & !0o4u32) & 0o4u32 != 0o4u32) by (bit_vector);
}

} // verus!
