//! Chat sessions.
use vstd::prelude::*;
use crate::text::owned;
use crate::time::Timestamp;

verus! {

broadcast use vstd::string::group_string_axioms;

/// A lowercase hexadecimal digit.
pub open spec fn is_lower_hex(c: char) -> bool {
    ('0' <= c && c <= '9') || ('a' <= c && c <= 'f')
}

/// `s` is a random (version 4) UUID written the usual way: 36 characters,
/// hyphens after the 8th, 12th, 16th and 20th hex digit, lowercase hex
/// digits elsewhere, the version digit `4`, and the variant digit one of
/// `8`, `9`, `a`, `b`.
pub open spec fn is_uuid_v4_text(s: Seq<char>) -> bool {
    &&& s.len() == 36
    &&& forall|i: int|
        0 <= i < 36 ==> if i == 8 || i == 13 || i == 18 || i == 23 {
            s[i] == '-'
        } else {
            is_lower_hex(#[trigger] s[i])
        }
    &&& s[14] == '4'
    &&& (s[19] == '8' || s[19] == '9' || s[19] == 'a' || s[19] == 'b')
}

/// The text of the UUID that `uuid::Builder::from_random_bytes` makes of
/// sixteen random bytes.
pub uninterp spec fn uuid_text(bytes: Seq<u8>) -> Seq<char>;

/// Calls `uuid::Builder::from_random_bytes` on `random` and writes the UUID
/// with `to_string`. The result is `uuid_text` of the bytes, laid out as
/// uuid's `format_hyphenated` writes it, with the version digit `4` and a
/// variant digit that `with_version` and `with_variant` set (the other bits
/// are those of `random`, which is not stated here).
#[verifier::external_body]
fn uuid_v4_text(random: [u8; 16]) -> (id: String)
    ensures
        id@ == uuid_text(random@),
        is_uuid_v4_text(id@),
{
    uuid::Builder::from_random_bytes(random).into_uuid().to_string()
}

/// A chat session.
#[derive(Debug, Clone)]
pub struct Session {
    pub id: String,
    pub title: String,
    pub created_at: Timestamp,
    pub updated_at: Timestamp,
    pub provider_id: String,
    pub model_id: String,
}

impl Session {
    /// A new session with the given provider and model, created now: its
    /// id is the random UUID made of `random` (sixteen random bytes the
    /// caller draws), its title `New Chat`, and it is created and updated
    /// at `now` (the caller reads the clock).
    pub fn new(provider_id: &str, model_id: &str, random: [u8; 16], now: Timestamp) -> (s: Self)
        ensures
            s.id@ == uuid_text(random@),
            is_uuid_v4_text(s.id@),
            s.title@ == "New Chat"@,
            s.created_at == now,
            s.updated_at == now,
            s.provider_id@ == provider_id@,
            s.model_id@ == model_id@,
    {
        Session {
            id: uuid_v4_text(random),
            title: owned("New Chat"),
            created_at: now,
            updated_at: now,
            provider_id: owned(provider_id),
            model_id: owned(model_id),
        }
    }
}

} // verus!
