//! Fresh identifiers and the current time, the two values the library takes
//! from the world rather than computes.

use vstd::prelude::*;

verus! {

/// A lower-case hexadecimal digit.
pub open spec fn is_hex_lower(c: char) -> bool {
    ('0' <= c && c <= '9') || ('a' <= c && c <= 'f')
}

/// The shape of a hyphenated UUID: 36 characters, `-` at 8, 13, 18 and 23,
/// lower-case hexadecimal digits elsewhere.
pub open spec fn is_uuid_text(s: Seq<char>) -> bool {
    &&& s.len() == 36
    &&& forall|i: int| 0 <= i < 36 ==> if i == 8 || i == 13 || i == 18 || i == 23 {
        s[i] == '-'
    } else {
        is_hex_lower(#[trigger] s[i])
    }
}

/// The version and variant digits of a random (version 4, RFC 4122) UUID in
/// hyphenated form: `4` at index 14, one of `8 9 a b` at index 19.
pub open spec fn is_v4_text(s: Seq<char>) -> bool {
    &&& s.len() == 36
    &&& s[14] == '4'
    &&& (s[19] == '8' || s[19] == '9' || s[19] == 'a' || s[19] == 'b')
}

/// `uuid::Uuid::new_v4().to_string()`: a random version-4 UUID in its
/// hyphenated lower-case form. Its shape and its version and variant digits
/// are claimed; which one comes out is left open, as it is random.
#[verifier::external_body]
pub(crate) fn new_id() -> (res: String)
    ensures
        is_uuid_text(res@),
        is_v4_text(res@),
{
    uuid::Uuid::new_v4().to_string()
}

/// A point in time: seconds since the Unix epoch and the nanoseconds past
/// that second.
pub struct Timestamp {
    pub secs: i64,
    pub nanos: u32,
}

/// `chrono::Utc::now()`, as seconds and nanoseconds since the epoch. Nothing
/// is claimed of the time it reads.
#[verifier::external_body]
pub(crate) fn now() -> (res: Timestamp) {
    let t = chrono::Utc::now();
    Timestamp { secs: t.timestamp(), nanos: t.timestamp_subsec_nanos() }
}

} // verus!
