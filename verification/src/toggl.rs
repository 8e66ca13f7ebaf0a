//! The time source's records, and what a request to it is made of.

use vstd::prelude::*;
use crate::text::{signed_decimal, signed_decimal_string};

verus! {

/// Address under which the time source lists the entries changed since a
/// given instant; the instant follows as a decimal number of seconds.
pub const TIME_ENTRIES_URL: &'static str =
    "https://api.track.toggl.com/api/v9/me/time_entries?since=";

/// One tracked stretch of time, as the time source reports it.
#[derive(Debug)]
pub struct TimeEntry {
    pub at: String,
    /// Free text; the source sends an empty text rather than none.
    pub description: Option<String>,
    /// Duration in seconds; negative while the timer is running.
    pub duration: i64,
    pub id: u64,
    /// When the entry began, in milliseconds since the Unix epoch.
    pub start: i64,
    pub stop: Option<String>,
}

/// What a `TimeEntry` holds, as plain values.
pub struct TimeEntryView {
    pub at: Seq<char>,
    pub description: Option<Seq<char>>,
    pub duration: i64,
    pub id: u64,
    pub start: i64,
    pub stop: Option<Seq<char>>,
}

/// The text of an optional string.
pub open spec fn optional_text(text: Option<String>) -> Option<Seq<char>> {
    match text {
        Some(t) => Some(t@),
        None => None,
    }
}

impl View for TimeEntry {
    type V = TimeEntryView;

    open spec fn view(&self) -> TimeEntryView {
        TimeEntryView {
            at: self.at@,
            description: optional_text(self.description),
            duration: self.duration,
            id: self.id,
            start: self.start,
            stop: optional_text(self.stop),
        }
    }
}

/// The views of a run of entries, in order.
pub open spec fn time_entries_view(entries: Seq<TimeEntry>) -> Seq<TimeEntryView> {
    Seq::new(entries.len(), |i: int| entries[i]@)
}

/// A copy of an optional string.
pub fn clone_optional(text: &Option<String>) -> (copy: Option<String>)
    ensures
        copy == *text,
{
    match text {
        Some(t) => Some(t.clone()),
        None => None,
    }
}

impl Clone for TimeEntry {
    fn clone(&self) -> (copy: Self)
        ensures
            copy == *self,
    {
        TimeEntry {
            at: self.at.clone(),
            description: clone_optional(&self.description),
            duration: self.duration,
            id: self.id,
            start: self.start,
            stop: clone_optional(&self.stop),
        }
    }
}

/// The standard base64 text, with padding, of a run of bytes.
pub uninterp spec fn base64_standard(bytes: Seq<u8>) -> Seq<char>;

/// Whether the base64 text of `len` bytes has a length that a `usize` holds.
pub open spec fn base64_fits(len: nat) -> bool {
    (len / 3 + 1) * 4 <= usize::MAX
}

/// Calls `Engine::encode` of base64 on the `STANDARD` engine. Trusted: the
/// result is a function of the bytes alone, named `base64_standard`. The
/// crate panics where the length of the result overflows, which the bound on
/// the input's length rules out.
#[verifier::external_body]
pub(crate) fn base64_encode(bytes: &[u8]) -> (encoded: String)
    requires
        base64_fits(bytes@.len()),
    ensures
        encoded@ == base64_standard(bytes@),
{
    base64::Engine::encode(&base64::engine::general_purpose::STANDARD, bytes)
}

/// The credentials that go into the header: the token, a colon and the word
/// the time source expects in place of a password.
pub open spec fn spec_credentials(token: Seq<char>) -> Seq<char> {
    token + ":api_token"@
}

/// The bytes of the credentials for `token`, in UTF-8.
pub open spec fn spec_credential_bytes(token: Seq<char>) -> Seq<u8> {
    vstd::utf8::encode_utf8(spec_credentials(token))
}

/// The value of the authorization header around the base64 text of the
/// credentials.
pub open spec fn spec_basic_authorization(encoded: Seq<char>) -> Seq<char> {
    "Basic "@ + encoded
}

/// The value of the authorization header around an encoded credential.
pub fn basic_authorization(encoded: &str) -> (header: String)
    ensures
        header@ == spec_basic_authorization(encoded@),
{
    String::from_str("Basic ").concat(encoded)
}

/// The value of the authorization header for `token`: the word `Basic` and the
/// base64 text of the credentials. `None` where the credentials are too long
/// for their base64 text to have a length that fits.
pub fn authorization_header(token: &str) -> (header: Option<String>)
    ensures
        header is Some <==> base64_fits(spec_credential_bytes(token@).len()),
        header matches Some(h) ==> h@ == spec_basic_authorization(
            base64_standard(spec_credential_bytes(token@)),
        ),
{
    let credentials = String::from_str(token).concat(":api_token");
    let bytes = credentials.as_str().as_bytes();
    if bytes.len() / 3 >= usize::MAX / 4 {
        None
    } else {
        let encoded = base64_encode(bytes);
        Some(basic_authorization(encoded.as_str()))
    }
}

/// The address that lists the entries changed since `since` seconds after the
/// epoch, as text.
pub open spec fn spec_time_entries_url(since: i64) -> Seq<char> {
    TIME_ENTRIES_URL@ + signed_decimal(since as int)
}

/// The address that lists the entries changed since `since`.
pub fn time_entries_url(since: i64) -> (url: String)
    ensures
        url@ == spec_time_entries_url(since),
{
    let number = signed_decimal_string(since);
    String::from_str(TIME_ENTRIES_URL).concat(number.as_str())
}

} // verus!
