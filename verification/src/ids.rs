//! Identifiers and timestamps. Fresh ids come from the `uuid` crate, wall
//! clock readings from `chrono`; both are opaque to the proofs, which treat a
//! fresh id as an arbitrary `u128` and a timestamp as an arbitrary string.

use vstd::prelude::*;
use vstd::string::StrSliceExecFns;

verus! {

/// The hyphenated text form of the identifier `id`.
pub uninterp spec fn uuid_chars(id: u128) -> Seq<char>;

/// The identifier denoted by `s`, if `s` is a well-formed identifier text.
pub uninterp spec fn uuid_of_chars(s: Seq<char>) -> Option<u128>;

/// Relies on `uuid::Uuid::new_v4`: a randomly drawn identifier, of which
/// nothing can be promised. The draw aborts the process if the operating
/// system's random source fails; no input can provoke that.
#[verifier::external_body]
pub(crate) fn fresh_uuid() -> u128 {
    uuid::Uuid::new_v4().as_u128()
}

/// Relies on `uuid::Uuid::to_string` via `from_u128`: the hyphenated form,
/// 36 characters of lowercase hexadecimal digits and hyphens, a function of
/// `id` alone; `uuid::Uuid::parse_str` accepts that form and yields the same
/// identifier back.
#[verifier::external_body]
pub(crate) fn uuid_string(id: u128) -> (r: String)
    ensures
        r@ == uuid_chars(id),
        r@.len() == 36,
        crate::strutil::ascii_seq(r@),
        uuid_of_chars(r@) == Some(id),
{
    uuid::Uuid::from_u128(id).to_string()
}

/// Relies on `uuid::Uuid::parse_str`: accepts a textual identifier, a
/// function of `s` alone.
#[verifier::external_body]
pub(crate) fn parse_uuid(s: &str) -> (r: Option<u128>)
    ensures
        r == uuid_of_chars(s@),
{
    match uuid::Uuid::parse_str(s) {
        Ok(u) => Some(u.as_u128()),
        Err(_) => None,
    }
}

/// The first eight characters of the textual form of `id`, used to salt
/// generated directory names.
pub fn short_id(id: u128) -> (r: String)
    ensures
        r@ == uuid_chars(id).take(8),
        r@.len() == 8,
{
    let s = uuid_string(id);
    let t = s.as_str().substring_char(0, 8);
    t.to_owned()
}

/// A freshly drawn eight-character identifier prefix, used to salt
/// generated directory names.
pub fn fresh_short_id() -> (r: String)
    ensures
        r@.len() == 8,
{
    short_id(fresh_uuid())
}

/// Relies on `chrono::Utc::now` and `to_rfc3339_opts`: the current instant
/// rendered as an RFC 3339 timestamp. The reading depends on the clock, so
/// only the shape of the text is stated; a clock set before the epoch
/// aborts the process, and no input can provoke that.
#[verifier::external_body]
pub(crate) fn now_stamp() -> (r: String)
    ensures
        r@.len() > 0,
{
    chrono::Utc::now().to_rfc3339_opts(chrono::SecondsFormat::Secs, true)
}

} // verus!
