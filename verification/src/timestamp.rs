//! The timestamp decoder. The fixed input shape `YYYY-MM-DD HH:MM:SS[.frac]
//! UTC` is parsed by chrono; the library only decides, and records, whether
//! the field was accepted.

use vstd::prelude::*;

use crate::errors::IngestError;

verus! {

#[verifier::external_type_specification]
#[verifier::external_body]
pub struct ExNaiveDateTime(chrono::NaiveDateTime);

/// Whether chrono accepts `s` as a timestamp of the fixed input shape.
/// The outcome depends on the characters of `s` alone.
pub uninterp spec fn timestamp_ok(s: Seq<char>) -> bool;

/// The instant chrono reads out of an accepted timestamp field: a function
/// of the characters of `s` alone, fractional seconds included.
pub uninterp spec fn timestamp_value(s: Seq<char>) -> chrono::NaiveDateTime;

/// Relies on `chrono::NaiveDateTime::parse_from_str` with the fixed format
/// string `%Y-%m-%d %H:%M:%S%.f UTC`: parsing is deterministic, a function
/// of the input string alone, and succeeds exactly on strings of that shape,
/// returning the instant they write down.
#[verifier::external_body]
fn parse_timestamp_utc(s: &str) -> (r: Option<chrono::NaiveDateTime>)
    ensures
        r is Some <==> timestamp_ok(s@),
        r matches Some(t) ==> t == timestamp_value(s@),
{
    chrono::NaiveDateTime::parse_from_str(s, "%Y-%m-%d %H:%M:%S%.f UTC").ok()
}

/// Decode a timestamp field of the shape `YYYY-MM-DD HH:MM:SS[.frac] UTC`.
///
/// `position` is the ordinal of the record the field belongs to; it is only
/// carried into the error.
pub fn decode_timestamp(s: &str, position: usize) -> (r: Result<
    chrono::NaiveDateTime,
    IngestError,
>)
    ensures
        r is Ok <==> timestamp_ok(s@),
        r is Ok ==> r->Ok_0 == timestamp_value(s@),
        r is Err ==> (r->Err_0 matches IngestError::MalformedTimestamp { position: p, raw }
            && p == position && raw@ == s@),
{
    match parse_timestamp_utc(s) {
        Some(t) => Ok(t),
        None => Err(IngestError::MalformedTimestamp { position, raw: s.to_owned() }),
    }
}

} // verus!
