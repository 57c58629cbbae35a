//! RFC 3339 rendering of modification timestamps for the `updated` field of a
//! package record.

use vstd::prelude::*;

verus! {

/// The RFC 3339 rendering of a millisecond UNIX timestamp, in UTC; empty when
/// the timestamp lies outside the representable range.
pub uninterp spec fn rfc3339_utc(ms: u64) -> Seq<char>;

/// Relies on chrono: `DateTime::<Utc>::from_timestamp_millis` and `to_rfc3339`
/// render a timestamp as text, and that text is a function of the timestamp
/// alone.
#[verifier::external_body]
pub fn format_rfc3339_ms(ms: u64) -> (r: String)
    ensures
        r@ == rfc3339_utc(ms),
{
    match i64::try_from(ms).ok().and_then(chrono::DateTime::<chrono::Utc>::from_timestamp_millis) {
        Some(t) => t.to_rfc3339(),
        None => String::new(),
    }
}

} // verus!
