//! Time stamps of probe records, in RFC 3339 form.

use vstd::prelude::*;

verus! {

/// The RFC 3339 text (UTC, seconds fraction shown to 0, 3, 6 or 9 digits as
/// needed) of the instant `nanos` nanoseconds after the Unix epoch, as
/// `chrono` writes it.
pub uninterp spec fn rfc3339_text(nanos: i64) -> Seq<char>;

/// Calls `chrono::DateTime::<Utc>::from_timestamp_nanos`, which accepts every
/// `i64`, then `DateTime::to_rfc3339`. The contract claims only that the text
/// is `rfc3339_text(nanos)`, a function of `nanos` alone; what that text is
/// is left to `chrono`.
#[verifier::external_body]
pub(crate) fn rfc3339(nanos: i64) -> (s: String)
    ensures
        s@ == rfc3339_text(nanos),
{
    chrono::DateTime::from_timestamp_nanos(nanos).to_rfc3339()
}

} // verus!
