use crate::ledger::is_drawn_id;
use crate::version::{is_clock_time, is_long_date, is_short_date};
use vstd::prelude::*;
use vstd::utf8::*;

verus! {

/// Reads the clock: `chrono::Utc::now`, rendered by `to_rfc3339`. Trusted.
/// The text differs from call to call; what is claimed of it is how it
/// begins. `now` gives no time before 1970, and the writer puts a year up to
/// 9999 as four digits and a later one as a plus sign and its five or six
/// digits, then a hyphen, two digits of the month, a hyphen, two digits of
/// the day, and `T`.
#[verifier::external_body]
pub(crate) fn now_iso() -> (out: String)
    ensures
        is_clock_time(encode_utf8(out@)),
{
    chrono::Utc::now().to_rfc3339()
}

/// Reads the clock: `chrono::Utc::now`, rendered by `format` as two-digit
/// year, month and day. Trusted. What is claimed of the text is its shape:
/// each of the three items is written as two digits, padded with a zero.
#[verifier::external_body]
pub(crate) fn today_short() -> (out: String)
    ensures
        is_short_date(encode_utf8(out@)),
{
    chrono::Utc::now().format("%y%m%d").to_string()
}

/// Reads the clock: `chrono::Utc::now`, rendered by `format` as year, month
/// and day. Trusted. What is claimed of the text is its shape: `now` gives
/// no time before 1970, the year is written as four digits up to 9999 and
/// as a plus sign and its five or six digits after that, and the month and
/// the day as two digits each.
#[verifier::external_body]
pub(crate) fn today_long() -> (out: String)
    ensures
        is_long_date(encode_utf8(out@)),
{
    chrono::Utc::now().format("%Y%m%d").to_string()
}

/// Draws a random identifier: `uuid::Uuid::new_v4`, rendered by
/// `to_string`. Trusted. The text differs from call to call; what is claimed
/// of it is its shape, the hyphenated lower-case form in which an
/// identifier is displayed.
#[verifier::external_body]
pub(crate) fn new_record_id() -> (out: String)
    ensures
        is_drawn_id(encode_utf8(out@)),
{
    uuid::Uuid::new_v4().to_string()
}

} // verus!
