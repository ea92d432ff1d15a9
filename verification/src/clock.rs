//! How a moment is written in the headers of a request.

use chrono::DateTime;
use vstd::prelude::*;

verus! {

/// A moment, in seconds since the start of 1970, that the calendar of `chrono` can hold.
pub open spec fn on_calendar(now: int) -> bool {
    -8334601228800 <= now <= 8210266876799
}

/// A moment in the years that RFC 2822 can write: those of four digits.
pub open spec fn four_digit_year(now: int) -> bool {
    -62167219200 <= now <= 253402300799
}

/// The form of the moment of a request.
pub const MOMENT_FORMAT: &'static str = "%Y%m%dT%H%M%SZ";

/// The form of the day of a request.
pub const DAY_FORMAT: &'static str = "%Y%m%d";

/// A moment in UTC as RFC 2822 writes it.
pub uninterp spec fn rfc2822_text(now: int) -> Seq<char>;

/// A moment in UTC in a form that names its parts by `%` and a letter.
pub uninterp spec fn utc_text(now: int, form: Seq<char>) -> Seq<char>;

/// Writes a moment by `chrono::DateTime::to_rfc2822`, in UTC.
///
/// The claim is that the moment alone decides the text. Other years make the call panic.
#[verifier::external_body]
pub(crate) fn rfc2822(now: i64) -> (r: String)
    requires
        four_digit_year(now as int),
    ensures
        r@ == rfc2822_text(now as int),
{
    DateTime::from_timestamp(now, 0).unwrap().to_rfc2822()
}

/// Writes a moment by `chrono::DateTime::format`, in UTC.
///
/// The claim is that the moment and the form alone decide the text. A form with an unknown part
/// makes the call panic, and a moment off the calendar has no date.
#[verifier::external_body]
pub(crate) fn utc(now: i64, form: &str) -> (r: String)
    requires
        on_calendar(now as int),
        form@ == MOMENT_FORMAT@ || form@ == DAY_FORMAT@,
    ensures
        r@ == utc_text(now as int, form@),
{
    DateTime::from_timestamp(now, 0).unwrap().format(form).to_string()
}

} // verus!
