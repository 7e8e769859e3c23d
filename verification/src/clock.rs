//! Points in time, in nanoseconds, and their written form.
use vstd::prelude::*;

verus! {

/// The last wall-clock time that has a written form, in nanoseconds since the Unix epoch.
pub const MAX_WRITTEN_TIME: u128 = 253402207200999999999;

/// The nanoseconds of a second.
pub const SECOND: u128 = 1000000000;

/// A point in time: nanoseconds on a clock that never goes back, and nanoseconds of wall-clock
/// time since the Unix epoch.
#[derive(Clone, Copy, Debug, PartialEq, Eq, Structural)]
pub struct Moment {
    pub monotonic: u128,
    pub wall: u128,
}

/// The written form of a wall-clock time in UTC.
pub uninterp spec fn utc_text(nanoseconds: u128) -> Seq<char>;

/// The wall-clock time that a text denotes, in nanoseconds since the Unix epoch, if it denotes one.
pub uninterp spec fn instant_of(text: Seq<char>) -> Option<i128>;

/// The written form of a wall-clock time; the epoch stands for a time that has none.
pub open spec fn timestamp_text(nanoseconds: u128) -> Seq<char> {
    if nanoseconds <= MAX_WRITTEN_TIME {
        utc_text(nanoseconds)
    } else {
        "1970-01-01T00:00:00Z"@
    }
}

/// A written time: digits and the letters and signs of the internet date format.
pub open spec fn is_date_text(text: Seq<char>) -> bool {
    text.len() > 0 && forall|i: int|
        0 <= i < text.len() ==> {
            let c = #[trigger] text[i];
            '0' <= c <= '9' || c == 'T' || c == 'Z' || c == '-' || c == ':' || c == '.'
        }
}

/// Calls `jiff::Timestamp::from_nanosecond` and writes the timestamp as its `Display` does. It
/// fails exactly beyond `jiff::Timestamp::MAX`. What is written depends on the time alone and is
/// named here; of its characters it is claimed that they are those of an internet date in UTC.
#[verifier::external_body]
fn write_utc(nanoseconds: u128) -> (result: Option<String>)
    ensures
        result is Some <==> nanoseconds <= MAX_WRITTEN_TIME,
        result matches Some(text) ==> text@ == utc_text(nanoseconds) && is_date_text(text@),
{
    let signed = i128::try_from(nanoseconds).ok()?;
    let timestamp = jiff::Timestamp::from_nanosecond(signed).ok()?;
    Some(timestamp.to_string())
}

/// Calls `jiff::Timestamp::from_str` and `jiff::Timestamp::as_nanosecond`. Whether a text denotes an
/// instant, and which, depends on the text alone and is named here; no instant is beyond
/// `jiff::Timestamp::MAX`.
#[verifier::external_body]
pub(crate) fn parse_instant(text: &str) -> (result: Option<i128>)
    ensures
        result == instant_of(text@),
        result matches Some(nanoseconds) ==> nanoseconds <= MAX_WRITTEN_TIME,
{
    let timestamp: jiff::Timestamp = text.parse().ok()?;
    Some(timestamp.as_nanosecond())
}

/// Writes a wall-clock time.
pub fn timestamp(nanoseconds: u128) -> (result: String)
    ensures
        result@ == timestamp_text(nanoseconds),
        is_date_text(result@),
{
    proof {
        reveal_strlit("1970-01-01T00:00:00Z");
    }
    match write_utc(nanoseconds) {
        Some(text) => text,
        None => "1970-01-01T00:00:00Z".to_owned(),
    }
}

/// A time has its written form up to the last that has one; any later time is written as the epoch.
/// A second has a thousand million nanoseconds.
pub proof fn times_beyond_the_last_are_the_epoch(nanoseconds: u128)
    ensures
        nanoseconds <= 253402207200999999999 ==> timestamp_text(nanoseconds) == utc_text(
            nanoseconds,
        ),
        nanoseconds > 253402207200999999999 ==> timestamp_text(nanoseconds)
            == "1970-01-01T00:00:00Z"@,
        SECOND == 1000 * 1000 * 1000,
{
}

} // verus!
