//! Wall-clock timestamps in the form that delay records carry.

use vstd::prelude::*;

verus! {

/// Nanoseconds from the Unix epoch back to the start of the year 0.
pub const YEAR_ZERO: i128 = -62_167_219_200_000_000_000;

/// Nanoseconds from the Unix epoch to the start of the year 10000.
pub const YEAR_TEN_THOUSAND: i128 = 253_402_300_800_000_000_000;

/// The RFC 3339 text of a moment in UTC, given in nanoseconds since the Unix
/// epoch; `None` where there is none.
pub uninterp spec fn rfc3339(unix_nanos: i128) -> Option<Seq<char>>;

/// An ASCII digit.
pub open spec fn is_digit(c: char) -> bool {
    '0' <= c <= '9'
}

/// The shape of an RFC 3339 timestamp in UTC: `yyyy-mm-ddThh:mm:ss`, perhaps a
/// fraction of a second, and a closing `Z`.
pub open spec fn is_utc_timestamp(text: Seq<char>) -> bool {
    &&& text.len() >= 20
    &&& text[4] == '-' && text[7] == '-' && text[10] == 'T' && text[13] == ':' && text[16] == ':'
    &&& forall|i: int|
        0 <= i < 19 && i != 4 && i != 7 && i != 10 && i != 13 && i != 16 ==> is_digit(
            #[trigger] text[i],
        )
    &&& text.last() == 'Z'
}

/// `time::OffsetDateTime::now_utc` reads the system clock; its result is handed
/// on as nanoseconds since the Unix epoch. Nothing is claimed of it: it is
/// whatever the clock shows.
#[verifier::external_body]
fn now_unix_nanos() -> (unix_nanos: i128) {
    time::OffsetDateTime::now_utc().unix_timestamp_nanos()
}

/// `time::OffsetDateTime::format` with the well-known format `Rfc3339`, on the
/// moment in UTC that lies `unix_nanos` nanoseconds from the Unix epoch. The
/// contract names the text and claims that there is one exactly for the years 0
/// to 9999, and that it has the shape of a UTC timestamp.
#[verifier::external_body]
fn format_rfc3339(unix_nanos: i128) -> (text: Option<String>)
    ensures
        rfc3339(unix_nanos) == (match text {
            Some(t) => Some(t@),
            None => None,
        }),
        text is Some <==> YEAR_ZERO <= unix_nanos < YEAR_TEN_THOUSAND,
        text matches Some(t) ==> is_utc_timestamp(t@),
{
    let moment = time::OffsetDateTime::from_unix_timestamp_nanos(unix_nanos).ok()?;
    moment.format(&time::format_description::well_known::Rfc3339).ok()
}

/// The system clock may show this moment: reading it can give this value.
pub closed spec fn clock_shows(unix_nanos: i128) -> bool {
    call_ensures(now_unix_nanos, (), unix_nanos)
}

/// What the clock shows is what a reading of it can return, and nothing else.
proof fn lemma_clock_shows(unix_nanos: i128)
    ensures
        clock_shows(unix_nanos) <==> call_ensures(now_unix_nanos, (), unix_nanos),
{
}

/// The timestamp that a record made at that moment carries: the RFC 3339 text,
/// or an empty text where there is none.
pub open spec fn stamp_at(unix_nanos: i128) -> Seq<char> {
    match rfc3339(unix_nanos) {
        Some(text) => text,
        None => Seq::empty(),
    }
}

/// The timestamp for a moment given in nanoseconds since the Unix epoch.
///
/// It is empty before the year 0 and from the year 10000 on.
pub fn stamp(unix_nanos: i128) -> (text: String)
    ensures
        text@ == stamp_at(unix_nanos),
        rfc3339(unix_nanos) matches Some(t) ==> text@ == t,
        rfc3339(unix_nanos) is None ==> text@.len() == 0,
        YEAR_ZERO <= unix_nanos < YEAR_TEN_THOUSAND ==> is_utc_timestamp(text@),
        !(YEAR_ZERO <= unix_nanos < YEAR_TEN_THOUSAND) ==> text@.len() == 0,
{
    match format_rfc3339(unix_nanos) {
        Some(text) => text,
        None => String::new(),
    }
}

/// The timestamp for the present moment.
pub fn now_stamp() -> (text: String)
    ensures
        exists|now: i128| #[trigger] clock_shows(now) && text@ == stamp_at(now),
        text@.len() == 0 || is_utc_timestamp(text@),
{
    let now: i128 = now_unix_nanos();
    proof {
        lemma_clock_shows(now);
    }
    stamp(now)
}

/// A moment that has an RFC 3339 text is stamped with that text, letter for
/// letter; one that has none is stamped with nothing.
pub proof fn lemma_stamp_is_rfc3339(unix_nanos: i128)
    ensures
        rfc3339(unix_nanos) matches Some(text) ==> stamp_at(unix_nanos) == text,
        rfc3339(unix_nanos) is None ==> stamp_at(unix_nanos).len() == 0,
{
}

/// The timestamp shape is read position by position: digits but for the two
/// dashes, the `T`, the two colons and the closing `Z`.
pub proof fn lemma_timestamp_shape(text: Seq<char>)
    requires
        is_utc_timestamp(text),
    ensures
        text.len() >= 20,
        forall|i: int|
            #![trigger text[i]]
            0 <= i < 19 ==> {
                ||| (i == 4 || i == 7) && text[i] as u32 == 0x2d
                ||| i == 10 && text[i] as u32 == 0x54
                ||| (i == 13 || i == 16) && text[i] as u32 == 0x3a
                ||| 0x30 <= text[i] as u32 <= 0x39
            },
        text[text.len() - 1] as u32 == 0x5a,
{
}

/// The years that have a text are 0 to 9999, counted by the Gregorian calendar
/// with days of 86400 seconds: of the 1970 years before the epoch 478 are leap
/// years, and four centuries have 146097 days.
pub proof fn lemma_years()
    ensures
        YEAR_ZERO == -(1970 * 365 + 478) * 86_400 * 1_000_000_000,
        YEAR_TEN_THOUSAND - YEAR_ZERO == 25 * 146_097 * 86_400 * 1_000_000_000,
{
}

} // verus!
