//! Time and identifier sources from `jiff` and `uuid`.
//!
//! Timestamps are handled as Unix seconds (or nanoseconds where the
//! sub-second part matters).

use vstd::prelude::*;

verus! {

/// Smallest Unix second `jiff::Timestamp` represents.
pub const TIMESTAMP_MIN_SECOND: i64 = -377705023201;
/// Largest Unix second `jiff::Timestamp` represents.
pub const TIMESTAMP_MAX_SECOND: i64 = 253402207200;

/// Whether `jiff::Timestamp` can represent the second `s`.
pub open spec fn in_timestamp_range(s: int) -> bool {
    TIMESTAMP_MIN_SECOND <= s <= TIMESTAMP_MAX_SECOND
}

/// The current time, in Unix seconds. `jiff::Timestamp::now` followed by
/// `as_second`; nothing is promised of the value but that `jiff` can
/// represent it.
#[verifier::external_body]
pub(crate) fn now_seconds() -> (s: i64)
    ensures
        in_timestamp_range(s as int),
{
    jiff::Timestamp::now().as_second()
}

/// The current time, in Unix nanoseconds (`jiff::Timestamp::now` followed by
/// `as_nanosecond`); nothing is promised of the value.
#[verifier::external_body]
pub(crate) fn now_nanoseconds() -> (n: i128)
{
    jiff::Timestamp::now().as_nanosecond()
}

/// The RFC 3339 text `jiff` displays for the timestamp at Unix second `s`.
pub uninterp spec fn timestamp_text(s: i64) -> Seq<char>;

/// `jiff::Timestamp::from_second` followed by `to_string` (its `Display`).
/// The result is named; it depends on the second alone.
#[verifier::external_body]
pub(crate) fn timestamp_to_string(s: i64) -> (r: String)
    requires
        in_timestamp_range(s as int),
    ensures
        r@ == timestamp_text(s),
{
    match jiff::Timestamp::from_second(s) {
        Ok(ts) => ts.to_string(),
        Err(_) => String::new(),
    }
}

/// The instant `jiff` parses from a timestamp text, in Unix nanoseconds, or
/// `None` when the text is not a timestamp.
pub uninterp spec fn parsed_timestamp_nanos(text: Seq<char>) -> Option<i128>;

/// `str::parse::<jiff::Timestamp>` followed by `as_nanosecond`. The result
/// is named; it depends on the text alone.
#[verifier::external_body]
pub(crate) fn parse_timestamp_nanos(text: &str) -> (r: Option<i128>)
    ensures
        r == parsed_timestamp_nanos(text@),
{
    match text.parse::<jiff::Timestamp>() {
        Ok(ts) => Some(ts.as_nanosecond()),
        Err(_) => None,
    }
}

/// A lowercase hexadecimal digit.
pub open spec fn is_lower_hex(c: char) -> bool {
    ('0' <= c && c <= '9') || ('a' <= c && c <= 'f')
}

/// The hyphenated text form of a UUID: 36 characters, hyphens at 8, 13, 18
/// and 23, lowercase hexadecimal digits elsewhere.
pub open spec fn hyphenated_uuid(s: Seq<char>) -> bool {
    &&& s.len() == 36
    &&& forall|i: int| 0 <= i < 36 ==> if i == 8 || i == 13 || i == 18 || i == 23 {
        #[trigger] s[i] == '-'
    } else {
        is_lower_hex(s[i])
    }
}

/// A fresh time-ordered UUID (`uuid::Uuid::now_v7`) in its hyphenated text
/// form (`Display` writes `Hyphenated::encode_lower`). Which UUID depends on
/// the clock and on randomness; only its text form is promised.
#[verifier::external_body]
pub(crate) fn new_uuid_v7() -> (r: String)
    ensures
        hyphenated_uuid(r@),
{
    uuid::Uuid::now_v7().to_string()
}

/// The current time as `jiff` displays it (`jiff::Timestamp::now` followed
/// by `to_string`); nothing is promised of the text.
#[verifier::external_body]
pub(crate) fn now_text() -> (r: String)
{
    jiff::Timestamp::now().to_string()
}

} // verus!
