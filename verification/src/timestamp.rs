//! The timestamp decoder: `YYMMDDhhmmss` followed by `W` or `S`.

use chrono::NaiveDateTime;
use vstd::prelude::*;
use crate::error::DsmrError;
use crate::measurement::{all_digits, is_digit};

verus! {

/// Offset from UTC of winter (standard) time, in seconds.
pub const WINTER_OFFSET: i32 = 3600;

/// Offset from UTC of summer (daylight saving) time, in seconds.
pub const SUMMER_OFFSET: i32 = 7200;

/// Number of digits of the wall-clock part of a timestamp.
pub const CLOCK_DIGITS: usize = 12;

/// An instant, in whole seconds since 1970-01-01T00:00:00 UTC, with the
/// fixed offset from UTC under which the meter wrote it.
#[derive(Clone, Copy, Debug, PartialEq, Eq, Structural)]
pub struct Timestamp {
    pub epoch_seconds: i64,
    pub offset_seconds: i32,
}

/// What chrono reads from `digits` under the format `%y%m%d%H%M%S`: the
/// seconds from 1970-01-01T00:00:00 to that date and time of day, no offset
/// applied; `None` where chrono rejects `digits`.
pub uninterp spec fn civil_seconds(digits: Seq<char>) -> Option<i64>;

/// Calls `chrono::NaiveDateTime::parse_from_str` with the format
/// `%y%m%d%H%M%S`, and turns the date and time it returns into seconds with
/// `NaiveDateTime::and_utc` and `DateTime::timestamp`. The contract gives that
/// result its name and claims nothing else of it.
#[verifier::external_body]
fn read_civil_seconds(digits: &str) -> (r: Option<i64>)
    ensures
        r == civil_seconds(digits@),
{
    match NaiveDateTime::parse_from_str(digits, "%y%m%d%H%M%S") {
        Ok(naive) => Some(naive.and_utc().timestamp()),
        Err(_) => None,
    }
}

/// The offset that the trailing letter of a timestamp selects.
pub open spec fn offset_of(flag: char) -> Option<i32> {
    if flag == 'W' {
        Some(WINTER_OFFSET)
    } else if flag == 'S' {
        Some(SUMMER_OFFSET)
    } else {
        None
    }
}

/// The instant at which a clock that runs `offset_of(flag)` ahead of UTC
/// shows `local` seconds. There is none where the letter selects no offset or
/// the instant is out of range.
pub open spec fn instant_at(local: i64, flag: char) -> Result<Timestamp, DsmrError> {
    match offset_of(flag) {
        Some(offset) => if local - offset >= i64::MIN {
            Ok(Timestamp { epoch_seconds: (local - offset) as i64, offset_seconds: offset })
        } else {
            Err(DsmrError::MalformedTimestamp)
        },
        None => Err(DsmrError::MalformedTimestamp),
    }
}

/// Interprets a wall-clock time under the offset that `flag` selects.
pub fn resolve_instant(local: i64, flag: char) -> (r: Result<Timestamp, DsmrError>)
    ensures
        r == instant_at(local, flag),
{
    let offset: i32 = if flag == 'W' {
        WINTER_OFFSET
    } else if flag == 'S' {
        SUMMER_OFFSET
    } else {
        return Err(DsmrError::MalformedTimestamp);
    };
    match local.checked_sub(offset as i64) {
        Some(epoch_seconds) => Ok(Timestamp { epoch_seconds, offset_seconds: offset }),
        None => Err(DsmrError::MalformedTimestamp),
    }
}

/// The shape of a timestamp payload: twelve digits and one more character.
pub open spec fn well_shaped(text: Seq<char>) -> bool {
    text.len() == CLOCK_DIGITS + 1 && all_digits(text.take(CLOCK_DIGITS as int))
}

/// What the timestamp decoder makes of a payload.
pub open spec fn timestamp_of(text: Seq<char>) -> Result<Timestamp, DsmrError> {
    if well_shaped(text) {
        match civil_seconds(text.take(CLOCK_DIGITS as int)) {
            Some(local) => instant_at(local, text[CLOCK_DIGITS as int]),
            None => Err(DsmrError::MalformedTimestamp),
        }
    } else {
        Err(DsmrError::MalformedTimestamp)
    }
}

/// Checks the shape of a timestamp payload.
pub fn has_timestamp_shape(text: &str) -> (r: bool)
    ensures
        r == well_shaped(text@),
{
    if text.unicode_len() != CLOCK_DIGITS + 1 {
        return false;
    }
    let mut i: usize = 0;
    while i < CLOCK_DIGITS
        invariant
            i <= CLOCK_DIGITS,
            text@.len() == CLOCK_DIGITS + 1,
            forall|j: int| 0 <= j < i ==> is_digit(#[trigger] text@[j]),
        decreases CLOCK_DIGITS - i,
    {
        let c = text.get_char(i);
        if !(c >= '0' && c <= '9') {
            assert(text@.take(CLOCK_DIGITS as int)[i as int] == c);
            return false;
        }
        i += 1;
    }
    true
}

/// Decodes a timestamp payload into the instant it names.
pub fn parse_date(date: &str) -> (r: Result<Timestamp, DsmrError>)
    ensures
        r == timestamp_of(date@),
{
    if !has_timestamp_shape(date) {
        return Err(DsmrError::MalformedTimestamp);
    }
    let digits = date.substring_char(0, CLOCK_DIGITS);
    assert(digits@ =~= date@.take(CLOCK_DIGITS as int));
    match read_civil_seconds(digits) {
        Some(local) => resolve_instant(local, date.get_char(CLOCK_DIGITS)),
        None => Err(DsmrError::MalformedTimestamp),
    }
}

/// For every twelve digits that name a date and time, followed by `W` or `S`:
/// the decoded instant lies one hour (`W`) or two (`S`) before the same
/// reading of a UTC clock, and carries that offset, so that read under its
/// own offset it shows the wall-clock time that was written. Stated where
/// the instant is in range.
pub proof fn lemma_timestamp_fixed_offset(digits: Seq<char>, flag: char)
    requires
        digits.len() == CLOCK_DIGITS,
        all_digits(digits),
        civil_seconds(digits) is Some,
        flag == 'W' || flag == 'S',
        civil_seconds(digits)->0 - SUMMER_OFFSET >= i64::MIN,
    ensures
        timestamp_of(digits.push(flag)) is Ok,
        timestamp_of(digits.push(flag))->Ok_0.offset_seconds == (if flag == 'W' {
            WINTER_OFFSET
        } else {
            SUMMER_OFFSET
        }),
        timestamp_of(digits.push(flag))->Ok_0.epoch_seconds + timestamp_of(
            digits.push(flag),
        )->Ok_0.offset_seconds == civil_seconds(digits)->0,
{
    assert(digits.push(flag).take(CLOCK_DIGITS as int) =~= digits);
}

/// A payload whose last character is neither `W` nor `S` is malformed, and
/// so is one that is not twelve digits and a letter.
pub proof fn lemma_timestamp_rejected(text: Seq<char>)
    requires
        !well_shaped(text) || offset_of(text[CLOCK_DIGITS as int]) is None,
    ensures
        timestamp_of(text) == Err::<Timestamp, DsmrError>(DsmrError::MalformedTimestamp),
{
}

} // verus!
