//! Reading dates, times and identifiers from text, through `chrono` and
//! `uuid`. What a text denotes is named by an uninterpreted function for
//! each reader; the calls are trusted.

use crate::property::{record_text, IcalAlarm, IcalCalendar, IcalEvent, Property, RecordText};
use std::fmt::Write;
use vstd::prelude::*;

verus! {

/// The format of a local date and time in an event record.
pub const ISO8601_2004_LOCAL_FORMAT: &'static str = "%Y%m%dT%H%M%S";

/// The format of a UTC instant in an event record.
pub const ISO8601_2004_UTC_FORMAT: &'static str = "%Y%m%dT%H%M%SZ";

/// The format of a date in an event record.
pub const ISO8601_2004_LOCAL_FORMAT_DATE: &'static str = "%Y%m%d";

/// The local time, in seconds since 1970-01-01T00:00:00, that `text`
/// denotes when read by `chrono` in `format` as a date with a time of day.
pub uninterp spec fn naive_datetime_of_text(text: Seq<char>, format: Seq<char>) -> Option<i64>;

/// The first second, counted from 1970-01-01T00:00:00, of the date that
/// `text` denotes when read by `chrono` in `format` as a date.
pub uninterp spec fn naive_date_of_text(text: Seq<char>, format: Seq<char>) -> Option<i64>;

/// The text that `chrono` writes for the instant `seconds` in `format`: none
/// where the instant or the format cannot be written.
pub uninterp spec fn text_of_time(seconds: int, format: Seq<char>) -> Option<Seq<char>>;

/// The 128 bits of the identifier that `text` denotes when read by `uuid`.
pub uninterp spec fn uuid_of_text(text: Seq<char>) -> Option<u128>;

/// The texts of the first record that `ical` reads from `text`: none where
/// the text holds no record or the first one is malformed.
pub uninterp spec fn record_of_text(text: Seq<char>) -> Option<RecordText>;

/// `ical::IcalParser::new` on the bytes of the text, and the first item of
/// the parser. The properties of the calendar, of its event blocks and of
/// their alarm blocks are moved into the library's own types; the other
/// components are dropped. Trusted: the result holds the texts of the named
/// record.
#[verifier::external_body]
pub(crate) fn read_record(text: &str) -> (r: Option<IcalCalendar>)
    ensures
        match r {
            Some(ical) => record_of_text(text@) == Some(record_text(ical)),
            None => record_of_text(text@).is_none(),
        },
{
    let calendar = ical::IcalParser::new(text.as_bytes()).next()?.ok()?;
    let own = |p: ical::property::Property| Property { name: p.name, params: p.params, value: p.value };
    let alarm = |a: ical::parser::ical::component::IcalAlarm| IcalAlarm {
        properties: a.properties.into_iter().map(own).collect(),
    };
    let event = |e: ical::parser::ical::component::IcalEvent| IcalEvent {
        properties: e.properties.into_iter().map(own).collect(),
        alarms: e.alarms.into_iter().map(alarm).collect(),
    };
    Some(IcalCalendar {
        properties: calendar.properties.into_iter().map(own).collect(),
        events: calendar.events.into_iter().map(event).collect(),
    })
}

/// `chrono::NaiveDateTime::parse_from_str`, with the result given as its
/// count of seconds. Trusted: the result is the named reading of the text.
#[verifier::external_body]
pub(crate) fn parse_naive_datetime(text: &str, format: &str) -> (r: Option<i64>)
    ensures
        r == naive_datetime_of_text(text@, format@),
{
    chrono::NaiveDateTime::parse_from_str(text, format).ok().map(|dt| dt.and_utc().timestamp())
}

/// `chrono::NaiveDate::parse_from_str`, with the result given as the count
/// of seconds at which the date begins. Trusted: the result is the named
/// reading of the text.
#[verifier::external_body]
pub(crate) fn parse_naive_date(text: &str, format: &str) -> (r: Option<i64>)
    ensures
        r == naive_date_of_text(text@, format@),
{
    chrono::NaiveDate::parse_from_str(text, format).ok().map(
        |d| d.and_time(chrono::NaiveTime::MIN).and_utc().timestamp(),
    )
}

/// `uuid::Uuid::parse_str`, with the result given as its 128 bits. Trusted:
/// the result is the named reading of the text.
#[verifier::external_body]
pub(crate) fn parse_uuid(text: &str) -> (r: Option<u128>)
    ensures
        r == uuid_of_text(text@),
{
    uuid::Uuid::parse_str(text).ok().map(|u| u.as_u128())
}

/// `uuid::Uuid::new_v4`, written as text. Nothing is said of which
/// identifier comes. Trusted: the text is one that `uuid` reads as an
/// identifier.
#[verifier::external_body]
pub(crate) fn fresh_uuid() -> (r: String)
    ensures
        uuid_of_text(r@).is_some(),
{
    uuid::Uuid::new_v4().to_string()
}

/// `chrono::Utc::now`, as its count of seconds. Nothing is said of the
/// result: it is the time of the machine.
#[verifier::external_body]
pub(crate) fn clock_seconds() -> (r: i64) {
    chrono::Utc::now().timestamp()
}

/// `chrono::DateTime::from_timestamp` and `chrono::DateTime::format`,
/// written into a text. Trusted: the result is the named text.
#[verifier::external_body]
pub(crate) fn format_time(seconds: i64, format: &str) -> (r: Option<String>)
    ensures
        match r {
            Some(text) => text_of_time(seconds as int, format@) == Some(text@),
            None => text_of_time(seconds as int, format@).is_none(),
        },
{
    let at = chrono::DateTime::from_timestamp(seconds, 0)?;
    let mut text = String::new();
    write!(text, "{}", at.format(format)).ok()?;
    Some(text)
}

} // verus!
