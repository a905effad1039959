//! The four forms of an instant in an event record: a bare date, a floating
//! local time, a UTC instant and an instant in a named zone.

use crate::datetime::{
    day_in_range, day_number, day_of, local_in_range, Date, ZonedDateTime, DAY_LIMIT,
};
use crate::error::{Error, ErrorKind};
use crate::property::Property;
use crate::text::{
    naive_date_of_text, naive_datetime_of_text, parse_naive_date, parse_naive_datetime,
    ISO8601_2004_LOCAL_FORMAT, ISO8601_2004_LOCAL_FORMAT_DATE,
};
use crate::zone::{zone_index_of, Pick, Zone, DAY_SECONDS, TIME_LIMIT};
use vstd::prelude::*;
use vstd::string::StrSliceExecFns;

verus! {

/// The instant of a start or end property.
#[derive(Clone, Copy, Debug, PartialEq, Eq, Structural)]
pub enum IcalDateTime {
    /// A bare date.
    Date(Date),
    /// A local time without a zone, in seconds since 1970-01-01T00:00:00.
    Floating(i64),
    /// An instant, in seconds since 1970-01-01T00:00:00 UTC.
    Utc(i64),
    /// An instant in a named zone.
    Local(ZonedDateTime),
}

/// The text ends with the UTC marker `Z`.
pub open spec fn ends_with_marker(text: Seq<char>) -> bool {
    text.len() > 0 && text.last() == 'Z'
}

/// The text without its UTC marker.
pub open spec fn without_marker(text: Seq<char>) -> Seq<char> {
    if ends_with_marker(text) {
        text.drop_last()
    } else {
        text
    }
}

/// The bare date that begins at the second `date`.
pub open spec fn date_form(date: Option<i64>) -> Result<IcalDateTime, ErrorKind> {
    match date {
        Some(d) => if local_in_range(d as int) {
            Ok(IcalDateTime::Date(Date { day: day_of(d as int) as i64 }))
        } else {
            Err(ErrorKind::DateParse)
        },
        None => Err(ErrorKind::DateParse),
    }
}

/// The form of an instant, from what its property holds: whether it is
/// marked as a date, the zone it names, whether its text ends with the UTC
/// marker, and what the text denotes as a date with a time and as a date.
///
/// A property marked as a date is a bare date. Otherwise a text that is a
/// date with a time is, in this order: the earliest instant with that local
/// time in the zone, where a zone is named; a UTC instant, where the text
/// ends with the marker; a floating time. A text that is only a date is a
/// bare date.
pub open spec fn instant_form(
    date_valued: bool,
    zone: Option<Zone>,
    utc_marker: bool,
    datetime: Option<i64>,
    date: Option<i64>,
) -> Result<IcalDateTime, ErrorKind> {
    if date_valued {
        date_form(date)
    } else {
        match datetime {
            Some(t) => match zone {
                Some(z) => match ZonedDateTime::try_at_local(z, t as int, Pick::Earliest) {
                    Some(at) => Ok(IcalDateTime::Local(at)),
                    None => Err(ErrorKind::DateParse),
                },
                None => if !local_in_range(t as int) {
                    Err(ErrorKind::DateParse)
                } else if utc_marker {
                    Ok(IcalDateTime::Utc(t))
                } else {
                    Ok(IcalDateTime::Floating(t))
                },
            },
            None => date_form(date),
        }
    }
}

/// The zone that a property names by its `TZID` parameter: an error where
/// the parameter has no value or names no zone of the database.
pub open spec fn zone_of(p: Property) -> Result<Option<Zone>, ErrorKind> {
    match p.param_values("TZID"@) {
        None => Ok(None),
        Some(values) => if values.len() == 0 {
            Err(ErrorKind::DateParse)
        } else {
            match zone_index_of(values[0]@) {
                Some(i) => Ok(Some(Zone::at(i))),
                None => Err(ErrorKind::DateParse),
            }
        },
    }
}

/// The instant that a start or end property denotes.
pub open spec fn instant_of(p: Property) -> Result<IcalDateTime, ErrorKind> {
    match p.value {
        None => Err(ErrorKind::DateParse),
        Some(v) => if p.has_param_value("VALUE"@, "DATE"@) {
            date_form(naive_date_of_text(v@, ISO8601_2004_LOCAL_FORMAT_DATE@))
        } else {
            match zone_of(p) {
                Err(k) => Err(k),
                Ok(zone) => instant_form(
                    false,
                    zone,
                    ends_with_marker(v@),
                    naive_datetime_of_text(without_marker(v@), ISO8601_2004_LOCAL_FORMAT@),
                    naive_date_of_text(v@, ISO8601_2004_LOCAL_FORMAT_DATE@),
                ),
            }
        },
    }
}

/// The text without its UTC marker, and whether it had one.
fn split_marker(text: &str) -> (r: (&str, bool))
    ensures
        r.0@ == without_marker(text@),
        r.1 == ends_with_marker(text@),
{
    let n = text.unicode_len();
    if n > 0 && text.get_char(n - 1) == 'Z' {
        let body = text.substring_char(0, n - 1);
        assert(text@.subrange(0, n - 1) =~= text@.drop_last());
        (body, true)
    } else {
        (text, false)
    }
}

fn date_from_seconds(date: Option<i64>) -> (r: Result<IcalDateTime, Error>)
    ensures
        match r {
            Ok(v) => date_form(date) == Ok::<IcalDateTime, ErrorKind>(v) && v.wf(),
            Err(e) => date_form(date) == Err::<IcalDateTime, ErrorKind>(e.kind),
        },
{
    match date {
        Some(d) => {
            if d < -DAY_LIMIT * DAY_SECONDS || d >= (DAY_LIMIT + 1) * DAY_SECONDS {
                Err(Error::new(ErrorKind::DateParse, "the date is out of range"))
            } else {
                Ok(IcalDateTime::Date(Date { day: day_number(d) }))
            }
        },
        None => Err(Error::new(ErrorKind::DateParse, "no date could be read")),
    }
}

impl IcalDateTime {
    pub open spec fn wf(self) -> bool {
        match self {
            IcalDateTime::Date(d) => d.wf(),
            IcalDateTime::Floating(t) => local_in_range(t as int),
            IcalDateTime::Utc(t) => local_in_range(t as int),
            IcalDateTime::Local(at) => at.wf(),
        }
    }

    /// The instant read in `zone`: a bare date begins at its local midnight
    /// there; a floating time is taken as it stands, as if it were UTC.
    pub open spec fn datetime_in(self, zone: Zone) -> Option<ZonedDateTime> {
        match self {
            IcalDateTime::Date(d) => ZonedDateTime::try_at_local(zone, d.midnight(), Pick::Single),
            IcalDateTime::Floating(t) => ZonedDateTime::try_at(zone, t as int),
            IcalDateTime::Utc(t) => ZonedDateTime::try_at(zone, t as int),
            IcalDateTime::Local(at) => ZonedDateTime::try_at(zone, at.utc as int),
        }
    }

    /// The whole days of a length in seconds, counted towards zero.
    pub open spec fn whole_days(seconds: int) -> int {
        if seconds >= 0 {
            seconds / (DAY_SECONDS as int)
        } else {
            -((-seconds) / (DAY_SECONDS as int))
        }
    }

    /// The instant `seconds` later, in the same form.
    pub open spec fn moved_by(self, seconds: i64) -> Option<IcalDateTime> {
        if seconds < -2 * TIME_LIMIT || seconds > 2 * TIME_LIMIT {
            None
        } else {
            match self {
                IcalDateTime::Date(d) => if day_in_range(d.day + Self::whole_days(seconds as int)) {
                    Some(
                        IcalDateTime::Date(
                            Date { day: (d.day + Self::whole_days(seconds as int)) as i64 },
                        ),
                    )
                } else {
                    None
                },
                IcalDateTime::Floating(t) => if local_in_range(t + seconds) {
                    Some(IcalDateTime::Floating((t + seconds) as i64))
                } else {
                    None
                },
                IcalDateTime::Utc(t) => if local_in_range(t + seconds) {
                    Some(IcalDateTime::Utc((t + seconds) as i64))
                } else {
                    None
                },
                IcalDateTime::Local(at) => match ZonedDateTime::try_at(at.zone, at.utc + seconds) {
                    Some(moved) => Some(IcalDateTime::Local(moved)),
                    None => None,
                },
            }
        }
    }

    /// The date of the instant read in `zone`.
    pub open spec fn date_in(self, zone: Zone) -> Option<Date> {
        match self {
            IcalDateTime::Date(d) => Some(d),
            IcalDateTime::Floating(t) => Some(Date { day: day_of(t as int) as i64 }),
            IcalDateTime::Utc(t) => match ZonedDateTime::try_at(zone, t as int) {
                Some(at) => Some(at.date()),
                None => None,
            },
            IcalDateTime::Local(at) => match ZonedDateTime::try_at(zone, at.utc as int) {
                Some(moved) => Some(moved.date()),
                None => None,
            },
        }
    }

    /// The form of an instant, from what its property holds.
    pub fn from_parts(
        date_valued: bool,
        zone: Option<Zone>,
        utc_marker: bool,
        datetime: Option<i64>,
        date: Option<i64>,
    ) -> (r: Result<IcalDateTime, Error>)
        requires
            zone matches Some(z) ==> z.wf(),
        ensures
            match r {
                Ok(v) => instant_form(date_valued, zone, utc_marker, datetime, date) == Ok::<
                    IcalDateTime,
                    ErrorKind,
                >(v) && v.wf(),
                Err(e) => instant_form(date_valued, zone, utc_marker, datetime, date) == Err::<
                    IcalDateTime,
                    ErrorKind,
                >(e.kind),
            },
    {
        if date_valued {
            return date_from_seconds(date);
        }
        match datetime {
            Some(t) => match zone {
                Some(z) => match ZonedDateTime::from_local(z, t, Pick::Earliest) {
                    Some(at) => Ok(IcalDateTime::Local(at)),
                    None => Err(
                        Error::new(ErrorKind::DateParse, "the local time does not exist in its zone"),
                    ),
                },
                None => {
                    if t < -DAY_LIMIT * DAY_SECONDS || t >= (DAY_LIMIT + 1) * DAY_SECONDS {
                        Err(Error::new(ErrorKind::DateParse, "the time is out of range"))
                    } else if utc_marker {
                        Ok(IcalDateTime::Utc(t))
                    } else {
                        Ok(IcalDateTime::Floating(t))
                    }
                },
            },
            None => date_from_seconds(date),
        }
    }

    /// The zone that a property names by its `TZID` parameter.
    pub fn zone_from(value: &Property) -> (r: Result<Option<Zone>, Error>)
        ensures
            match r {
                Ok(z) => zone_of(*value) == Ok::<Option<Zone>, ErrorKind>(z) && (z matches Some(
                    zone,
                ) ==> zone.wf()),
                Err(e) => zone_of(*value) == Err::<Option<Zone>, ErrorKind>(e.kind),
            },
    {
        match value.find_param("TZID") {
            None => Ok(None),
            Some(values) => {
                if values.len() == 0 {
                    return Err(Error::new(ErrorKind::DateParse, "the zone parameter is empty"));
                }
                match Zone::from_name(values[0].as_str()) {
                    Some(zone) => Ok(Some(zone)),
                    None => Err(Error::new(ErrorKind::DateParse, "the zone is not known")),
                }
            },
        }
    }

    /// The instant that a start or end property denotes.
    pub fn try_from(value: &Property) -> (r: Result<IcalDateTime, Error>)
        ensures
            match r {
                Ok(v) => instant_of(*value) == Ok::<IcalDateTime, ErrorKind>(v) && v.wf(),
                Err(e) => instant_of(*value) == Err::<IcalDateTime, ErrorKind>(e.kind),
            },
    {
        let text = match &value.value {
            Some(v) => v.as_str(),
            None => {
                return Err(Error::new(ErrorKind::DateParse, "Missing datetime value"));
            },
        };
        if value.param_has_value("VALUE", "DATE") {
            return date_from_seconds(parse_naive_date(text, ISO8601_2004_LOCAL_FORMAT_DATE));
        }
        let zone = match Self::zone_from(value) {
            Ok(z) => z,
            Err(e) => {
                return Err(e);
            },
        };
        let (body, utc_marker) = split_marker(text);
        let datetime = parse_naive_datetime(body, ISO8601_2004_LOCAL_FORMAT);
        let date = parse_naive_date(text, ISO8601_2004_LOCAL_FORMAT_DATE);
        Self::from_parts(false, zone, utc_marker, datetime, date)
    }

    /// The bare date that a text denotes.
    pub fn from_str(s: &str) -> (r: Result<IcalDateTime, Error>)
        ensures
            match r {
                Ok(v) => date_form(naive_date_of_text(s@, ISO8601_2004_LOCAL_FORMAT_DATE@)) == Ok::<
                    IcalDateTime,
                    ErrorKind,
                >(v) && v.wf(),
                Err(e) => date_form(naive_date_of_text(s@, ISO8601_2004_LOCAL_FORMAT_DATE@))
                    is Err && e.kind == ErrorKind::TimeParse,
            },
    {
        match date_from_seconds(parse_naive_date(s, ISO8601_2004_LOCAL_FORMAT_DATE)) {
            Ok(v) => Ok(v),
            Err(_) => Err(Error::new(ErrorKind::TimeParse, "Could not extract datetime")),
        }
    }

    /// The UTC form of an instant.
    pub fn from_datetime(at: ZonedDateTime) -> (r: IcalDateTime)
        ensures
            r == IcalDateTime::Utc(at.utc),
    {
        IcalDateTime::Utc(at.utc)
    }

    pub fn is_date(&self) -> (r: bool)
        ensures
            r == (*self is Date),
    {
        match self {
            IcalDateTime::Date(_) => true,
            _ => false,
        }
    }

    /// The instant read in `zone`: none where the library cannot hold it, or
    /// where a bare date does not begin exactly once in the zone.
    pub fn as_datetime(&self, zone: Zone) -> (r: Option<ZonedDateTime>)
        requires
            self.wf(),
            zone.wf(),
        ensures
            r == self.datetime_in(zone),
            r matches Some(at) ==> at.wf(),
    {
        match self {
            IcalDateTime::Date(d) => ZonedDateTime::from_local(
                zone,
                d.midnight_seconds(),
                Pick::Single,
            ),
            IcalDateTime::Floating(t) => ZonedDateTime::from_utc(zone, *t),
            IcalDateTime::Utc(t) => ZonedDateTime::from_utc(zone, *t),
            IcalDateTime::Local(at) => at.with_timezone(zone),
        }
    }

    /// The instant in the form of an instant of `zone`.
    pub fn with_tz(&self, zone: Zone) -> (r: Option<IcalDateTime>)
        requires
            self.wf(),
            zone.wf(),
        ensures
            r == match self.datetime_in(zone) {
                Some(at) => Some(IcalDateTime::Local(at)),
                None => None,
            },
            r matches Some(v) ==> v.wf(),
    {
        match self.as_datetime(zone) {
            Some(at) => Some(IcalDateTime::Local(at)),
            None => None,
        }
    }

    /// The instant `seconds` later, in the same form: a bare date moves by
    /// the whole days of the length. None where the result cannot be held.
    pub fn and_duration(&self, seconds: i64) -> (r: Option<IcalDateTime>)
        requires
            self.wf(),
        ensures
            r == self.moved_by(seconds),
            r matches Some(v) ==> v.wf(),
    {
        if seconds < -2 * TIME_LIMIT || seconds > 2 * TIME_LIMIT {
            return None;
        }
        match self {
            IcalDateTime::Date(d) => {
                let days: i64 = seconds / DAY_SECONDS;
                match Date::from_days(d.day + days) {
                    Some(moved) => Some(IcalDateTime::Date(moved)),
                    None => None,
                }
            },
            IcalDateTime::Floating(t) => {
                let moved: i64 = *t + seconds;
                if moved < -DAY_LIMIT * DAY_SECONDS || moved >= (DAY_LIMIT + 1) * DAY_SECONDS {
                    None
                } else {
                    Some(IcalDateTime::Floating(moved))
                }
            },
            IcalDateTime::Utc(t) => {
                let moved: i64 = *t + seconds;
                if moved < -DAY_LIMIT * DAY_SECONDS || moved >= (DAY_LIMIT + 1) * DAY_SECONDS {
                    None
                } else {
                    Some(IcalDateTime::Utc(moved))
                }
            },
            IcalDateTime::Local(at) => match at.checked_add(seconds) {
                Some(moved) => Some(IcalDateTime::Local(moved)),
                None => None,
            },
        }
    }

    /// The date of the instant read in `zone`.
    pub fn as_date(&self, zone: Zone) -> (r: Option<Date>)
        requires
            self.wf(),
            zone.wf(),
        ensures
            r == self.date_in(zone),
            r matches Some(d) ==> d.wf(),
    {
        match self {
            IcalDateTime::Date(d) => Some(*d),
            IcalDateTime::Floating(t) => Some(Date { day: day_number(*t) }),
            IcalDateTime::Utc(t) => match ZonedDateTime::from_utc(zone, *t) {
                Some(at) => Some(at.date_naive()),
                None => None,
            },
            IcalDateTime::Local(at) => match at.with_timezone(zone) {
                Some(moved) => Some(moved.date_naive()),
                None => None,
            },
        }
    }
}

/// The four forms of an instant. A property marked as a date is a bare
/// date. A date with a time is an instant of the named zone where a zone is
/// named; else a UTC instant where the text ends with the marker; else a
/// floating time, taken as it stands.
pub proof fn lemma_instant_forms(
    date_valued: bool,
    zone: Option<Zone>,
    utc_marker: bool,
    datetime: Option<i64>,
    date: Option<i64>,
)
    requires
        instant_form(date_valued, zone, utc_marker, datetime, date) is Ok,
    ensures
        ({
            let form = instant_form(date_valued, zone, utc_marker, datetime, date).unwrap();
            &&& date_valued ==> form is Date
            &&& !date_valued && datetime.is_some() && zone.is_some() ==> (form matches IcalDateTime::Local(
                at,
            ) && at.zone == zone.unwrap() && at.local() == datetime.unwrap())
            &&& !date_valued && datetime.is_some() && zone.is_none() && utc_marker ==> form
                == IcalDateTime::Utc(datetime.unwrap())
            &&& !date_valued && datetime.is_some() && zone.is_none() && !utc_marker ==> form
                == IcalDateTime::Floating(datetime.unwrap())
            &&& !date_valued && datetime.is_none() ==> form is Date
        }),
{
}

impl Default for IcalDateTime {
    fn default() -> (r: IcalDateTime)
        ensures
            r == IcalDateTime::Floating(0),
    {
        IcalDateTime::Floating(0)
    }
}

} // verus!
