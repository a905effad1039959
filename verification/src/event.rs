//! Events: one event record read into its occurrence rule, its zone and its
//! properties.

use crate::datetime::ZonedDateTime;
use crate::duration::{duration_of, IcalDuration};
use crate::error::{Error, ErrorKind};
use crate::icaldatetime::{instant_of, IcalDateTime};
use crate::occurrence::OccurrenceRule;
use crate::property::{
    find_property, find_string, find_value, first_named, property_named, record_text,
    string_named, value_named, IcalCalendar, IcalEvent, Property, PropertyList,
};
use crate::recurrence::{rule_valid_for, Recurrence, RuleCheck};
use crate::seqs::lemma_filter_take_step;
use crate::text::{
    clock_seconds, format_time, fresh_uuid, parse_uuid, read_record, record_of_text,
    text_of_time, uuid_of_text, ISO8601_2004_UTC_FORMAT,
};
use crate::timespan::TimeSpan;
use crate::zone::Zone;
use std::rc::Rc;
use vstd::prelude::*;
use vstd::string::StringExecFns;

verus! {

/// The extension of the files that hold event records.
pub const ICAL_FILE_EXT: &'static str = "ics";

/// The product identifier written into new records.
pub const JACKAL_PRODID: &'static str = "-//JACKAL//NONSGML Calendar//EN";

/// The format version written into new records.
pub const JACKAL_CALENDAR_VERSION: &'static str = "2.0";

/// A file as the library sees it: its canonical path, and the stem and the
/// extension of its name where it has them.
#[derive(Debug)]
pub struct FilePath {
    pub path: String,
    pub stem: Option<String>,
    pub extension: Option<String>,
}

/// One event.
#[derive(Debug)]
pub struct Event {
    pub path: String,
    pub occurrence: OccurrenceRule,
    pub ical: IcalCalendar,
    pub tz: Zone,
}

/// One occurrence of an event: the event and the span of this occurrence.
#[derive(Debug)]
pub struct Occurrence {
    pub span: TimeSpan,
    pub event: Rc<Event>,
}

/// The zone of an event: that of its start where the start names one, else
/// UTC.
pub open spec fn event_zone(start: IcalDateTime) -> Zone {
    match start {
        IcalDateTime::Local(at) => at.zone,
        _ => Zone::utc_spec(),
    }
}

/// The span of an event with a start and an end. Two bare dates give whole
/// days; a bare date with an end that is none is refused; otherwise the span
/// runs from one instant to the other. An end before the start is refused.
pub open spec fn span_with_end(start: IcalDateTime, end: IcalDateTime, zone: Zone) -> Result<
    TimeSpan,
    ErrorKind,
> {
    match start {
        IcalDateTime::Date(first) => match end {
            IcalDateTime::Date(last) => match TimeSpan::Allday(first, Some(last), zone).checked() {
                Some(s) => Ok(s),
                None => Err(ErrorKind::DateParse),
            },
            _ => Err(ErrorKind::DateParse),
        },
        _ => match (start.datetime_in(zone), end.datetime_in(zone)) {
            (Some(b), Some(e)) => match TimeSpan::TimePoints(b, e).checked() {
                Some(s) => Ok(s),
                None => Err(ErrorKind::DateParse),
            },
            _ => Err(ErrorKind::DateParse),
        },
    }
}

/// The span of an event with a start and a length in seconds; a negative
/// length is refused.
pub open spec fn span_with_duration(start: IcalDateTime, seconds: i64, zone: Zone) -> Result<
    TimeSpan,
    ErrorKind,
> {
    match start.datetime_in(zone) {
        Some(b) => match TimeSpan::Duration(b, seconds).checked() {
            Some(s) => Ok(s),
            None => Err(ErrorKind::DateParse),
        },
        None => Err(ErrorKind::DateParse),
    }
}

/// The span of an event with nothing but a start: one whole day for a bare
/// date, a span of no length otherwise.
pub open spec fn span_alone(start: IcalDateTime, zone: Zone) -> Result<TimeSpan, ErrorKind> {
    match start {
        IcalDateTime::Date(d) => match TimeSpan::Allday(d, None, zone).checked() {
            Some(s) => Ok(s),
            None => Err(ErrorKind::DateParse),
        },
        _ => match start.datetime_in(zone) {
            Some(b) => Ok(TimeSpan::Instant(b)),
            None => Err(ErrorKind::DateParse),
        },
    }
}

/// The span and the zone of the event that a list of properties describes.
/// An end goes before a length, and a length before neither.
pub open spec fn span_of(props: Seq<Property>) -> Result<(TimeSpan, Zone), ErrorKind> {
    match property_named(props, "DTSTART"@) {
        None => Err(ErrorKind::EventMissingKey),
        Some(dtstart) => match instant_of(dtstart) {
            Err(k) => Err(k),
            Ok(start) => {
                let zone = event_zone(start);
                let span = match property_named(props, "DTEND"@) {
                    Some(dtend) => match instant_of(dtend) {
                        Err(k) => Err(k),
                        Ok(end) => span_with_end(start, end, zone),
                    },
                    None => match property_named(props, "DURATION"@) {
                        Some(duration) => match duration_of(duration) {
                            Err(k) => Err(k),
                            Ok(d) => span_with_duration(start, d.total_seconds() as i64, zone),
                        },
                        None => span_alone(start, zone),
                    },
                };
                match span {
                    Ok(s) => Ok((s, zone)),
                    Err(k) => Err(k),
                }
            },
        },
    }
}

/// The occurrence rule of an event with the span `span` and the rule text
/// `text`, of which the check gave `check`: a text that is no rule leaves
/// the event to occur once; a rule that does not go with the start of the
/// event is refused; a rule for the start makes the event recur.
pub open spec fn attached(span: TimeSpan, text: String, check: RuleCheck) -> Result<
    OccurrenceRule,
    ErrorKind,
> {
    match check {
        RuleCheck::Unparseable => Ok(OccurrenceRule::Onetime(span)),
        RuleCheck::Invalid => Err(ErrorKind::EventParse),
        RuleCheck::Valid => Ok(OccurrenceRule::Recurring(span, Recurrence { rule: text })),
    }
}

/// The check of a rule text for a span can give `check`: it says that the
/// text is a rule for the start exactly where that is so. In which way a
/// text fails is not fixed by the text.
pub open spec fn can_come_back(text: Seq<char>, span: TimeSpan, check: RuleCheck) -> bool {
    (check == RuleCheck::Valid) == rule_valid_for(
        text,
        span.begin_spec().utc as int,
        span.zone().index(),
    )
}

/// The occurrence rule of an event with the given span, where the check of
/// its rule property gave `check`: without such a property the event occurs
/// once.
pub open spec fn rule_of(props: Seq<Property>, span: TimeSpan, check: RuleCheck) -> Result<
    OccurrenceRule,
    ErrorKind,
> {
    match string_named(props, "RRULE"@) {
        None => Ok(OccurrenceRule::Onetime(span)),
        Some(text) => attached(span, text, check),
    }
}

/// The event that a record found at `path` describes, where the check of
/// its rule property gave `check`: its one event block gives the span, the
/// zone and the recurrence rule. A record with no event block describes
/// none, nor does one with more than one.
pub open spec fn event_of(path: String, ical: IcalCalendar, check: RuleCheck) -> Result<
    Event,
    ErrorKind,
> {
    if ical.events@.len() == 0 {
        Err(ErrorKind::NoEvents)
    } else if ical.events@.len() > 1 {
        Err(ErrorKind::MultipleEvents)
    } else {
        let props = ical.events@[0].properties@;
        match span_of(props) {
            Err(k) => Err(k),
            Ok((span, zone)) => match rule_of(props, span, check) {
                Err(k) => Err(k),
                Ok(occurrence) => Ok(Event { path, occurrence, ical, tz: zone }),
            },
        }
    }
}

/// The check of the rule property of a record can give `check`.
pub open spec fn check_fits(ical: IcalCalendar, check: RuleCheck) -> bool {
    ical.events@.len() == 1 ==> (span_of(ical.events@[0].properties@) matches Ok((span, _))
        ==> (string_named(ical.events@[0].properties@, "RRULE"@) matches Some(text)
        ==> can_come_back(text@, span, check)))
}

/// Reading the record found at `path` can give `outcome`: it is what the
/// record describes for some outcome of the check of its rule property. A
/// record without a rule property has one outcome only.
pub open spec fn is_event_of(path: String, ical: IcalCalendar, outcome: Result<Event, ErrorKind>)
    -> bool {
    exists|check: RuleCheck| check_fits(ical, check) && #[trigger] event_of(path, ical, check)
        == outcome
}

/// What came of reading an event, with the kind of the error only.
pub open spec fn outcome_of(r: Result<Event, Error>) -> Result<Event, ErrorKind> {
    match r {
        Ok(e) => Ok(e),
        Err(e) => Err(e.kind),
    }
}

/// A property has this name and this value, and no parameters.
pub open spec fn is_plain_property(p: Property, name: Seq<char>, value: Seq<char>) -> bool {
    &&& p.name@ == name
    &&& p.params.is_none()
    &&& p.value matches Some(v) && v@ == value
}

/// The property is the time stamp of the instant `now`.
pub open spec fn is_stamp_of(p: Property, now: i64) -> bool {
    text_of_time(now as int, ISO8601_2004_UTC_FORMAT@) matches Some(stamp) && is_plain_property(
        p,
        "DTSTAMP"@,
        stamp,
    )
}

/// A property may be added to a new record: it is none of those that the
/// record has of its own.
pub open spec fn is_free_name(p: Property) -> bool {
    p.name@ != "PRODID"@ && p.name@ != "VERSION"@
}

fn span_from_end(start: IcalDateTime, end: IcalDateTime, zone: Zone) -> (r: Result<TimeSpan, Error>)
    requires
        start.wf(),
        end.wf(),
        zone.wf(),
    ensures
        match r {
            Ok(s) => span_with_end(start, end, zone) == Ok::<TimeSpan, ErrorKind>(s) && s.wf(),
            Err(e) => span_with_end(start, end, zone) == Err::<TimeSpan, ErrorKind>(e.kind),
        },
{
    match start {
        IcalDateTime::Date(first) => match end {
            IcalDateTime::Date(last) => match TimeSpan::allday_until(first, last, zone) {
                Some(s) => Ok(s),
                None => Err(
                    Error::new(ErrorKind::DateParse, "the days do not begin and end in the zone"),
                ),
            },
            _ => Err(
                Error::new(
                    ErrorKind::DateParse,
                    "DTEND must also be of type 'DATE' if DTSTART is",
                ),
            ),
        },
        _ => match (start.as_datetime(zone), end.as_datetime(zone)) {
            (Some(b), Some(e)) => match TimeSpan::from_start_and_end(b, e) {
                Some(s) => Ok(s),
                None => Err(Error::new(ErrorKind::DateParse, "the end is before the start")),
            },
            _ => Err(Error::new(ErrorKind::DateParse, "the instants cannot be held")),
        },
    }
}

fn span_from_duration(start: IcalDateTime, seconds: i64, zone: Zone) -> (r: Result<
    TimeSpan,
    Error,
>)
    requires
        start.wf(),
        zone.wf(),
    ensures
        match r {
            Ok(s) => span_with_duration(start, seconds, zone) == Ok::<TimeSpan, ErrorKind>(s)
                && s.wf(),
            Err(e) => span_with_duration(start, seconds, zone) == Err::<TimeSpan, ErrorKind>(
                e.kind,
            ),
        },
{
    match start.as_datetime(zone) {
        Some(b) => match TimeSpan::from_start_and_duration(b, seconds) {
            Some(s) => Ok(s),
            None => Err(
                Error::new(ErrorKind::DateParse, "the length is negative or the end cannot be held"),
            ),
        },
        None => Err(Error::new(ErrorKind::DateParse, "the start cannot be held")),
    }
}

fn span_from_start(start: IcalDateTime, zone: Zone) -> (r: Result<TimeSpan, Error>)
    requires
        start.wf(),
        zone.wf(),
    ensures
        match r {
            Ok(s) => span_alone(start, zone) == Ok::<TimeSpan, ErrorKind>(s) && s.wf(),
            Err(e) => span_alone(start, zone) == Err::<TimeSpan, ErrorKind>(e.kind),
        },
{
    match start {
        IcalDateTime::Date(d) => match TimeSpan::allday(d, zone) {
            Some(s) => Ok(s),
            None => Err(
                Error::new(ErrorKind::DateParse, "the day does not begin and end in the zone"),
            ),
        },
        _ => match start.as_datetime(zone) {
            Some(b) => Ok(TimeSpan::from_start(b)),
            None => Err(Error::new(ErrorKind::DateParse, "the start cannot be held")),
        },
    }
}

impl Event {
    /// The properties of the event block.
    pub open spec fn props(self) -> Seq<Property> {
        self.ical.events@[0].properties@
    }

    /// The occurrence rule and the zone are well formed and the record has
    /// its event block.
    pub open spec fn wf(self) -> bool {
        &&& self.occurrence.wf()
        &&& self.tz.wf()
        &&& self.ical.events@.len() >= 1
    }

    /// The identifier of the event: the value of its `UID` property.
    pub open spec fn uid_spec(self) -> Option<Seq<char>> {
        value_named(self.props(), "UID"@)
    }

    /// The event is the one that the file holds: by the identifier in the
    /// file's name where that name is one, else by the path.
    pub open spec fn matches_spec(self, file: FilePath) -> bool {
        let named = match file.stem {
            Some(stem) => uuid_of_text(stem@),
            None => None,
        };
        match named {
            Some(id) => match self.uid_spec() {
                Some(uid) => uuid_of_text(uid) == Some(id),
                None => false,
            },
            None => self.path@ == file.path@,
        }
    }

    /// Reads the span and the zone from the properties of an event block.
    pub fn resolve_span(props: &Vec<Property>) -> (r: Result<(TimeSpan, Zone), Error>)
        ensures
            match r {
                Ok((s, z)) => span_of(props@) == Ok::<(TimeSpan, Zone), ErrorKind>((s, z))
                    && s.wf() && z.wf(),
                Err(e) => span_of(props@) == Err::<(TimeSpan, Zone), ErrorKind>(e.kind),
            },
    {
        let dtstart = match find_property(props, "DTSTART") {
            Some(p) => p,
            None => {
                return Err(Error::new(ErrorKind::EventMissingKey, "No DTSTART found"));
            },
        };
        let dtend = find_property(props, "DTEND");
        let duration = find_property(props, "DURATION");
        let start = match IcalDateTime::try_from(dtstart) {
            Ok(s) => s,
            Err(e) => {
                return Err(e);
            },
        };
        let zone = match start {
            IcalDateTime::Local(at) => at.zone,
            _ => Zone::utc(),
        };
        let span = match dtend {
            Some(p) => {
                let end = match IcalDateTime::try_from(p) {
                    Ok(v) => v,
                    Err(e) => {
                        return Err(e);
                    },
                };
                span_from_end(start, end, zone)
            },
            None => match duration {
                Some(p) => {
                    let length = match IcalDuration::try_from(p) {
                        Ok(d) => d,
                        Err(e) => {
                            return Err(e);
                        },
                    };
                    span_from_duration(start, length.as_seconds(), zone)
                },
                None => span_from_start(start, zone),
            },
        };
        match span {
            Ok(s) => Ok((s, zone)),
            Err(e) => Err(e),
        }
    }

    /// Attaches the recurrence rule of an event block to its span, and
    /// tells what the check of the rule gave.
    fn resolve_rule(props: &Vec<Property>, span: TimeSpan) -> (r: (
        Result<OccurrenceRule, Error>,
        Ghost<RuleCheck>,
    ))
        requires
            span.wf(),
        ensures
            string_named(props@, "RRULE"@) matches Some(text) ==> can_come_back(text@, span, r.1@),
            match r.0 {
                Ok(o) => rule_of(props@, span, r.1@) == Ok::<OccurrenceRule, ErrorKind>(o)
                    && o.span() == span,
                Err(e) => rule_of(props@, span, r.1@) == Err::<OccurrenceRule, ErrorKind>(e.kind),
            },
    {
        match find_string(props, "RRULE") {
            None => (Ok(OccurrenceRule::Onetime(span)), Ghost(RuleCheck::Unparseable)),
            Some(text) => {
                let begin = span.begin();
                let check = Recurrence::check(text.as_str(), begin.utc, span.timezone());
                (Self::attach_rule(span, text, check), Ghost(check))
            },
        }
    }

    /// The occurrence rule of an event with the span `span` and the rule
    /// text `text`, of which `check` is known: a text that is no rule leaves
    /// the event to occur once; a rule that does not go with the start of
    /// the event is refused; a rule for the start makes the event recur.
    pub fn attach_rule(span: TimeSpan, text: &String, check: RuleCheck) -> (r: Result<
        OccurrenceRule,
        Error,
    >)
        ensures
            match r {
                Ok(o) => attached(span, *text, check) == Ok::<OccurrenceRule, ErrorKind>(o),
                Err(e) => attached(span, *text, check) == Err::<OccurrenceRule, ErrorKind>(e.kind),
            },
    {
        match check {
            RuleCheck::Unparseable => Ok(OccurrenceRule::Onetime(span)),
            RuleCheck::Invalid => Err(
                Error::new(ErrorKind::EventParse, "the recurrence rule is not valid"),
            ),
            RuleCheck::Valid => Ok(
                OccurrenceRule::Recurring(span, Recurrence { rule: text.clone() }),
            ),
        }
    }

    /// Reads the one event of a record that was found at `path`. A record
    /// without an event block is refused, and so is one with several. The
    /// span, the zone and the rule text are fixed by the record; of a rule
    /// text that is a rule for the start the event recurs; of any other it
    /// occurs once or is refused, as the check of the rule says.
    pub fn from_ical(path: String, ical: IcalCalendar) -> (r: Result<Event, Error>)
        ensures
            is_event_of(path, ical, outcome_of(r)),
            r matches Ok(e) ==> e.wf(),
            ical.events@.len() == 0 ==> (r matches Err(e) && e.kind == ErrorKind::NoEvents),
            ical.events@.len() > 1 ==> (r matches Err(e) && e.kind == ErrorKind::MultipleEvents),
    {
        if ical.events.len() > 1 {
            proof {
                assert(event_of(path, ical, RuleCheck::Valid) == Err::<Event, ErrorKind>(
                    ErrorKind::MultipleEvents,
                ));
            }
            return Err(
                Error::new(
                    ErrorKind::MultipleEvents,
                    "the calendar has more than one event entry",
                ),
            );
        }
        if ical.events.len() == 0 {
            proof {
                assert(event_of(path, ical, RuleCheck::Valid) == Err::<Event, ErrorKind>(
                    ErrorKind::NoEvents,
                ));
            }
            return Err(Error::new(ErrorKind::NoEvents, "the calendar has no event entry"));
        }
        let (span, zone) = match Self::resolve_span(&ical.events[0].properties) {
            Ok(found) => found,
            Err(e) => {
                proof {
                    assert(event_of(path, ical, RuleCheck::Valid) == Err::<Event, ErrorKind>(
                        e.kind,
                    ));
                }
                return Err(e);
            },
        };
        let (attached, Ghost(check)) = Self::resolve_rule(&ical.events[0].properties, span);
        let r = match attached {
            Ok(occurrence) => Ok(Event { path, occurrence, ical, tz: zone }),
            Err(e) => Err(e),
        };
        proof {
            assert(check_fits(ical, check));
            assert(event_of(path, ical, check) == outcome_of(r));
        }
        r
    }

    /// Reads the event of the file at `path` from the text of the file:
    /// the first record of the text is read, and its one event.
    pub fn from_file(path: String, content: &str) -> (r: Result<Event, Error>)
        ensures
            r matches Ok(e) ==> e.wf(),
            match record_of_text(content@) {
                None => r matches Err(e) && e.kind == ErrorKind::Io,
                Some(texts) => exists|ical: IcalCalendar|
                    record_text(ical) == texts && #[trigger] is_event_of(
                        path,
                        ical,
                        outcome_of(r),
                    ),
            },
    {
        match read_record(content) {
            Some(ical) => {
                let r = Self::from_ical(path, ical);
                proof {
                    assert(is_event_of(path, ical, outcome_of(r)));
                }
                r
            },
            None => Err(Error::new(ErrorKind::Io, "No calendar could be read")),
        }
    }

    /// The name of the file that holds the event with the identifier `uid`:
    /// the identifier with the extension of event files.
    pub fn file_name(uid: &str) -> (r: String)
        ensures
            r@ == uid@ + "."@ + ICAL_FILE_EXT@,
    {
        let mut name = uid.to_owned();
        name.append(".");
        name.append(ICAL_FILE_EXT);
        name
    }

    /// A new event for a file that does not exist yet. The record gets its
    /// product identifier and version, and the event its identifier and its
    /// time stamp. Refused where the file is already there.
    pub fn new(path: &str, exists: bool, uid: &str, timestamp: &str, occurrence: OccurrenceRule)
        -> (r: Result<Event, Error>)
        requires
            occurrence.wf(),
        ensures
            r.is_ok() == !exists,
            r matches Err(e) ==> e.kind == ErrorKind::EventParse,
            r matches Ok(e) ==> {
                &&& e.wf()
                &&& e.path@ == path@
                &&& e.occurrence == occurrence
                &&& e.tz == occurrence.span().zone()
                &&& e.ical.properties@.len() == 2
                &&& is_plain_property(e.ical.properties@[0], "PRODID"@, JACKAL_PRODID@)
                &&& is_plain_property(e.ical.properties@[1], "VERSION"@, JACKAL_CALENDAR_VERSION@)
                &&& e.ical.events@.len() == 1
                &&& e.ical.events@[0].alarms@.len() == 0
                &&& e.props().len() == 2
                &&& is_plain_property(e.props()[0], "UID"@, uid@)
                &&& is_plain_property(e.props()[1], "DTSTAMP"@, timestamp@)
            },
    {
        if exists {
            return Err(Error::new(ErrorKind::EventParse, "the file already exists"));
        }
        let mut properties: Vec<Property> = Vec::new();
        properties.push(Property::new("PRODID", JACKAL_PRODID));
        properties.push(Property::new("VERSION", JACKAL_CALENDAR_VERSION));
        let mut event_properties: Vec<Property> = Vec::new();
        event_properties.push(Property::new("UID", uid));
        event_properties.push(Property::new("DTSTAMP", timestamp));
        let mut events: Vec<IcalEvent> = Vec::new();
        events.push(IcalEvent::new(event_properties));
        let tz = occurrence.timezone();
        proof {
            assert(occurrence.span().wf());
        }
        Ok(Event { path: path.to_owned(), occurrence, ical: IcalCalendar { properties, events }, tz })
    }

    /// A new event for a file that does not exist yet, as `new` makes it,
    /// with a fresh identifier and the time of the machine as its time
    /// stamp. Refused where the file is already there, or where the time of
    /// the machine cannot be written.
    pub fn create(path: &str, exists: bool, occurrence: OccurrenceRule) -> (r: Result<Event, Error>)
        requires
            occurrence.wf(),
        ensures
            exists ==> r is Err,
            r matches Err(e) ==> e.kind == ErrorKind::EventParse,
            r matches Ok(e) ==> {
                &&& e.wf()
                &&& e.path@ == path@
                &&& e.occurrence == occurrence
                &&& e.props().len() == 2
                &&& e.uid_spec() matches Some(uid) && uuid_of_text(uid).is_some()
                &&& exists|now: i64| #[trigger] is_stamp_of(e.props()[1], now)
            },
    {
        let uid = fresh_uuid();
        let now = clock_seconds();
        match format_time(now, ISO8601_2004_UTC_FORMAT) {
            Some(stamp) => {
                let r = Self::new(path, exists, uid.as_str(), stamp.as_str(), occurrence);
                proof {
                    if r.is_ok() {
                        let e = r.unwrap();
                        reveal_with_fuel(first_named, 2);
                        assert(is_stamp_of(e.props()[1], now));
                        assert(e.props()[0].name@ == "UID"@);
                        assert(e.uid_spec() == Some(uid@));
                    }
                }
                r
            },
            None => Err(Error::new(ErrorKind::EventParse, "the time cannot be written")),
        }
    }

    /// A new event as `new` makes it, with more properties for the event:
    /// those of `properties`, in their order, that are none of the record's
    /// own.
    pub fn new_with_ical_properties(
        path: &str,
        exists: bool,
        uid: &str,
        timestamp: &str,
        occurrence: OccurrenceRule,
        properties: PropertyList,
    ) -> (r: Result<Event, Error>)
        requires
            occurrence.wf(),
        ensures
            r.is_ok() == !exists,
            r matches Err(e) ==> e.kind == ErrorKind::EventParse,
            r matches Ok(e) ==> {
                &&& e.wf()
                &&& e.path@ == path@
                &&& e.occurrence == occurrence
                &&& e.props().len() >= 2
                &&& is_plain_property(e.props()[0], "UID"@, uid@)
                &&& is_plain_property(e.props()[1], "DTSTAMP"@, timestamp@)
                &&& e.props().skip(2) == properties@.filter(|p: Property| is_free_name(p))
            },
    {
        let Event { path: event_path, occurrence: rule, ical, tz } = match Self::new(
            path,
            exists,
            uid,
            timestamp,
            occurrence,
        ) {
            Ok(e) => e,
            Err(e) => {
                return Err(e);
            },
        };
        let IcalCalendar { properties: own, events: mut events } = ical;
        let IcalEvent { properties: mut added, alarms } = match events.pop() {
            Some(e) => e,
            None => vstd::pervasive::unreached(),
        };
        let ghost base = added@;
        let ghost given = properties@;
        let ghost free = |p: Property| is_free_name(p);
        let prodid = "PRODID".to_owned();
        let version = "VERSION".to_owned();
        let mut rest = properties;
        let mut i: usize = 0;
        let n = rest.len();
        while i < n
            invariant
                0 <= i <= n,
                n == given.len(),
                rest@ == given.skip(i as int),
                prodid@ == "PRODID"@,
                version@ == "VERSION"@,
                free == (|p: Property| is_free_name(p)),
                added@ == base + given.take(i as int).filter(free),
            decreases n - i,
        {
            let p = rest.remove(0);
            proof {
                lemma_filter_take_step(given, free, i as int);
                assert(given.skip(i as int).remove(0) =~= given.skip(i + 1));
            }
            if !(p.name == prodid) && !(p.name == version) {
                added.push(p);
            }
            i = i + 1;
        }
        proof {
            assert(given.take(n as int) == given);
            assert(added@.skip(2) =~= given.filter(free));
        }
        events.push(IcalEvent { properties: added, alarms });
        Ok(Event { path: event_path, occurrence: rule, ical: IcalCalendar { properties: own, events }, tz })
    }

    /// Gives the event a title: the first `SUMMARY` property of the event
    /// gets the title as its value; where there is none, one is added at
    /// the end.
    pub fn set_title(&mut self, title: &str)
        requires
            old(self).wf(),
        ensures
            final(self).wf(),
            final(self).path == old(self).path,
            final(self).occurrence == old(self).occurrence,
            final(self).tz == old(self).tz,
            final(self).ical.properties == old(self).ical.properties,
            final(self).ical.events@.len() == old(self).ical.events@.len(),
            forall|k: int|
                1 <= k < final(self).ical.events@.len() ==> final(self).ical.events@[k] == old(
                    self,
                ).ical.events@[k],
            final(self).ical.events@[0].alarms == old(self).ical.events@[0].alarms,
            value_named(final(self).props(), "SUMMARY"@) == Some(title@),
            match first_named(old(self).props(), "SUMMARY"@, 0) {
                Some(i) => {
                    &&& final(self).props().len() == old(self).props().len()
                    &&& final(self).props()[i].name == old(self).props()[i].name
                    &&& final(self).props()[i].params == old(self).props()[i].params
                    &&& forall|j: int|
                        0 <= j < old(self).props().len() && j != i ==> final(self).props()[j]
                            == old(self).props()[j]
                },
                None => {
                    &&& final(self).props().drop_last() == old(self).props()
                    &&& is_plain_property(final(self).props().last(), "SUMMARY"@, title@)
                },
            },
    {
        let IcalEvent { properties: mut properties, alarms } = self.ical.events.remove(0);
        let ghost before = properties@;
        let key = "SUMMARY".to_owned();
        let mut i: usize = 0;
        let mut found = false;
        while !found && i < properties.len()
            invariant
                0 <= i <= properties.len(),
                properties@ == before,
                key@ == "SUMMARY"@,
                first_named(before, "SUMMARY"@, 0) == first_named(before, "SUMMARY"@, i as int),
                found ==> i < properties.len() && before[i as int].name@ == "SUMMARY"@,
            decreases properties.len() - i + (if found { 0int } else { 1int }),
        {
            if properties[i].name == key {
                found = true;
            } else {
                i = i + 1;
            }
        }
        if found {
            let Property { name, params, value: _ } = properties.remove(i);
            properties.insert(i, Property { name, params, value: Some(title.to_owned()) });
            proof {
                lemma_first_named_kept(before, properties@, "SUMMARY"@, 0, i as int);
            }
        } else {
            properties.push(Property::new("SUMMARY", title));
            proof {
                assert(properties@.drop_last() =~= before);
                lemma_first_named_pushed(before, properties@.last(), "SUMMARY"@, 0);
            }
        }
        self.ical.events.insert(0, IcalEvent { properties, alarms });
    }

    /// Gives the event a title.
    pub fn set_summary(&mut self, summary: &str)
        requires
            old(self).wf(),
        ensures
            final(self).wf(),
            final(self).path == old(self).path,
            final(self).occurrence == old(self).occurrence,
            final(self).tz == old(self).tz,
            final(self).ical.properties == old(self).ical.properties,
            value_named(final(self).props(), "SUMMARY"@) == Some(summary@),
    {
        self.set_title(summary);
    }

    /// Reads the event in another zone. Where its span cannot be held there
    /// nothing is changed, and the answer is `false`.
    pub fn set_tz(&mut self, zone: Zone) -> (r: bool)
        requires
            old(self).wf(),
            zone.wf(),
        ensures
            final(self).wf(),
            final(self).path == old(self).path,
            final(self).ical == old(self).ical,
            match old(self).occurrence.span().with_tz_spec(zone) {
                Some(span) => {
                    &&& r
                    &&& final(self).tz == zone
                    &&& final(self).occurrence.span() == span
                    &&& final(self).occurrence.rule() == old(self).occurrence.rule()
                },
                None => !r && final(self).tz == old(self).tz && final(self).occurrence == old(
                    self,
                ).occurrence,
            },
    {
        let moved = match &self.occurrence {
            OccurrenceRule::Onetime(ts) => match ts.with_tz(zone) {
                Some(span) => Some(OccurrenceRule::Onetime(span)),
                None => None,
            },
            OccurrenceRule::Recurring(ts, rule) => match ts.with_tz(zone) {
                Some(span) => Some(OccurrenceRule::Recurring(span, rule.duplicate())),
                None => None,
            },
        };
        match moved {
            Some(occurrence) => {
                self.occurrence = occurrence;
                self.tz = zone;
                true
            },
            None => false,
        }
    }

    /// The identifier of the event: the value of its `UID` property.
    pub fn uid(&self) -> (r: Option<&str>)
        requires
            self.wf(),
        ensures
            match r {
                Some(v) => self.uid_spec() == Some(v@),
                None => self.uid_spec().is_none(),
            },
    {
        find_value(&self.ical.events[0].properties, "UID")
    }

    /// The identifier of the event, as the property holds it.
    pub fn uid_string(&self) -> (r: Option<&String>)
        requires
            self.wf(),
        ensures
            match r {
                Some(v) => string_named(self.props(), "UID"@) == Some(*v),
                None => string_named(self.props(), "UID"@).is_none(),
            },
    {
        find_string(&self.ical.events[0].properties, "UID")
    }

    /// The title of the event: the value of its `SUMMARY` property.
    pub fn title(&self) -> (r: Option<&str>)
        requires
            self.wf(),
        ensures
            match r {
                Some(v) => value_named(self.props(), "SUMMARY"@) == Some(v@),
                None => value_named(self.props(), "SUMMARY"@).is_none(),
            },
    {
        find_value(&self.ical.events[0].properties, "SUMMARY")
    }

    /// The title of the event.
    pub fn summary(&self) -> (r: Option<&str>)
        requires
            self.wf(),
        ensures
            match r {
                Some(v) => value_named(self.props(), "SUMMARY"@) == Some(v@),
                None => value_named(self.props(), "SUMMARY"@).is_none(),
            },
    {
        self.title()
    }

    /// The description of the event: the value of its `DESCRIPTION` property.
    pub fn description(&self) -> (r: Option<&str>)
        requires
            self.wf(),
        ensures
            match r {
                Some(v) => value_named(self.props(), "DESCRIPTION"@) == Some(v@),
                None => value_named(self.props(), "DESCRIPTION"@).is_none(),
            },
    {
        find_value(&self.ical.events[0].properties, "DESCRIPTION")
    }

    /// The path of the file that holds the event.
    pub fn path(&self) -> (r: &str)
        ensures
            r@ == self.path@,
    {
        self.path.as_str()
    }

    pub fn occurrence_rule(&self) -> (r: &OccurrenceRule)
        ensures
            *r == self.occurrence,
    {
        &self.occurrence
    }

    pub fn tz(&self) -> (r: &Zone)
        ensures
            *r == self.tz,
    {
        &self.tz
    }

    /// The event block of the record.
    pub fn ical_event(&self) -> (r: &IcalEvent)
        requires
            self.wf(),
        ensures
            *r == self.ical.events@[0],
    {
        &self.ical.events[0]
    }

    /// The instant at which the event begins.
    pub fn begin(&self) -> (r: ZonedDateTime)
        requires
            self.wf(),
        ensures
            r == self.occurrence.span().begin_spec(),
    {
        self.occurrence.begin()
    }

    /// The instant at which the event ends.
    pub fn end(&self) -> (r: ZonedDateTime)
        requires
            self.wf(),
        ensures
            r == self.occurrence.span().end_spec(),
    {
        self.occurrence.end()
    }

    /// The length of the event in seconds.
    pub fn duration(&self) -> (r: i64)
        requires
            self.wf(),
        ensures
            r == self.occurrence.span().duration_spec(),
    {
        self.occurrence.duration()
    }

    /// Whether the event is the one that a file holds. A file whose stem is
    /// an identifier holds the event with that identifier; any other file
    /// holds the event that was read from its path.
    pub fn matches(&self, file: &FilePath) -> (r: bool)
        requires
            self.wf(),
        ensures
            r == self.matches_spec(*file),
    {
        let named = match &file.stem {
            Some(stem) => parse_uuid(stem.as_str()),
            None => None,
        };
        let own = match self.uid() {
            Some(uid) => parse_uuid(uid),
            None => None,
        };
        Self::same_file(named, own, self.path == file.path)
    }

    /// Whether an event is the one that a file holds, from the identifier
    /// that the name of the file is, the identifier of the event, and
    /// whether the event was read from the path of the file. Where the name
    /// of the file is an identifier, the identifiers decide; else the path.
    pub fn same_file(named: Option<u128>, own: Option<u128>, same_path: bool) -> (r: bool)
        ensures
            r == match named {
                Some(id) => own == Some(id),
                None => same_path,
            },
    {
        match named {
            Some(id) => match own {
                Some(mine) => mine == id,
                None => false,
            },
            None => same_path,
        }
    }
}

impl Occurrence {
    pub open spec fn wf(self) -> bool {
        self.span.wf() && self.event.wf()
    }

    /// The instant at which the occurrence begins.
    pub fn begin(&self) -> (r: ZonedDateTime)
        requires
            self.wf(),
        ensures
            r == self.span.begin_spec(),
            r.wf(),
    {
        self.span.begin()
    }

    /// The instant at which the occurrence ends.
    pub fn end(&self) -> (r: ZonedDateTime)
        requires
            self.wf(),
        ensures
            r == self.span.end_spec(),
            r.wf(),
    {
        self.span.end()
    }

    /// One slice for each calendar day that the occurrence touches.
    pub fn days(&self) -> (r: Option<Vec<TimeSpan>>)
        requires
            self.wf(),
        ensures
            r.is_some() == self.span.days_spec().is_some(),
            r matches Some(v) ==> {
                &&& v@ == self.span.days_spec().unwrap()
                &&& forall|i: int| 0 <= i < v.len() ==> (#[trigger] v[i]).wf()
            },
    {
        self.span.days()
    }

    /// The event that occurs.
    pub fn event(&self) -> (r: &Event)
        ensures
            *r == *self.event,
    {
        &*self.event
    }
}

/// The first property of a name stays the first when the property in its
/// place keeps the name.
proof fn lemma_first_named_kept(
    before: Seq<Property>,
    after: Seq<Property>,
    name: Seq<char>,
    from: int,
    at: int,
)
    requires
        0 <= from <= at < before.len(),
        before.len() == after.len(),
        first_named(before, name, from) == Some(at),
        after[at].name@ == name,
        forall|j: int| 0 <= j < before.len() && j != at ==> after[j] == before[j],
    ensures
        first_named(after, name, from) == Some(at),
    decreases at - from,
{
    if from < at {
        lemma_first_named_kept(before, after, name, from + 1, at);
    }
}

/// Where no property has a name, a property of that name added at the end is
/// the first.
proof fn lemma_first_named_pushed(before: Seq<Property>, new: Property, name: Seq<char>, from: int)
    requires
        0 <= from <= before.len(),
        first_named(before, name, from).is_none(),
        new.name@ == name,
    ensures
        first_named(before.push(new), name, from) == Some(before.len() as int),
    decreases before.len() - from,
{
    if from < before.len() {
        assert(before.push(new)[from] == before[from]);
        lemma_first_named_pushed(before, new, name, from + 1);
    }
}

/// An event whose start is a bare date, and which has neither an end nor a
/// length, lasts that whole day in UTC; one whose start is an instant lasts
/// no time, at that instant read in its zone.
pub proof fn lemma_start_alone(props: Seq<Property>)
    requires
        property_named(props, "DTSTART"@).is_some(),
        property_named(props, "DTEND"@).is_none(),
        property_named(props, "DURATION"@).is_none(),
        span_of(props).is_ok(),
    ensures
        ({
            let start = instant_of(property_named(props, "DTSTART"@).unwrap()).unwrap();
            let (span, zone) = span_of(props).unwrap();
            match start {
                IcalDateTime::Date(d) => span == TimeSpan::Allday(d, None, Zone::utc_spec()),
                IcalDateTime::Floating(t) => span == TimeSpan::Instant(
                    ZonedDateTime::at(Zone::utc_spec(), t as int),
                ),
                IcalDateTime::Utc(t) => span == TimeSpan::Instant(
                    ZonedDateTime::at(Zone::utc_spec(), t as int),
                ),
                IcalDateTime::Local(at) => zone == at.zone && span == TimeSpan::Instant(
                    ZonedDateTime::at(at.zone, at.utc as int),
                ),
            }
        }),
{
}

} // verus!
