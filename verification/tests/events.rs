use jackal::datetime::{Date, ZonedDateTime};
use jackal::error::ErrorKind;
use jackal::event::{Event, FilePath};
use jackal::icaldatetime::IcalDateTime;
use jackal::occurrence::OccurrenceRule;
use jackal::property::{find_property, find_value, IcalCalendar, IcalEvent, Property};
use jackal::recurrence::{Recurrence, RuleCheck};
use jackal::timespan::TimeSpan;
use jackal::zone::{Pick, Zone};

const JAN_1: i64 = 1_704_067_200;

fn plain(name: &str, value: &str) -> Property {
    Property::new(name, value)
}

fn with_param(name: &str, param: &str, param_value: &str, value: &str) -> Property {
    Property {
        name: name.to_string(),
        params: Some(vec![(param.to_string(), vec![param_value.to_string()])]),
        value: Some(value.to_string()),
    }
}

fn record(properties: Vec<Property>) -> IcalCalendar {
    IcalCalendar { properties: Vec::new(), events: vec![IcalEvent::new(properties)] }
}

fn parse(properties: Vec<Property>) -> Result<Event, ErrorKind> {
    Event::from_ical("/cal/event.ics".to_string(), record(properties)).map_err(|e| e.kind())
}

fn utc(t: i64) -> ZonedDateTime {
    ZonedDateTime::from_utc(Zone::utc(), t).unwrap()
}

#[test]
fn a_bare_date_is_a_date() {
    let p = with_param("DTSTART", "VALUE", "DATE", "20240301");
    let d = Date::from_ymd(2024, 3, 1).unwrap();
    assert_eq!(IcalDateTime::try_from(&p).unwrap(), IcalDateTime::Date(d));
    let q = plain("DTSTART", "20240301");
    assert_eq!(IcalDateTime::try_from(&q).unwrap(), IcalDateTime::Date(d));
    assert!(IcalDateTime::try_from(&q).unwrap().is_date());
}

#[test]
fn a_zone_parameter_gives_a_zoned_instant() {
    let p = with_param("DTSTART", "TZID", "Europe/Berlin", "20240101T090000");
    let berlin = Zone::from_name("Europe/Berlin").unwrap();
    match IcalDateTime::try_from(&p).unwrap() {
        IcalDateTime::Local(at) => {
            assert_eq!(at.zone, berlin);
            assert_eq!(at.utc, JAN_1 + 8 * 3_600);
            assert_eq!(at.offset, 3_600);
        }
        other => panic!("{:?}", other),
    }
}

#[test]
fn a_doubled_local_time_is_the_earliest_instant() {
    let p = with_param("DTSTART", "TZID", "Europe/Berlin", "20241027T023000");
    match IcalDateTime::try_from(&p).unwrap() {
        IcalDateTime::Local(at) => assert_eq!(at.offset, 7_200),
        other => panic!("{:?}", other),
    }
    let gap = with_param("DTSTART", "TZID", "Europe/Berlin", "20240331T023000");
    assert_eq!(IcalDateTime::try_from(&gap).unwrap_err().kind(), ErrorKind::DateParse);
}

#[test]
fn the_marker_gives_a_utc_instant() {
    let p = plain("DTSTART", "20240101T090000Z");
    assert_eq!(IcalDateTime::try_from(&p).unwrap(), IcalDateTime::Utc(JAN_1 + 9 * 3_600));
}

#[test]
fn a_bare_local_time_floats() {
    let p = plain("DTSTART", "20240101T090000");
    assert_eq!(IcalDateTime::try_from(&p).unwrap(), IcalDateTime::Floating(JAN_1 + 9 * 3_600));
}

#[test]
fn the_zone_goes_before_the_marker() {
    let p = with_param("DTSTART", "TZID", "America/New_York", "20240101T090000Z");
    match IcalDateTime::try_from(&p).unwrap() {
        IcalDateTime::Local(at) => assert_eq!(at.utc, JAN_1 + 14 * 3_600),
        other => panic!("{:?}", other),
    }
}

#[test]
fn instants_that_cannot_be_read_are_date_errors() {
    let missing = Property { name: "DTSTART".to_string(), params: None, value: None };
    assert_eq!(IcalDateTime::try_from(&missing).unwrap_err().kind(), ErrorKind::DateParse);
    let junk = plain("DTSTART", "tomorrow");
    assert_eq!(IcalDateTime::try_from(&junk).unwrap_err().kind(), ErrorKind::DateParse);
    let zone = with_param("DTSTART", "TZID", "Mars/Olympus", "20240101T090000");
    assert_eq!(IcalDateTime::try_from(&zone).unwrap_err().kind(), ErrorKind::DateParse);
    let date = with_param("DTSTART", "VALUE", "DATE", "20240101T090000");
    assert_eq!(IcalDateTime::try_from(&date).unwrap_err().kind(), ErrorKind::DateParse);
    let no_zone = Property {
        name: "DTSTART".to_string(),
        params: Some(vec![("TZID".to_string(), Vec::new())]),
        value: Some("20240101T090000".to_string()),
    };
    assert_eq!(IcalDateTime::try_from(&no_zone).unwrap_err().kind(), ErrorKind::DateParse);
}

#[test]
fn the_forms_are_told_apart_by_their_parts() {
    let berlin = Zone::from_name("Europe/Berlin").unwrap();
    let day = Date::from_ymd(2024, 1, 1).unwrap();
    let t = JAN_1 + 9 * 3_600;
    assert_eq!(
        IcalDateTime::from_parts(true, None, false, Some(t), Some(JAN_1)).unwrap(),
        IcalDateTime::Date(day)
    );
    assert_eq!(
        IcalDateTime::from_parts(false, Some(berlin), true, Some(t), None).unwrap(),
        IcalDateTime::Local(ZonedDateTime::from_local(berlin, t, Pick::Earliest).unwrap())
    );
    assert_eq!(
        IcalDateTime::from_parts(false, None, true, Some(t), None).unwrap(),
        IcalDateTime::Utc(t)
    );
    assert_eq!(
        IcalDateTime::from_parts(false, None, false, Some(t), None).unwrap(),
        IcalDateTime::Floating(t)
    );
    assert_eq!(
        IcalDateTime::from_parts(false, None, false, None, Some(JAN_1)).unwrap(),
        IcalDateTime::Date(day)
    );
    assert_eq!(
        IcalDateTime::from_parts(false, None, false, None, None).unwrap_err().kind(),
        ErrorKind::DateParse
    );
    assert_eq!(
        IcalDateTime::from_parts(true, None, false, Some(t), None).unwrap_err().kind(),
        ErrorKind::DateParse
    );
}

#[test]
fn a_text_that_is_no_date_is_a_time_error() {
    assert_eq!(IcalDateTime::from_str("noon").unwrap_err().kind(), ErrorKind::TimeParse);
    assert_eq!(
        IcalDateTime::from_str("20240301").unwrap(),
        IcalDateTime::Date(Date::from_ymd(2024, 3, 1).unwrap())
    );
    assert_eq!(IcalDateTime::default(), IcalDateTime::Floating(0));
    assert_eq!(IcalDateTime::from_datetime(utc(JAN_1)), IcalDateTime::Utc(JAN_1));
}

#[test]
fn instants_are_read_in_a_zone() {
    let berlin = Zone::from_name("Europe/Berlin").unwrap();
    let day = Date::from_ymd(2024, 1, 1).unwrap();
    assert_eq!(IcalDateTime::Date(day).as_datetime(berlin).unwrap().utc, JAN_1 - 3_600);
    assert_eq!(IcalDateTime::Floating(JAN_1).as_datetime(berlin).unwrap().utc, JAN_1);
    assert_eq!(IcalDateTime::Utc(JAN_1).as_datetime(berlin).unwrap().offset, 3_600);
    assert_eq!(IcalDateTime::Utc(JAN_1 - 1).as_date(berlin).unwrap(), day);
    assert_eq!(IcalDateTime::Floating(JAN_1 - 1).as_date(berlin).unwrap(), Date::from_ymd(2023, 12, 31).unwrap());
    assert_eq!(IcalDateTime::Date(day).as_date(berlin).unwrap(), day);
}

#[test]
fn start_and_end_give_a_span_between_two_instants() {
    let e = parse(vec![
        plain("DTSTART", "20240101T090000Z"),
        plain("DTEND", "20240101T100000Z"),
        plain("SUMMARY", "Standup"),
        plain("UID", "standup-1"),
    ])
    .unwrap();
    let span = TimeSpan::TimePoints(utc(JAN_1 + 9 * 3_600), utc(JAN_1 + 10 * 3_600));
    assert_eq!(e.occurrence_rule().time_span(), span);
    assert!(e.occurrence_rule().is_onetime());
    assert_eq!(*e.tz(), Zone::utc());
    assert_eq!(e.title(), Some("Standup"));
    assert_eq!(e.summary(), Some("Standup"));
    assert_eq!(e.uid(), Some("standup-1"));
    assert_eq!(e.description(), None);
    assert_eq!(e.duration(), 3_600);
    assert_eq!(e.begin().utc, JAN_1 + 9 * 3_600);
    assert_eq!(e.end().utc, JAN_1 + 10 * 3_600);
    assert_eq!(e.path(), "/cal/event.ics");
    assert_eq!(e.ical_event().properties.len(), 4);
}

#[test]
fn two_bare_dates_give_whole_days() {
    let e = parse(vec![
        with_param("DTSTART", "VALUE", "DATE", "20240301"),
        with_param("DTEND", "VALUE", "DATE", "20240303"),
    ])
    .unwrap();
    let first = Date::from_ymd(2024, 3, 1).unwrap();
    let last = Date::from_ymd(2024, 3, 3).unwrap();
    assert_eq!(e.occurrence_rule().time_span(), TimeSpan::Allday(first, Some(last), Zone::utc()));
    assert!(e.occurrence_rule().is_allday());
}

#[test]
fn a_bare_date_with_an_end_that_is_none_is_refused() {
    let r = parse(vec![
        with_param("DTSTART", "VALUE", "DATE", "20240301"),
        plain("DTEND", "20240301T100000Z"),
    ]);
    assert_eq!(r.unwrap_err(), ErrorKind::DateParse);
}

#[test]
fn the_end_goes_before_the_length() {
    let e = parse(vec![
        plain("DTSTART", "20240101T090000Z"),
        plain("DURATION", "PT15M"),
        plain("DTEND", "20240101T100000Z"),
    ])
    .unwrap();
    assert_eq!(e.duration(), 3_600);
}

#[test]
fn a_length_gives_a_span_of_that_length() {
    let e = parse(vec![plain("DTSTART", "20240101T090000Z"), plain("DURATION", "PT15M")]).unwrap();
    assert_eq!(e.occurrence_rule().time_span(), TimeSpan::Duration(utc(JAN_1 + 9 * 3_600), 900));
    assert_eq!(e.end().utc, JAN_1 + 9 * 3_600 + 900);
    let bad = parse(vec![plain("DTSTART", "20240101T090000Z"), plain("DURATION", "15M")]);
    assert_eq!(bad.unwrap_err(), ErrorKind::DurationParse);
}

#[test]
fn a_span_that_ends_before_it_begins_is_refused() {
    let backwards = parse(vec![
        plain("DTSTART", "20240101T100000Z"),
        plain("DTEND", "20240101T090000Z"),
    ]);
    assert_eq!(backwards.unwrap_err(), ErrorKind::DateParse);
    let negative = parse(vec![plain("DTSTART", "20240101T100000Z"), plain("DURATION", "-P1D")]);
    assert_eq!(negative.unwrap_err(), ErrorKind::DateParse);
    let days = parse(vec![
        with_param("DTSTART", "VALUE", "DATE", "20240303"),
        with_param("DTEND", "VALUE", "DATE", "20240301"),
    ]);
    assert_eq!(days.unwrap_err(), ErrorKind::DateParse);
    let empty = parse(vec![plain("DTSTART", "20240101T100000Z"), plain("DTEND", "20240101T100000Z")])
        .unwrap();
    assert_eq!(empty.duration(), 0);
}

#[test]
fn a_created_event_has_a_fresh_identifier_and_a_time_stamp() {
    let span = TimeSpan::from_start(utc(JAN_1));
    let one = Event::create("/cal/new.ics", false, OccurrenceRule::Onetime(span)).unwrap();
    let other = Event::create("/cal/new.ics", false, OccurrenceRule::Onetime(span)).unwrap();
    let uid = one.uid().unwrap().to_string();
    assert_eq!(uid.len(), 36);
    assert!(uuid::Uuid::parse_str(&uid).is_ok());
    assert_ne!(one.uid(), other.uid());
    let stamp = find_value(&one.ical_event().properties, "DTSTAMP").unwrap();
    assert_eq!(stamp.len(), 16);
    assert!(stamp.ends_with('Z'));
    assert_eq!(&stamp[8..9], "T");
    assert!(chrono::NaiveDateTime::parse_from_str(stamp, "%Y%m%dT%H%M%SZ").is_ok());
    let refused = Event::create("/cal/new.ics", true, OccurrenceRule::Onetime(span));
    assert_eq!(refused.unwrap_err().kind(), ErrorKind::EventParse);
}

#[test]
fn a_start_alone_is_a_day_or_an_instant() {
    let day = parse(vec![with_param("DTSTART", "VALUE", "DATE", "20240301")]).unwrap();
    let d = Date::from_ymd(2024, 3, 1).unwrap();
    assert_eq!(day.occurrence_rule().time_span(), TimeSpan::Allday(d, None, Zone::utc()));
    assert_eq!(day.duration(), 86_400);
    let instant = parse(vec![plain("DTSTART", "20240101T090000Z")]).unwrap();
    assert_eq!(instant.occurrence_rule().time_span(), TimeSpan::Instant(utc(JAN_1 + 9 * 3_600)));
    assert_eq!(instant.duration(), 0);
}

#[test]
fn the_zone_of_the_event_is_that_of_its_start() {
    let e = parse(vec![
        with_param("DTSTART", "TZID", "Europe/Berlin", "20240101T090000"),
        plain("DTEND", "20240101T100000Z"),
    ])
    .unwrap();
    let berlin = Zone::from_name("Europe/Berlin").unwrap();
    assert_eq!(*e.tz(), berlin);
    assert_eq!(e.occurrence_rule().timezone(), berlin);
    assert_eq!(e.begin().utc, JAN_1 + 8 * 3_600);
    assert_eq!(e.end().utc, JAN_1 + 10 * 3_600);
    assert_eq!(e.end().offset, 3_600);
}

#[test]
fn records_without_exactly_one_event_are_refused() {
    let none = IcalCalendar { properties: Vec::new(), events: Vec::new() };
    let r = Event::from_ical("a.ics".to_string(), none);
    assert_eq!(r.unwrap_err().kind(), ErrorKind::NoEvents);
    let two = IcalCalendar {
        properties: Vec::new(),
        events: vec![
            IcalEvent::new(vec![plain("DTSTART", "20240101T090000Z")]),
            IcalEvent::new(vec![plain("DTSTART", "20240102T090000Z")]),
        ],
    };
    let r = Event::from_ical("a.ics".to_string(), two);
    assert_eq!(r.unwrap_err().kind(), ErrorKind::MultipleEvents);
}

#[test]
fn an_event_without_a_start_lacks_a_key() {
    assert_eq!(parse(vec![plain("SUMMARY", "nothing")]).unwrap_err(), ErrorKind::EventMissingKey);
    assert_eq!(parse(vec![plain("DTSTART", "soon")]).unwrap_err(), ErrorKind::DateParse);
}

#[test]
fn a_rule_makes_the_event_recur() {
    let e = parse(vec![
        plain("DTSTART", "20240101T090000Z"),
        plain("DTEND", "20240101T100000Z"),
        plain("RRULE", "FREQ=DAILY;COUNT=3"),
    ])
    .unwrap();
    assert!(e.occurrence_rule().is_recurring());
    match e.occurrence_rule() {
        OccurrenceRule::Recurring(_, rule) => assert_eq!(rule.rule, "FREQ=DAILY;COUNT=3"),
        other => panic!("{:?}", other),
    }
    let first = JAN_1 + 9 * 3_600;
    assert_eq!(
        e.occurrence_rule().instants(JAN_1 - 86_400, JAN_1 + 30 * 86_400),
        vec![first, first + 86_400, first + 2 * 86_400]
    );
    assert_eq!(e.occurrence_rule().instants(first + 1, first + 86_400), vec![first + 86_400]);
}

#[test]
fn a_text_that_is_no_rule_leaves_the_event_as_it_is() {
    let e = parse(vec![plain("DTSTART", "20240101T090000Z"), plain("RRULE", "every day")]).unwrap();
    assert!(e.occurrence_rule().is_onetime());
    let first = JAN_1 + 9 * 3_600;
    assert_eq!(e.occurrence_rule().instants(first, first), vec![first]);
    assert_eq!(e.occurrence_rule().instants(first + 1, first + 2), Vec::<i64>::new());
    assert_eq!(e.occurrence_rule().instants(first - 2, first - 1), Vec::<i64>::new());
}

#[test]
fn rules_are_checked_against_the_start() {
    let utc_zone = Zone::utc();
    assert_eq!(Recurrence::check("FREQ=WEEKLY", JAN_1, utc_zone), RuleCheck::Valid);
    assert_eq!(Recurrence::check("nonsense", JAN_1, utc_zone), RuleCheck::Unparseable);
    assert_eq!(Recurrence::check("FREQ=DAILY;UNTIL=20230101T000000Z", JAN_1, utc_zone), RuleCheck::Invalid);
    let rule = Recurrence::new("FREQ=WEEKLY");
    assert_eq!(rule.duplicate().rule, "FREQ=WEEKLY");
    assert_eq!(
        rule.instants(JAN_1, utc_zone, JAN_1, JAN_1 + 15 * 86_400),
        vec![JAN_1, JAN_1 + 7 * 86_400, JAN_1 + 14 * 86_400]
    );
}

#[test]
fn a_rule_that_does_not_go_with_the_start_is_an_event_error() {
    let r = parse(vec![
        plain("DTSTART", "20240101T090000Z"),
        plain("RRULE", "FREQ=DAILY;UNTIL=20230101T000000Z"),
    ]);
    assert_eq!(r.unwrap_err(), ErrorKind::EventParse);
}

#[test]
fn a_new_event_gets_its_bookkeeping() {
    let span = TimeSpan::from_start(utc(JAN_1));
    let e = Event::new(
        "/cal/abc.ics",
        false,
        "6fa459ea-ee8a-3ca4-894e-db77e160355e",
        "20240101T000000Z",
        OccurrenceRule::Onetime(span),
    )
    .unwrap();
    assert_eq!(e.uid(), Some("6fa459ea-ee8a-3ca4-894e-db77e160355e"));
    assert_eq!(find_value(&e.ical.properties, "PRODID"), Some("-//JACKAL//NONSGML Calendar//EN"));
    assert_eq!(find_value(&e.ical.properties, "VERSION"), Some("2.0"));
    assert_eq!(find_value(&e.ical_event().properties, "DTSTAMP"), Some("20240101T000000Z"));
    assert_eq!(e.path(), "/cal/abc.ics");
    assert_eq!(Event::file_name("abc"), "abc.ics");
    let refused =
        Event::new("/cal/abc.ics", true, "x", "20240101T000000Z", OccurrenceRule::Onetime(span));
    assert_eq!(refused.unwrap_err().kind(), ErrorKind::EventParse);
}

#[test]
fn more_properties_are_added_but_for_the_records_own() {
    let span = TimeSpan::from_start(utc(JAN_1));
    let more = vec![
        plain("SUMMARY", "Lunch"),
        plain("PRODID", "someone else"),
        plain("DESCRIPTION", "with friends"),
        plain("VERSION", "9"),
    ];
    let e = Event::new_with_ical_properties(
        "/cal/abc.ics",
        false,
        "6fa459ea-ee8a-3ca4-894e-db77e160355e",
        "20240101T000000Z",
        OccurrenceRule::Onetime(span),
        more,
    )
    .unwrap();
    let names: Vec<&str> = e.ical_event().properties.iter().map(|p| p.name.as_str()).collect();
    assert_eq!(names, vec!["UID", "DTSTAMP", "SUMMARY", "DESCRIPTION"]);
    assert_eq!(e.title(), Some("Lunch"));
    assert_eq!(e.description(), Some("with friends"));
    assert!(find_property(&e.ical_event().properties, "PRODID").is_none());
}

#[test]
fn an_event_matches_the_file_named_by_its_identifier() {
    let e = parse(vec![
        plain("DTSTART", "20240101T090000Z"),
        plain("UID", "6FA459EA-EE8A-3CA4-894E-DB77E160355E"),
    ])
    .unwrap();
    let named = FilePath {
        path: "/elsewhere/6fa459ea-ee8a-3ca4-894e-db77e160355e.ics".to_string(),
        stem: Some("6fa459ea-ee8a-3ca4-894e-db77e160355e".to_string()),
        extension: Some("ics".to_string()),
    };
    assert!(e.matches(&named));
    let other = FilePath {
        path: "/cal/event.ics".to_string(),
        stem: Some("886313e1-3b8a-5372-9b90-0c9aee199e5d".to_string()),
        extension: Some("ics".to_string()),
    };
    assert!(!e.matches(&other));
    let by_path = FilePath {
        path: "/cal/event.ics".to_string(),
        stem: Some("event".to_string()),
        extension: Some("ics".to_string()),
    };
    assert!(e.matches(&by_path));
    let neither = FilePath {
        path: "/cal/other.ics".to_string(),
        stem: Some("other".to_string()),
        extension: Some("ics".to_string()),
    };
    assert!(!e.matches(&neither));
}

#[test]
fn a_title_replaces_the_old_one_or_is_added() {
    let mut e = parse(vec![
        plain("DTSTART", "20240101T090000Z"),
        with_param("SUMMARY", "LANGUAGE", "en", "Old"),
        plain("SUMMARY", "Second"),
    ])
    .unwrap();
    e.set_title("New");
    assert_eq!(e.title(), Some("New"));
    let props = &e.ical_event().properties;
    assert_eq!(props.len(), 3);
    assert_eq!(props[1].params, Some(vec![("LANGUAGE".to_string(), vec!["en".to_string()])]));
    assert_eq!(props[2].value.as_deref(), Some("Second"));
    let mut bare = parse(vec![plain("DTSTART", "20240101T090000Z")]).unwrap();
    assert_eq!(bare.title(), None);
    bare.set_summary("Added");
    assert_eq!(bare.title(), Some("Added"));
    assert_eq!(bare.ical_event().properties.len(), 2);
    assert_eq!(bare.ical_event().properties[1].name, "SUMMARY");
}

#[test]
fn an_event_can_be_read_in_another_zone() {
    let mut e = parse(vec![
        plain("DTSTART", "20240101T090000Z"),
        plain("DTEND", "20240101T100000Z"),
        plain("RRULE", "FREQ=DAILY"),
    ])
    .unwrap();
    let berlin = Zone::from_name("Europe/Berlin").unwrap();
    assert!(e.set_tz(berlin));
    assert_eq!(*e.tz(), berlin);
    assert_eq!(e.begin().utc, JAN_1 + 9 * 3_600);
    assert_eq!(e.begin().offset, 3_600);
    assert!(e.occurrence_rule().is_recurring());
    let mut day = parse(vec![with_param("DTSTART", "VALUE", "DATE", "20240331")]).unwrap();
    assert!(day.set_tz(berlin));
    assert_eq!(day.begin().utc, 1_711_843_200 - 3_600);
    assert_eq!(day.end().utc, 1_711_843_200 + 86_399 - 7_200);
}

#[test]
fn identifiers_decide_before_paths() {
    assert!(Event::same_file(Some(7), Some(7), false));
    assert!(!Event::same_file(Some(7), Some(8), true));
    assert!(!Event::same_file(Some(7), None, true));
    assert!(Event::same_file(None, Some(8), true));
    assert!(!Event::same_file(None, None, false));
}

#[test]
fn what_is_known_of_a_rule_decides_how_the_event_occurs() {
    let span = TimeSpan::from_start(utc(JAN_1));
    let text = "FREQ=DAILY".to_string();
    assert!(Event::attach_rule(span, &text, RuleCheck::Unparseable).unwrap().is_onetime());
    assert!(Event::attach_rule(span, &text, RuleCheck::Valid).unwrap().is_recurring());
    let refused = Event::attach_rule(span, &text, RuleCheck::Invalid);
    assert_eq!(refused.unwrap_err().kind(), ErrorKind::EventParse);
    assert_eq!(Recurrence::within(&vec![5, 1, 9, 3, 7], 3, 7), vec![5, 3, 7]);
    assert_eq!(Recurrence::within(&vec![5, 1], 6, 7), Vec::<i64>::new());
}

#[test]
fn an_occurrence_rule_answers_for_its_span() {
    let span = TimeSpan::from_start_and_end(utc(JAN_1), utc(JAN_1 + 60)).unwrap();
    let rule = OccurrenceRule::Onetime(span);
    assert_eq!(rule.begin(), utc(JAN_1));
    assert_eq!(rule.as_datetime(), utc(JAN_1));
    assert_eq!(rule.end(), utc(JAN_1 + 60));
    assert_eq!(rule.as_date(), Date::from_ymd(2024, 1, 1).unwrap());
    assert_eq!(rule.duration(), 60);
    assert_eq!(rule.timezone(), Zone::utc());
    let berlin = Zone::from_name("Europe/Berlin").unwrap();
    let moved = rule.with_tz(berlin).unwrap();
    assert_eq!(moved.timezone(), berlin);
    assert_eq!(moved.begin().utc, JAN_1);
    let again = moved.recurring(Recurrence::new("FREQ=DAILY"));
    assert!(again.is_recurring());
    assert!(!again.is_onetime());
    assert!(!again.is_allday());
}
