use jackal::agenda::Agenda;
use jackal::alarm::{AlarmGenerator, AlarmTrigger};
use jackal::calendar::{Calendar, LoadedFile, ProviderCalendar, TimeBound};
use jackal::datetime::ZonedDateTime;
use jackal::event::Event;
use jackal::property::{IcalAlarm, Property};
use jackal::timespan::TimeSpan;
use jackal::zone::Zone;

const JAN_1: i64 = 1_704_067_200;

const MEETING: &str = "BEGIN:VCALENDAR\r\nBEGIN:VEVENT\r\nUID:meeting\r\n\
DTSTART:20240101T090000Z\r\nDTEND:20240101T100000Z\r\nRRULE:FREQ=DAILY;COUNT=3\r\n\
BEGIN:VALARM\r\nACTION:DISPLAY\r\nTRIGGER:-PT15M\r\nEND:VALARM\r\n\
BEGIN:VALARM\r\nACTION:DISPLAY\r\nTRIGGER;RELATED=END:PT5M\r\nEND:VALARM\r\n\
BEGIN:VALARM\r\nACTION:DISPLAY\r\nEND:VALARM\r\n\
END:VEVENT\r\nEND:VCALENDAR\r\n";

const ONCE: &str = "BEGIN:VCALENDAR\r\nBEGIN:VEVENT\r\nUID:once\r\n\
DTSTART:20240102T120000Z\r\n\
BEGIN:VALARM\r\nTRIGGER;VALUE=DATE-TIME:20240102T110000Z\r\nEND:VALARM\r\n\
END:VEVENT\r\nEND:VCALENDAR\r\n";

fn block(trigger: Property) -> IcalAlarm {
    IcalAlarm { properties: vec![Property::new("ACTION", "DISPLAY"), trigger] }
}

fn agenda() -> Agenda {
    let files = vec![
        LoadedFile::read("/cal/meeting.ics".to_string(), Some(MEETING)),
        LoadedFile::read("/cal/once.ics".to_string(), Some(ONCE)),
    ];
    let calendar = Calendar::from_dir("/cal".to_string(), "cal".to_string(), files, JAN_1);
    Agenda::new(vec![ProviderCalendar::Ical(calendar)])
}

#[test]
fn a_trigger_is_a_length_of_time_or_a_moment() {
    let before = block(Property::new("TRIGGER", "-PT15M"));
    assert_eq!(
        AlarmGenerator::from_alarm(&before),
        Some(AlarmGenerator { trigger: AlarmTrigger::Start(-900) })
    );
    let after_end = block(Property {
        name: "TRIGGER".to_string(),
        params: Some(vec![("RELATED".to_string(), vec!["END".to_string()])]),
        value: Some("PT5M".to_string()),
    });
    assert_eq!(
        AlarmGenerator::from_alarm(&after_end),
        Some(AlarmGenerator { trigger: AlarmTrigger::End(300) })
    );
    let moment = block(Property {
        name: "TRIGGER".to_string(),
        params: Some(vec![("VALUE".to_string(), vec!["DATE-TIME".to_string()])]),
        value: Some("20240102T110000Z".to_string()),
    });
    assert_eq!(
        AlarmGenerator::from_alarm(&moment),
        Some(AlarmGenerator { trigger: AlarmTrigger::Absolute(JAN_1 + 35 * 3_600) })
    );
    assert_eq!(AlarmGenerator::from_alarm(&block(Property::new("TRIGGER", "soon"))), None);
    assert_eq!(AlarmGenerator::from_alarm(&IcalAlarm { properties: Vec::new() }), None);
}

#[test]
fn an_alarm_goes_off_relative_to_its_occurrence() {
    let at = |t: i64| ZonedDateTime::from_utc(Zone::utc(), t).unwrap();
    let span = TimeSpan::from_start_and_end(at(JAN_1), at(JAN_1 + 3_600)).unwrap();
    let start = AlarmGenerator { trigger: AlarmTrigger::Start(-900) };
    let end = AlarmGenerator { trigger: AlarmTrigger::End(300) };
    let moment = AlarmGenerator { trigger: AlarmTrigger::Absolute(42) };
    assert_eq!(start.time_for(&span), Some(JAN_1 - 900));
    assert_eq!(end.time_for(&span), Some(JAN_1 + 3_900));
    assert_eq!(moment.time_for(&span), Some(42));
    let never = AlarmGenerator { trigger: AlarmTrigger::Start(i64::MAX) };
    assert_eq!(never.time_for(&span), None);
}

#[test]
fn the_alarm_blocks_of_a_file_are_read() {
    let e = Event::from_file("/cal/meeting.ics".to_string(), MEETING).unwrap();
    assert_eq!(e.ical_event().alarms.len(), 3);
    assert_eq!(
        e.alarms(),
        vec![
            AlarmGenerator { trigger: AlarmTrigger::Start(-900) },
            AlarmGenerator { trigger: AlarmTrigger::End(300) },
        ]
    );
}

#[test]
fn alarms_are_found_by_the_moment_at_which_they_go_off() {
    let a = agenda();
    let nine = JAN_1 + 9 * 3_600;
    let all: Vec<i64> =
        a.alarms_in(TimeBound::Unbounded, TimeBound::Unbounded).iter().map(|x| x.time).collect();
    assert_eq!(
        all,
        vec![
            nine - 900,
            nine + 3_900,
            nine + 86_400 - 900,
            nine + 86_400 + 3_900,
            JAN_1 + 35 * 3_600,
            nine + 2 * 86_400 - 900,
            nine + 2 * 86_400 + 3_900,
        ]
    );
    let first = a.alarms_in(TimeBound::Included(nine - 900), TimeBound::Excluded(nine + 3_900));
    let times: Vec<i64> = first.iter().map(|x| x.time).collect();
    assert_eq!(times, vec![nine - 900, nine + 3_900]);
    assert_eq!(first[0].occurrence.event().uid(), Some("meeting"));
    assert_eq!(first[0].occurrence.begin().timestamp(), nine);
    let none = a.alarms_in(TimeBound::Included(nine - 899), TimeBound::Included(nine + 3_899));
    assert!(none.is_empty());
    let calendar = a.calendar_by_name("").unwrap();
    let one = calendar.alarms_in(TimeBound::Excluded(nine + 3_900), TimeBound::Excluded(nine + 86_400));
    assert_eq!(one.iter().map(|x| x.time).collect::<Vec<i64>>(), vec![nine + 86_400 - 900]);
}

#[test]
fn an_occurrence_has_the_alarms_of_its_event() {
    let a = agenda();
    let found = a.events_of_day(&jackal::datetime::Date::from_ymd(2024, 1, 2).unwrap());
    assert_eq!(found.len(), 2);
    let times: Vec<i64> = found[0].alarms().iter().map(|x| x.time).collect();
    let nine = JAN_1 + 33 * 3_600;
    assert_eq!(times, vec![nine - 900, nine + 3_900]);
    let once: Vec<i64> = found[1].alarms().iter().map(|x| x.time).collect();
    assert_eq!(once, vec![JAN_1 + 35 * 3_600]);
    let generator = AlarmGenerator { trigger: AlarmTrigger::Start(60) };
    let span = found[1].span;
    let made = generator.occurrence_alarms(found.into_iter().nth(1).unwrap());
    assert_eq!(made.len(), 1);
    assert_eq!(made[0].time, span.begin().utc + 60);
}
