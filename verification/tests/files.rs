use jackal::agenda::Agenda;
use jackal::calendar::{Calendar, LoadedFile, LoadedModification, ProviderCalendar};
use jackal::datetime::{Date, ZonedDateTime};
use jackal::error::{Error, ErrorKind};
use jackal::event::{Event, FilePath};
use jackal::icaldatetime::IcalDateTime;
use jackal::newevent::NewEvent;
use jackal::notification::{
    after_wait, answer_of, phase_at, scroll_backwards, scroll_forwards, time_until,
    timeout_millis, with_dates, Answer, ControlFlow, Phase,
};
use jackal::watch::ExternalModification;
use jackal::zone::Zone;

const JAN_1: i64 = 1_704_067_200;

const STANDUP: &str = "BEGIN:VCALENDAR\r\nVERSION:2.0\r\nPRODID:-//test//EN\r\nBEGIN:VEVENT\r\n\
UID:6fa459ea-ee8a-3ca4-894e-db77e160355e\r\nDTSTART:20240101T090000Z\r\n\
DTEND:20240101T100000Z\r\nSUMMARY:Standup\r\nEND:VEVENT\r\nEND:VCALENDAR\r\n";

const ALLDAY: &str = "BEGIN:VCALENDAR\r\nVERSION:2.0\r\nBEGIN:VEVENT\r\nUID:day\r\n\
DTSTART;VALUE=DATE:20240301\r\nEND:VEVENT\r\nEND:VCALENDAR\r\n";

const BERLIN: &str = "BEGIN:VCALENDAR\r\nBEGIN:VEVENT\r\nUID:b\r\n\
DTSTART;TZID=Europe/Berlin:20240101T090000\r\nDURATION:PT45M\r\nEND:VEVENT\r\nEND:VCALENDAR\r\n";

fn agenda_of(texts: &[(&str, &str)]) -> Agenda {
    let files =
        texts.iter().map(|(path, text)| LoadedFile::read(path.to_string(), Some(text))).collect();
    let calendar = Calendar::from_dir("/cal".to_string(), "cal".to_string(), files, JAN_1);
    Agenda::new(vec![ProviderCalendar::Ical(calendar)])
}

#[test]
fn a_file_with_one_event_is_found_on_its_day() {
    let a = agenda_of(&[("/cal/standup.ics", STANDUP)]);
    let found = a.events_of_day(&Date::from_ymd(2024, 1, 1).unwrap());
    assert_eq!(found.len(), 1);
    assert_eq!(found[0].event().title(), Some("Standup"));
    assert_eq!(found[0].begin().timestamp(), JAN_1 + 9 * 3_600);
    assert_eq!(found[0].end().timestamp(), JAN_1 + 10 * 3_600);
    assert_eq!(found[0].begin().timezone(), Zone::utc());
    assert!(a.events_of_day(&Date::from_ymd(2024, 1, 2).unwrap()).is_empty());
}

#[test]
fn a_file_with_a_bare_date_gives_one_whole_day() {
    let a = agenda_of(&[("/cal/day.ics", ALLDAY)]);
    let found = a.events_of_day(&Date::from_ymd(2024, 3, 1).unwrap());
    assert_eq!(found.len(), 1);
    assert!(found[0].span.is_allday());
    assert_eq!(found[0].span.duration(), 86_400);
    assert_eq!(found[0].days().unwrap().len(), 1);
}

#[test]
fn the_text_of_a_file_is_read_into_an_event() {
    let e = Event::from_file("/cal/b.ics".to_string(), BERLIN).unwrap();
    assert_eq!(*e.tz(), Zone::from_name("Europe/Berlin").unwrap());
    assert_eq!(e.begin().timestamp(), JAN_1 + 8 * 3_600);
    assert_eq!(e.duration(), 2_700);
    assert_eq!(e.uid(), Some("b"));
    assert_eq!(e.ical.properties.len(), 0);
    let s = Event::from_file("/cal/s.ics".to_string(), STANDUP).unwrap();
    assert_eq!(s.ical.properties.len(), 2);
    assert_eq!(s.ical_event().properties.len(), 4);
    assert_eq!(s.ical_event().properties[1].name, "DTSTART");
    assert_eq!(s.ical_event().properties[1].value.as_deref(), Some("20240101T090000Z"));
}

#[test]
fn a_text_without_a_record_is_an_error_of_reading() {
    let r = Event::from_file("/cal/x.ics".to_string(), "");
    assert_eq!(r.unwrap_err().kind(), ErrorKind::Io);
    let r = Event::from_file("/cal/x.ics".to_string(), "SUMMARY:not a calendar\r\n");
    assert_eq!(r.unwrap_err().kind(), ErrorKind::Io);
    let empty = "BEGIN:VCALENDAR\r\nEND:VCALENDAR\r\n";
    let r = Event::from_file("/cal/x.ics".to_string(), empty);
    assert_eq!(r.unwrap_err().kind(), ErrorKind::NoEvents);
    assert!(LoadedFile::read("/cal/x.ics".to_string(), None).event.is_none());
    assert!(LoadedFile::read("/cal/x.ics".to_string(), Some("")).event.is_none());
    assert!(LoadedFile::read("/cal/x.ics".to_string(), Some(STANDUP)).event.is_some());
    let without = LoadedFile::read("/cal/x.ics".to_string(), Some(empty));
    assert!(without.event.is_none());
    assert_eq!(without.error.unwrap().kind(), ErrorKind::NoEvents);
    assert_eq!(Error::new(ErrorKind::CalendarParse, "not a directory").kind(), ErrorKind::CalendarParse);
    assert_eq!(Error::new(ErrorKind::CalendarParse, "not a directory").message(), "not a directory");
}

#[test]
fn a_removed_file_is_not_read() {
    let file = FilePath {
        path: "/cal/6fa459ea-ee8a-3ca4-894e-db77e160355e.ics".to_string(),
        stem: Some("6fa459ea-ee8a-3ca4-894e-db77e160355e".to_string()),
        extension: Some("ics".to_string()),
    };
    let gone = LoadedModification::read(ExternalModification::Remove(file), Some(STANDUP));
    assert!(gone.event.is_none());
    let mut a = agenda_of(&[("/cal/6fa459ea-ee8a-3ca4-894e-db77e160355e.ics", STANDUP)]);
    assert!(a.find_by_uid("6fa459ea-ee8a-3ca4-894e-db77e160355e").is_some());
    a.process_external_modifications(vec![vec![gone]], JAN_1);
    assert!(a.find_by_uid("6fa459ea-ee8a-3ca4-894e-db77e160355e").is_none());
    let other = FilePath {
        path: "/cal/new.ics".to_string(),
        stem: Some("new".to_string()),
        extension: Some("ics".to_string()),
    };
    let new = LoadedModification::read(ExternalModification::Create(other), Some(ALLDAY));
    assert!(new.event.is_some());
    a.process_external_modifications(vec![vec![new]], JAN_1);
    assert_eq!(a.find_by_uid("day").unwrap().path(), "/cal/new.ics");
}

#[test]
fn an_instant_takes_the_form_of_a_zone() {
    let berlin = Zone::from_name("Europe/Berlin").unwrap();
    let day = Date::from_ymd(2024, 1, 1).unwrap();
    let next = Date::from_ymd(2024, 1, 2).unwrap();
    assert_eq!(IcalDateTime::Date(day).and_duration(90_000), Some(IcalDateTime::Date(next)));
    assert_eq!(IcalDateTime::Date(next).and_duration(-90_000), Some(IcalDateTime::Date(day)));
    assert_eq!(IcalDateTime::Date(day).and_duration(86_399), Some(IcalDateTime::Date(day)));
    assert_eq!(IcalDateTime::Utc(JAN_1).and_duration(60), Some(IcalDateTime::Utc(JAN_1 + 60)));
    assert_eq!(IcalDateTime::Floating(JAN_1).and_duration(-60), Some(IcalDateTime::Floating(JAN_1 - 60)));
    assert_eq!(IcalDateTime::Utc(JAN_1).and_duration(i64::MAX), None);
    match IcalDateTime::Utc(JAN_1).with_tz(berlin).unwrap() {
        IcalDateTime::Local(at) => {
            assert_eq!(at.utc, JAN_1);
            assert_eq!(at.offset, 3_600);
            assert_eq!(at.zone, berlin);
        }
        other => panic!("{:?}", other),
    }
}

#[test]
fn an_event_to_be_made_keeps_what_was_said_last() {
    let berlin = Zone::from_name("Europe/Berlin").unwrap();
    let begin = ZonedDateTime::from_utc(berlin, JAN_1).unwrap();
    let mut e = NewEvent::new(begin);
    assert_eq!(e.tz, berlin);
    e.set_title("Lunch");
    e.set_description("with friends");
    assert_eq!(e.title.as_deref(), Some("Lunch"));
    assert_eq!(e.description.as_deref(), Some("with friends"));
    e.set_duration(1_800);
    assert_eq!((e.duration, e.end), (Some(1_800), None));
    assert!(e.set_end(JAN_1 + 7_200));
    assert_eq!(e.duration, None);
    assert_eq!(e.end.unwrap().utc, JAN_1 + 3_600);
    assert!(e.set_begin(JAN_1 + 3_600));
    assert_eq!(e.begin.utc, JAN_1);
    assert!(!e.set_begin(1_711_852_200));
    assert_eq!(e.begin.utc, JAN_1);
    e.set_duration(60);
    assert_eq!((e.duration, e.end), (Some(60), None));
}

#[test]
fn an_announcement_follows_the_clock() {
    assert_eq!(phase_at(10, 20, 30), Phase::Upcoming(10));
    assert_eq!(phase_at(20, 20, 30), Phase::Current(10));
    assert_eq!(phase_at(29, 20, 30), Phase::Current(1));
    assert_eq!(phase_at(30, 20, 30), Phase::Over);
    assert_eq!(time_until(10, 25), 15);
    assert_eq!(time_until(25, 10), 0);
    assert_eq!(time_until(-5, 5), 10);
    assert_eq!(time_until(i64::MIN, i64::MAX), u64::MAX);
    assert_eq!(phase_at(i64::MIN, i64::MAX, i64::MAX), Phase::Upcoming(u64::MAX));
    assert_eq!(timeout_millis(90), 90_000);
    assert_eq!(timeout_millis(4_294_968), 704);
    assert!(with_dates(19_723, 19_724));
    assert!(!with_dates(19_723, 19_723));
}

#[test]
fn answers_are_known_by_their_names() {
    assert_eq!(answer_of("dismiss"), Answer::Dismiss);
    assert_eq!(answer_of("__closed"), Answer::Dismiss);
    assert_eq!(answer_of("snooze"), Answer::Snooze);
    assert_eq!(answer_of("open_url"), Answer::OpenUrl);
    assert_eq!(answer_of("default"), Answer::Ignore);
    assert_eq!(after_wait(true), ControlFlow::Restart);
    assert_eq!(after_wait(false), ControlFlow::Continue);
}

#[test]
fn the_mark_stays_inside_the_list() {
    assert_eq!(scroll_backwards(0), None);
    assert_eq!(scroll_backwards(3), Some(2));
    assert_eq!(scroll_forwards(0, 0), None);
    assert_eq!(scroll_forwards(0, 1), None);
    assert_eq!(scroll_forwards(0, 2), Some(1));
    assert_eq!(scroll_forwards(usize::MAX, usize::MAX), None);
}
