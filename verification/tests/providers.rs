use jackal::calendar::{Calendar, LoadedFile, LoadedModification, TimeBound};
use jackal::event::{Event, FilePath};
use jackal::provider::{Calendarlike, Eventlike, MutCalendarlike};
use jackal::watch::ExternalModification;
use jackal::zone::Zone;

const JAN_1: i64 = 1_704_067_200;

const TALK: &str = "BEGIN:VCALENDAR\r\nBEGIN:VEVENT\r\nUID:talk\r\nSUMMARY:Talk\r\n\
DESCRIPTION:About time\r\nDTSTART:20240101T090000Z\r\nDURATION:PT1H\r\n\
BEGIN:VALARM\r\nTRIGGER:-PT10M\r\nEND:VALARM\r\nEND:VEVENT\r\nEND:VCALENDAR\r\n";

fn describe<E: Eventlike>(event: &E) -> (Option<String>, Option<String>, Option<String>, i64, usize) {
    (
        event.uid().map(str::to_string),
        event.title().map(str::to_string),
        event.description().map(str::to_string),
        event.duration(),
        event.alarms().len(),
    )
}

fn count<C: Calendarlike>(calendar: &C, begin: TimeBound, end: TimeBound) -> (usize, usize) {
    (calendar.events_in(begin, end).len(), calendar.alarms_in(begin, end).len())
}

fn forget<C: MutCalendarlike>(calendar: &mut C, file: FilePath) {
    let gone = LoadedModification::from_record(ExternalModification::Remove(file), None);
    calendar.process_external_modifications(vec![gone], JAN_1);
}

#[test]
fn an_event_is_seen_through_its_view() {
    let e = Event::from_file("/cal/talk.ics".to_string(), TALK).unwrap();
    assert_eq!(
        describe(&e),
        (
            Some("talk".to_string()),
            Some("Talk".to_string()),
            Some("About time".to_string()),
            3_600,
            1
        )
    );
    assert_eq!(Eventlike::summary(&e), Some("Talk"));
    assert_eq!(*Eventlike::tz(&e), Zone::utc());
    assert!(Eventlike::occurrence_rule(&e).is_onetime());
}

#[test]
fn a_calendar_is_seen_through_its_view() {
    let files = vec![LoadedFile::read("/cal/talk.ics".to_string(), Some(TALK))];
    let mut c = Calendar::from_dir("/cal".to_string(), "cal".to_string(), files, JAN_1)
        .with_name("work".to_string());
    assert_eq!(Calendarlike::name(&c), "work");
    assert_eq!(Calendarlike::path(&c), "/cal");
    assert_eq!(*Calendarlike::tz(&c), Zone::utc());
    let nine = JAN_1 + 9 * 3_600;
    assert_eq!(count(&c, TimeBound::Included(nine - 600), TimeBound::Excluded(nine)), (0, 1));
    assert_eq!(count(&c, TimeBound::Included(nine), TimeBound::Unbounded), (1, 0));
    assert!(Calendarlike::event_by_uid(&c, "talk").is_some());
    let all = jackal::calendar::EventFilter::default();
    assert_eq!(Calendarlike::filter_events(&c, all).unwrap().len(), 1);
    forget(
        &mut c,
        FilePath {
            path: "/cal/talk.ics".to_string(),
            stem: Some("talk".to_string()),
            extension: Some("ics".to_string()),
        },
    );
    assert!(Calendarlike::event_by_uid(&c, "talk").is_none());
}
