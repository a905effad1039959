use jackal::datetime::{Date, ZonedDateTime};
use jackal::timespan::TimeSpan;
use jackal::zone::{Pick, Zone};

fn utc(t: i64) -> ZonedDateTime {
    ZonedDateTime::from_utc(Zone::utc(), t).unwrap()
}

const JAN_1: i64 = 1_704_067_200;

#[test]
fn the_end_of_a_span_is_not_before_its_beginning() {
    let day = Date::from_ymd(2024, 3, 1).unwrap();
    let berlin = Zone::from_name("Europe/Berlin").unwrap();
    let spans = [
        TimeSpan::from_start(utc(JAN_1)),
        TimeSpan::from_start_and_end(utc(JAN_1), utc(JAN_1 + 3_600)).unwrap(),
        TimeSpan::from_start_and_duration(utc(JAN_1), 900).unwrap(),
        TimeSpan::allday(day, Zone::utc()).unwrap(),
        TimeSpan::allday(day, berlin).unwrap(),
        TimeSpan::allday_until(day, Date::from_ymd(2024, 4, 2).unwrap(), berlin).unwrap(),
    ];
    for span in spans {
        assert!(span.end().utc >= span.begin().utc);
    }
}

#[test]
fn a_span_cannot_end_before_it_begins() {
    assert!(TimeSpan::from_start_and_end(utc(JAN_1 + 1), utc(JAN_1)).is_none());
    assert!(TimeSpan::from_start_and_end(utc(JAN_1), utc(JAN_1)).is_some());
    assert!(TimeSpan::from_start_and_duration(utc(JAN_1), -1).is_none());
    assert!(TimeSpan::from_start_and_duration(utc(JAN_1), 0).is_some());
    let a = Date::from_ymd(2024, 3, 1).unwrap();
    let b = Date::from_ymd(2024, 3, 4).unwrap();
    assert!(TimeSpan::allday_until(b, a, Zone::utc()).is_none());
    assert!(TimeSpan::allday_until(a, a, Zone::utc()).is_some());
    // From half past midnight of the second in Tokyo to six in the morning of the first in
    // Honolulu: later as an instant, earlier by the date.
    let tokyo = Zone::from_name("Asia/Tokyo").unwrap();
    let honolulu = Zone::from_name("Pacific/Honolulu").unwrap();
    let begin = ZonedDateTime::from_utc(tokyo, JAN_1 + 15 * 3_600 + 1_800).unwrap();
    let end = ZonedDateTime::from_utc(honolulu, JAN_1 + 16 * 3_600).unwrap();
    assert_eq!(begin.date_naive(), Date::from_ymd(2024, 1, 2).unwrap());
    assert_eq!(end.date_naive(), Date::from_ymd(2024, 1, 1).unwrap());
    assert!(TimeSpan::from_start_and_end(begin, end).is_none());
    let there = ZonedDateTime::from_utc(tokyo, JAN_1 + 16 * 3_600).unwrap();
    assert_eq!(TimeSpan::from_start_and_end(begin, there).unwrap().num_days(), 1);
}

#[test]
fn a_whole_day_begins_at_midnight_and_ends_a_second_before_the_next() {
    let day = Date::from_ymd(2024, 3, 1).unwrap();
    let span = TimeSpan::allday(day, Zone::utc()).unwrap();
    assert!(span.is_allday());
    assert!(!span.is_instant());
    assert_eq!(span.begin().utc, 1_709_251_200);
    assert_eq!(span.end().utc, 1_709_251_200 + 86_399);
    assert_eq!(span.duration(), 86_400);
    assert_eq!(span.num_days(), 1);
    let berlin = Zone::from_name("Europe/Berlin").unwrap();
    let there = span.with_tz(berlin).unwrap();
    assert_eq!(there.begin().utc, 1_709_251_200 - 3_600);
    assert_eq!(there.timezone(), berlin);
}

#[test]
fn lengths_follow_the_kind_of_span() {
    assert_eq!(TimeSpan::from_start(utc(JAN_1)).duration(), 0);
    assert!(TimeSpan::from_start(utc(JAN_1)).is_instant());
    assert_eq!(TimeSpan::from_start_and_end(utc(JAN_1), utc(JAN_1 + 5_400)).unwrap().duration(), 5_400);
    let timed = TimeSpan::from_start_and_duration(utc(JAN_1), 7_200).unwrap();
    assert_eq!(timed.duration(), 7_200);
    assert_eq!(timed.end().utc, JAN_1 + 7_200);
    let a = Date::from_ymd(2024, 3, 1).unwrap();
    let b = Date::from_ymd(2024, 3, 4).unwrap();
    assert_eq!(TimeSpan::allday_until(a, b, Zone::utc()).unwrap().duration(), 3 * 86_400);
    assert!(TimeSpan::from_start_and_duration(utc(JAN_1), i64::MAX).is_none());
}

#[test]
fn a_span_within_one_day_is_its_own_slice() {
    let span = TimeSpan::from_start_and_end(utc(JAN_1 + 9 * 3_600), utc(JAN_1 + 10 * 3_600)).unwrap();
    assert_eq!(span.days().unwrap(), vec![span]);
    let instant = TimeSpan::from_start(utc(JAN_1));
    assert_eq!(instant.days().unwrap(), vec![instant]);
}

#[test]
fn a_span_over_three_days_has_three_slices() {
    let begin = utc(JAN_1 + 22 * 3_600);
    let end = utc(JAN_1 + 2 * 86_400 + 3 * 3_600);
    let span = TimeSpan::from_start_and_end(begin, end).unwrap();
    assert_eq!(span.num_days(), 3);
    let slices = span.days().unwrap();
    assert_eq!(
        slices,
        vec![
            TimeSpan::TimePoints(begin, utc(JAN_1 + 86_400)),
            TimeSpan::Allday(Date::from_ymd(2024, 1, 2).unwrap(), None, Zone::utc()),
            TimeSpan::TimePoints(utc(JAN_1 + 2 * 86_400), end),
        ]
    );
    assert_eq!(slices[0].begin(), span.begin());
    assert_eq!(slices[2].end(), span.end());
    assert_eq!(slices[1].begin().utc, slices[0].end().utc);
    assert_eq!(slices[1].end().utc + 1, slices[2].begin().utc);
}

#[test]
fn slices_break_at_local_midnight() {
    let berlin = Zone::from_name("Europe/Berlin").unwrap();
    // 2024-03-30T23:00 to 2024-04-01T01:00 local time, across the change of the clocks.
    let begin = ZonedDateTime::from_local(berlin, 1_711_839_600, Pick::Single).unwrap();
    let end = ZonedDateTime::from_local(berlin, 1_711_933_200, Pick::Single).unwrap();
    let slices = TimeSpan::from_start_and_end(begin, end).unwrap().days().unwrap();
    assert_eq!(slices.len(), 3);
    assert_eq!(slices[0].end().naive_local() % 86_400, 0);
    assert_eq!(slices[1].begin().naive_local() % 86_400, 0);
    assert_eq!(slices[2].begin().naive_local() % 86_400, 0);
    assert_eq!(slices[0].end().offset, 3_600);
    assert_eq!(slices[2].begin().offset, 7_200);
    assert_eq!(slices[1], TimeSpan::Allday(Date::from_ymd(2024, 3, 31).unwrap(), None, berlin));
}

#[test]
fn a_length_over_two_days_has_two_slices() {
    let span = TimeSpan::from_start_and_duration(utc(JAN_1 + 23 * 3_600), 7_200).unwrap();
    let slices = span.days().unwrap();
    assert_eq!(slices.len(), 2);
    assert_eq!(slices[0], TimeSpan::TimePoints(utc(JAN_1 + 23 * 3_600), utc(JAN_1 + 86_400)));
    assert_eq!(slices[1], TimeSpan::TimePoints(utc(JAN_1 + 86_400), utc(JAN_1 + 90_000)));
}

#[test]
fn a_span_can_be_moved_to_another_beginning() {
    let span = TimeSpan::from_start_and_end(utc(JAN_1), utc(JAN_1 + 1_800)).unwrap();
    let moved = span.moved_to(JAN_1 + 7 * 86_400).unwrap();
    assert_eq!(moved, TimeSpan::TimePoints(utc(JAN_1 + 7 * 86_400), utc(JAN_1 + 7 * 86_400 + 1_800)));
    let day = TimeSpan::allday(Date::from_ymd(2024, 3, 1).unwrap(), Zone::utc()).unwrap();
    let next = day.moved_to(1_709_251_200 + 86_400).unwrap();
    assert_eq!(next, TimeSpan::Allday(Date::from_ymd(2024, 3, 2).unwrap(), None, Zone::utc()));
}
