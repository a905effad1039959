use jackal::duration::IcalDuration;
use jackal::error::ErrorKind;
use jackal::property::Property;

fn seconds(text: &str) -> i64 {
    IcalDuration::from_str(text).expect("a duration").as_seconds()
}

fn rejected(text: &str) -> bool {
    match IcalDuration::from_str(text) {
        Ok(_) => false,
        Err(e) => e.kind() == ErrorKind::DurationParse,
    }
}

#[test]
fn years_months_and_days_are_approximated() {
    assert_eq!(seconds("P1Y2M3D"), (360 + 60 + 3) * 86_400);
    let d = IcalDuration::from_str("P1Y2M3D").unwrap();
    assert_eq!((d.sign, d.years, d.months, d.weeks, d.days), (1, 1, 2, 0, 3));
    assert_eq!((d.hours, d.minutes, d.seconds), (0, 0, 0));
}

#[test]
fn hours_after_the_time_marker() {
    assert_eq!(seconds("PT5H"), 18_000);
    assert_eq!(seconds("PT1H30M15S"), 5_415);
    assert_eq!(seconds("PT5M"), 300);
}

#[test]
fn weeks_are_seven_days() {
    assert_eq!(seconds("P2W"), 1_209_600);
}

#[test]
fn the_sign_is_honored() {
    assert_eq!(seconds("-P1D"), -86_400);
    assert_eq!(seconds("+P1D"), 86_400);
    assert_eq!(seconds("-PT1S"), -1);
}

#[test]
fn months_before_the_marker_minutes_after_it() {
    assert_eq!(seconds("P1M"), 2_592_000);
    assert_eq!(seconds("P1MT1M"), 2_592_060);
}

#[test]
fn a_date_with_an_empty_time_part_is_a_duration() {
    assert_eq!(seconds("P1DT"), 86_400);
}

#[test]
fn malformed_durations_are_rejected() {
    assert!(rejected("P"));
    assert!(rejected("1D"));
    assert!(rejected("PXD"));
    assert!(rejected(""));
    assert!(rejected("PT"));
    assert!(rejected("-"));
    assert!(rejected("P1"));
    assert!(rejected("P1D1Y"));
    assert!(rejected("P1W2D"));
    assert!(rejected("P1D "));
    assert!(rejected("p1d"));
}

#[test]
fn a_number_too_large_is_rejected() {
    assert!(rejected("P99999999999999999999D"));
    assert!(rejected("P9223372036854775807D"));
    assert_eq!(seconds("PT9223372036854775807S"), i64::MAX);
}

#[test]
fn the_default_duration_is_empty() {
    let d = IcalDuration::default();
    assert_eq!(d.as_seconds(), 0);
}

#[test]
fn a_duration_property_without_a_value_is_an_event_error() {
    let p = Property { name: "DURATION".to_string(), params: None, value: None };
    assert_eq!(IcalDuration::try_from(&p).unwrap_err().kind(), ErrorKind::EventParse);
    let q = Property::new("DURATION", "PT15M");
    assert_eq!(IcalDuration::try_from(&q).unwrap().as_seconds(), 900);
    let r = Property::new("DURATION", "soon");
    assert_eq!(IcalDuration::try_from(&r).unwrap_err().kind(), ErrorKind::DurationParse);
}
