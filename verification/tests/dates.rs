use jackal::datetime::{day_number, days_of_month, days_of_year, Date, ZonedDateTime};
use jackal::zone::{LocalOffsets, Pick, Zone};

#[test]
fn the_epoch_is_day_zero() {
    assert_eq!(Date::from_ymd(1970, 1, 1).unwrap().days(), 0);
    assert_eq!(Date::from_ymd(1969, 12, 31).unwrap().days(), -1);
    assert_eq!(Date::from_ymd(2024, 1, 1).unwrap().days(), 19_723);
    assert_eq!(Date::from_ymd(2024, 3, 1).unwrap().days(), 19_783);
    assert_eq!(Date::from_ymd(2000, 2, 29).unwrap().days(), 11_016);
    assert_eq!(Date::from_ymd(1, 1, 1).unwrap().days(), -719_162);
    assert_eq!(Date::from_ymd(0, 12, 31).unwrap().days(), -719_163);
}

#[test]
fn day_numbers_agree_with_chrono() {
    let epoch = chrono::NaiveDate::from_ymd_opt(1970, 1, 1).unwrap();
    for (y, m, d) in [(1600, 2, 29), (1900, 3, 1), (2023, 12, 31), (2100, 2, 28), (-44, 3, 15)] {
        let theirs = chrono::NaiveDate::from_ymd_opt(y, m, d).unwrap();
        let ours = Date::from_ymd(y, m, d).unwrap();
        assert_eq!(ours.days(), theirs.signed_duration_since(epoch).num_days());
    }
}

#[test]
fn dates_that_do_not_exist_are_refused() {
    assert!(Date::from_ymd(2023, 2, 29).is_none());
    assert!(Date::from_ymd(1900, 2, 29).is_none());
    assert!(Date::from_ymd(2024, 13, 1).is_none());
    assert!(Date::from_ymd(2024, 0, 1).is_none());
    assert!(Date::from_ymd(2024, 4, 31).is_none());
    assert!(Date::from_ymd(2024, 4, 0).is_none());
    assert!(Date::from_ymd(12_000, 1, 1).is_none());
    assert!(Date::from_ymd(-9_000, 1, 1).is_none());
    assert!(Date::from_ymd(i32::MAX, 1, 1).is_none());
    assert!(Date::from_ymd(i32::MIN, 12, 31).is_none());
    assert_eq!(Date::from_ymd(11_970, 3, 17).unwrap().days(), 3_652_500);
    assert!(Date::from_ymd(11_970, 3, 18).is_none());
}

#[test]
fn a_date_gives_back_its_year_month_and_day() {
    assert_eq!(Date::from_days(0).unwrap().ymd(), (1970, 1, 1));
    assert_eq!(Date::from_days(-1).unwrap().ymd(), (1969, 12, 31));
    assert_eq!(Date::from_days(19_782).unwrap().ymd(), (2024, 2, 29));
    assert_eq!(Date::from_days(19_783).unwrap().ymd(), (2024, 3, 1));
    assert_eq!(Date::from_days(20_088).unwrap().ymd(), (2024, 12, 31));
    assert_eq!(Date::from_days(-719_163).unwrap().ymd(), (0, 12, 31));
    assert_eq!(Date::from_days(3_652_500).unwrap().ymd(), (11_970, 3, 17));
    for day in [-3_652_500i64, -1_000_000, -366, -365, 58, 59, 60, 365, 366, 11_016, 3_000_000] {
        let (y, m, d) = Date::from_days(day).unwrap().ymd();
        assert_eq!(Date::from_ymd(y, m, d).unwrap().days(), day);
        let theirs = chrono::NaiveDate::from_ymd_opt(y, m, d).unwrap();
        let epoch = chrono::NaiveDate::from_ymd_opt(1970, 1, 1).unwrap();
        assert_eq!(theirs.signed_duration_since(epoch).num_days(), day);
    }
}

#[test]
fn months_have_their_lengths() {
    assert_eq!(days_of_month(1, 2024), 31);
    assert_eq!(days_of_month(2, 2024), 29);
    assert_eq!(days_of_month(2, 2023), 28);
    assert_eq!(days_of_month(2, 1900), 28);
    assert_eq!(days_of_month(2, 2000), 29);
    assert_eq!(days_of_month(4, 2024), 30);
    assert_eq!(days_of_month(12, 2024), 31);
    assert_eq!(days_of_year(2024), 366);
    assert_eq!(days_of_year(2023), 365);
    assert_eq!(days_of_year(1900), 365);
    assert_eq!(days_of_year(2000), 366);
}

#[test]
fn days_are_floored() {
    assert_eq!(day_number(0), 0);
    assert_eq!(day_number(86_399), 0);
    assert_eq!(day_number(86_400), 1);
    assert_eq!(day_number(-1), -1);
    assert_eq!(day_number(-86_400), -1);
    assert_eq!(day_number(-86_401), -2);
}

#[test]
fn the_next_day_follows() {
    let d = Date::from_ymd(2024, 2, 28).unwrap();
    assert_eq!(d.succ().unwrap(), Date::from_ymd(2024, 2, 29).unwrap());
    assert_eq!(d.midnight_seconds(), 1_709_078_400);
    assert_eq!(d.last_second_seconds(), 1_709_164_799);
    assert!(Date::from_days(3_652_500).unwrap().succ().is_none());
    assert!(Date::from_days(3_652_501).is_none());
}

#[test]
fn zones_are_found_by_name() {
    assert!(Zone::from_name("Europe/Berlin").is_some());
    assert!(Zone::from_name("Mars/Olympus").is_none());
    assert!(Zone::from_name("europe/berlin").is_none());
    assert_eq!(Zone::from_name("UTC").unwrap(), Zone::utc());
    assert_ne!(Zone::from_name("Europe/Berlin").unwrap(), Zone::utc());
}

#[test]
fn offsets_follow_the_season() {
    let berlin = Zone::from_name("Europe/Berlin").unwrap();
    assert_eq!(berlin.offset_at(1_704_067_200), 3_600);
    assert_eq!(berlin.offset_at(1_719_792_000), 7_200);
    assert_eq!(Zone::utc().offset_at(1_719_792_000), 0);
    let new_york = Zone::from_name("America/New_York").unwrap();
    assert_eq!(new_york.offset_at(1_704_067_200), -18_000);
}

#[test]
fn local_times_can_be_skipped_or_doubled() {
    let berlin = Zone::from_name("Europe/Berlin").unwrap();
    // 2024-03-31T02:30:00 does not exist, 2024-10-27T02:30:00 exists twice.
    assert_eq!(berlin.local_offsets(1_711_852_200), LocalOffsets::Gap);
    assert_eq!(berlin.local_offsets(1_729_996_200), LocalOffsets::Fold(7_200, 3_600));
    assert_eq!(berlin.local_offsets(1_704_099_600), LocalOffsets::Single(3_600));
    assert_eq!(LocalOffsets::Fold(7_200, 3_600).choose_offset(Pick::Earliest), Some(7_200));
    assert_eq!(LocalOffsets::Fold(7_200, 3_600).choose_offset(Pick::Latest), Some(3_600));
    assert_eq!(LocalOffsets::Fold(7_200, 3_600).choose_offset(Pick::Single), None);
    assert_eq!(LocalOffsets::Gap.choose_offset(Pick::Earliest), None);
}

#[test]
fn instants_are_read_in_their_zone() {
    let berlin = Zone::from_name("Europe/Berlin").unwrap();
    let at = ZonedDateTime::from_utc(berlin, 1_704_063_600).unwrap();
    assert_eq!(at.offset, 3_600);
    assert_eq!(at.naive_local(), 1_704_067_200);
    assert_eq!(at.date_naive(), Date::from_ymd(2024, 1, 1).unwrap());
    assert_eq!(at.timestamp(), 1_704_063_600);
    assert_eq!(at.timezone(), berlin);
    let utc = at.with_timezone(Zone::utc()).unwrap();
    assert_eq!(utc.date_naive(), Date::from_ymd(2023, 12, 31).unwrap());
    let later = at.checked_add(182 * 86_400).unwrap();
    assert_eq!(later.offset, 7_200);
    assert!(at.checked_add(i64::MAX).is_none());
    assert!(ZonedDateTime::from_utc(berlin, 400_000_000_001).is_none());
}

#[test]
fn local_times_resolve_to_instants() {
    let berlin = Zone::from_name("Europe/Berlin").unwrap();
    let fold = 1_729_996_200;
    let early = ZonedDateTime::from_local(berlin, fold, Pick::Earliest).unwrap();
    let late = ZonedDateTime::from_local(berlin, fold, Pick::Latest).unwrap();
    assert_eq!(early.utc, fold - 7_200);
    assert_eq!(late.utc, fold - 3_600);
    assert!(ZonedDateTime::from_local(berlin, fold, Pick::Single).is_none());
    assert!(ZonedDateTime::from_local(berlin, 1_711_852_200, Pick::Earliest).is_none());
    assert!(ZonedDateTime::from_local(berlin, i64::MAX, Pick::Earliest).is_none());
}
