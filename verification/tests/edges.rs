use jackal::datetime::ZonedDateTime;
use jackal::recurrence::{Recurrence, RuleCheck};
use jackal::zone::{Pick, Zone};

const LIMIT: i64 = 400_000_000_000;

#[test]
fn zones_answer_at_the_ends_of_time() {
    let berlin = Zone::from_name("Europe/Berlin").unwrap();
    let kiritimati = Zone::from_name("Pacific/Kiritimati").unwrap();
    for zone in [berlin, kiritimati, Zone::utc()] {
        for t in [-LIMIT, -LIMIT + 1, -1, 0, 1, LIMIT - 1, LIMIT] {
            let offset = zone.offset_at(t);
            assert!(-86_400 < offset && offset < 86_400);
            let _ = zone.local_offsets(t);
        }
    }
    assert!(ZonedDateTime::from_utc(berlin, LIMIT).is_none());
    assert!(ZonedDateTime::from_utc(berlin, -LIMIT).is_none());
    assert!(ZonedDateTime::from_local(berlin, 315_576_000_000 + 86_399, Pick::Earliest).is_some());
    assert!(ZonedDateTime::from_local(berlin, 315_576_000_000 + 86_400, Pick::Earliest).is_none());
    assert!(ZonedDateTime::from_local(berlin, -315_576_000_000, Pick::Earliest).is_some());
    assert!(ZonedDateTime::from_local(berlin, -315_576_000_001, Pick::Earliest).is_none());
}

#[test]
fn rules_answer_at_the_ends_of_time() {
    let utc = Zone::utc();
    for start in [-LIMIT, -315_576_000_000, 0, 315_576_000_000, LIMIT] {
        let check = Recurrence::check("FREQ=YEARLY", start, utc);
        assert!(check == RuleCheck::Valid || check == RuleCheck::Invalid);
        let rule = Recurrence::new("FREQ=YEARLY");
        let found = rule.instants(start, utc, -LIMIT, LIMIT);
        assert!(found.iter().all(|t| -LIMIT <= *t && *t <= LIMIT));
        let near = rule.instants(start, utc, start, start);
        assert!(near.len() <= 1);
    }
}

#[test]
fn a_rule_with_many_instants_is_expanded_to_the_end() {
    let rule = Recurrence::new("FREQ=SECONDLY");
    let found = rule.instants(0, Zone::utc(), 10, 150_000);
    assert_eq!(found.len(), 149_991);
    assert_eq!(found[0], 10);
    assert_eq!(found[65_535], 65_545);
    assert_eq!(found[149_990], 150_000);
    assert!(found.windows(2).all(|w| w[0] + 1 == w[1]));
    assert!(rule.instants(0, Zone::utc(), 10, 9).is_empty());
    let exactly = rule.instants(0, Zone::utc(), 1, 65_535);
    assert_eq!(exactly.len(), 65_535);
    assert_eq!(Recurrence::largest(&vec![3, 9, 4], 5), 9);
    assert_eq!(Recurrence::largest(&vec![3, 4], 5), 5);
}
