use jackal::event::FilePath;
use jackal::watch::{is_ical, relevant_modification, ExternalModification, Notification, NotificationKind};

fn file(name: &str, extension: Option<&str>) -> FilePath {
    FilePath {
        path: format!("/cal/{}", name),
        stem: Some(name.to_string()),
        extension: extension.map(|e| e.to_string()),
    }
}

fn classify(kind: NotificationKind, paths: Vec<FilePath>) -> Option<(char, String)> {
    relevant_modification(Notification { kind, paths }).map(|m| {
        let tag = match &m {
            ExternalModification::Create(_) => 'c',
            ExternalModification::Remove(_) => 'r',
            ExternalModification::Modify(_) => 'm',
        };
        (tag, m.path().path.clone())
    })
}

#[test]
fn event_files_are_known_by_their_extension() {
    assert!(is_ical(&file("a.ics", Some("ics"))));
    assert!(!is_ical(&file("a.txt", Some("txt"))));
    assert!(!is_ical(&file("a.ICS", Some("ICS"))));
    assert!(!is_ical(&file("ics", None)));
}

#[test]
fn a_created_event_file_is_new() {
    let hit = classify(NotificationKind::CreateFile, vec![file("a.ics", Some("ics"))]);
    assert_eq!(hit, Some(('c', "/cal/a.ics".to_string())));
    assert_eq!(classify(NotificationKind::CreateFile, vec![file("a.txt", Some("txt"))]), None);
}

#[test]
fn a_removed_or_renamed_away_event_file_is_gone() {
    let gone = Some(('r', "/cal/a.ics".to_string()));
    assert_eq!(classify(NotificationKind::RemoveFile, vec![file("a.ics", Some("ics"))]), gone);
    assert_eq!(classify(NotificationKind::RenameFrom, vec![file("a.ics", Some("ics"))]), gone);
    assert_eq!(classify(NotificationKind::RemoveFile, vec![file("a", None)]), None);
}

#[test]
fn a_changed_or_renamed_to_event_file_is_modified() {
    let changed = Some(('m', "/cal/a.ics".to_string()));
    assert_eq!(classify(NotificationKind::ModifyData, vec![file("a.ics", Some("ics"))]), changed);
    assert_eq!(classify(NotificationKind::RenameTo, vec![file("a.ics", Some("ics"))]), changed);
    assert_eq!(classify(NotificationKind::ModifyData, vec![file("a.tmp", Some("tmp"))]), None);
}

#[test]
fn a_rename_with_both_names_is_taken_carefully() {
    let ics = || file("a.ics", Some("ics"));
    let other = || file("b.ics", Some("ics"));
    let tmp = || file("a.tmp", Some("tmp"));
    let both = NotificationKind::RenameBoth;
    assert_eq!(classify(both, vec![ics(), other()]), Some(('r', "/cal/a.ics".to_string())));
    assert_eq!(classify(both, vec![ics(), tmp()]), Some(('r', "/cal/a.ics".to_string())));
    assert_eq!(classify(both, vec![tmp(), other()]), Some(('m', "/cal/b.ics".to_string())));
    assert_eq!(classify(both, vec![tmp(), tmp()]), None);
    assert_eq!(classify(both, vec![tmp()]), None);
}

#[test]
fn other_notifications_mean_nothing() {
    assert_eq!(classify(NotificationKind::Other, vec![file("a.ics", Some("ics"))]), None);
    assert_eq!(classify(NotificationKind::CreateFile, Vec::new()), None);
}
