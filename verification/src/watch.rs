//! File-change notifications and what they mean for a calendar.

use crate::event::{FilePath, ICAL_FILE_EXT};
use vstd::prelude::*;

verus! {

/// What a file-change notification reports.
#[derive(Clone, Copy, Debug, PartialEq, Eq, Structural)]
pub enum NotificationKind {
    /// A file was created.
    CreateFile,
    /// A file was removed.
    RemoveFile,
    /// The content of a file changed.
    ModifyData,
    /// A file was renamed; the notification holds its old name.
    RenameFrom,
    /// A file was renamed; the notification holds its new name.
    RenameTo,
    /// A file was renamed; the notification holds both names, the old first.
    RenameBoth,
    /// Anything else.
    Other,
}

/// A file-change notification: what happened, and to which files.
#[derive(Debug)]
pub struct Notification {
    pub kind: NotificationKind,
    pub paths: Vec<FilePath>,
}

/// A change of an event file that a calendar has to follow.
#[derive(Debug)]
pub enum ExternalModification {
    /// A new event file.
    Create(FilePath),
    /// An event file is gone.
    Remove(FilePath),
    /// An event file has new content, or may have replaced an older one.
    Modify(FilePath),
}

/// The file is an event file: its extension is the one of event files.
pub open spec fn is_ical_spec(file: FilePath) -> bool {
    file.extension matches Some(ext) && ext@ == ICAL_FILE_EXT@
}

/// What a notification means. A created event file is new; a removed or
/// renamed-away one is gone; one whose content changed, or that another file
/// was renamed to, is modified. A rename with both names means that the old
/// file is gone where that was an event file; otherwise that the new one is
/// modified where that is an event file. Anything else means nothing.
pub open spec fn classify(kind: NotificationKind, paths: Seq<FilePath>) -> Option<
    ExternalModification,
> {
    if paths.len() == 0 {
        None
    } else {
        match kind {
            NotificationKind::CreateFile => if is_ical_spec(paths[0]) {
                Some(ExternalModification::Create(paths[0]))
            } else {
                None
            },
            NotificationKind::RemoveFile | NotificationKind::RenameFrom => if is_ical_spec(
                paths[0],
            ) {
                Some(ExternalModification::Remove(paths[0]))
            } else {
                None
            },
            NotificationKind::ModifyData | NotificationKind::RenameTo => if is_ical_spec(
                paths[0],
            ) {
                Some(ExternalModification::Modify(paths[0]))
            } else {
                None
            },
            NotificationKind::RenameBoth => if is_ical_spec(paths[0]) {
                Some(ExternalModification::Remove(paths[0]))
            } else if paths.len() > 1 && is_ical_spec(paths[1]) {
                Some(ExternalModification::Modify(paths[1]))
            } else {
                None
            },
            NotificationKind::Other => None,
        }
    }
}

/// Whether the file is an event file.
pub fn is_ical(file: &FilePath) -> (r: bool)
    ensures
        r == is_ical_spec(*file),
{
    match &file.extension {
        Some(ext) => {
            let wanted = ICAL_FILE_EXT.to_owned();
            *ext == wanted
        },
        None => false,
    }
}

/// What a notification means for the calendar that watches the files.
pub fn relevant_modification(event: Notification) -> (r: Option<ExternalModification>)
    ensures
        r == classify(event.kind, event.paths@),
{
    let Notification { kind, paths: mut paths } = event;
    let ghost all = paths@;
    if paths.len() == 0 {
        return None;
    }
    let first_is_ical = is_ical(&paths[0]);
    match kind {
        NotificationKind::CreateFile => {
            if first_is_ical {
                Some(ExternalModification::Create(paths.swap_remove(0)))
            } else {
                None
            }
        },
        NotificationKind::RemoveFile | NotificationKind::RenameFrom => {
            if first_is_ical {
                Some(ExternalModification::Remove(paths.swap_remove(0)))
            } else {
                None
            }
        },
        NotificationKind::ModifyData | NotificationKind::RenameTo => {
            if first_is_ical {
                Some(ExternalModification::Modify(paths.swap_remove(0)))
            } else {
                None
            }
        },
        NotificationKind::RenameBoth => {
            if first_is_ical {
                Some(ExternalModification::Remove(paths.swap_remove(0)))
            } else if paths.len() > 1 && is_ical(&paths[1]) {
                Some(ExternalModification::Modify(paths.swap_remove(1)))
            } else {
                None
            }
        },
        NotificationKind::Other => None,
    }
}

impl ExternalModification {
    /// The file that changed.
    pub open spec fn file(self) -> FilePath {
        match self {
            ExternalModification::Create(f) => f,
            ExternalModification::Remove(f) => f,
            ExternalModification::Modify(f) => f,
        }
    }

    /// The file that changed.
    pub fn path(&self) -> (r: &FilePath)
        ensures
            *r == self.file(),
    {
        match self {
            ExternalModification::Create(f) => f,
            ExternalModification::Remove(f) => f,
            ExternalModification::Modify(f) => f,
        }
    }
}

} // verus!
