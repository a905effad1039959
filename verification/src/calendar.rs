//! The occurrence index of one calendar, and its reconciliation with
//! changes of the files behind it.
//!
//! The index lists, in the order of time, every instant at which an event
//! of the calendar begins inside a window around the moment of loading.
//! Entries with the same instant stand in the order in which they came.

use crate::datetime::ZonedDateTime;
use crate::error::Error;
use crate::event::{is_event_of, Event, FilePath, Occurrence};
use crate::occurrence::OccurrenceRule;
use crate::property::{record_text, IcalCalendar};
use crate::seqs::lemma_filter_take_step;
use crate::text::{read_record, record_of_text};
use crate::timespan::TimeSpan;
use crate::watch::ExternalModification;
use crate::zone::{Pick, Zone};
use std::rc::Rc;
use vstd::prelude::*;

verus! {

/// The window reaches this many days back and ahead.
pub const WINDOW_DAYS: i64 = 356;

/// The seconds of `WINDOW_DAYS` days.
pub const WINDOW_SECONDS: i64 = 30_758_400;

/// The moment of loading lies so far inside the range of instants that the
/// window around it does too.
pub const NOW_LIMIT: i64 = 399_969_241_600;

/// One entry of the index: an instant at which an event begins.
#[derive(Debug)]
pub struct IndexEntry {
    pub instant: i64,
    pub event: Rc<Event>,
}

/// One bound of a range of instants or of local times, in seconds.
#[derive(Clone, Copy, Debug, PartialEq, Eq, Structural)]
pub enum TimeBound {
    Included(i64),
    Excluded(i64),
    Unbounded,
}

/// A choice of events.
#[derive(Clone, Copy, Debug, PartialEq, Eq, Structural)]
pub enum EventFilter {
    /// Those that begin within a range of local times.
    InRange(TimeBound, TimeBound),
}

/// An event file as it was read: its path, and the event of the record in
/// it, or the error where the record describes none.
#[derive(Debug)]
pub struct LoadedFile {
    pub path: String,
    pub event: Option<Event>,
    pub error: Option<Error>,
}

/// A change of an event file together with what the file holds now: the
/// event of the record in it, where the change left a file with one, or the
/// error where the record describes none.
#[derive(Debug)]
pub struct LoadedModification {
    pub modification: ExternalModification,
    pub event: Option<Event>,
    pub error: Option<Error>,
}

/// One calendar: the events that were read from one directory, indexed by
/// the instants at which they begin.
#[derive(Debug)]
pub struct Calendar {
    pub path: String,
    pub identifier: String,
    pub friendly_name: String,
    pub tz: Zone,
    pub events: Vec<IndexEntry>,
}

/// A moment of loading around which a window can be laid.
pub open spec fn now_in_range(now: int) -> bool {
    -NOW_LIMIT <= now <= NOW_LIMIT
}

/// The entries are in the order of time.
pub open spec fn sorted(entries: Seq<IndexEntry>) -> bool {
    forall|i: int, j: int|
        0 <= i <= j < entries.len() ==> (#[trigger] entries[i]).instant <= (
        #[trigger] entries[j]).instant
}

/// Where an entry for the instant `t` goes: behind the last entry that is
/// not later.
pub open spec fn insert_position(entries: Seq<IndexEntry>, t: i64) -> int
    decreases entries.len(),
{
    if entries.len() == 0 || entries.last().instant <= t {
        entries.len() as int
    } else {
        insert_position(entries.drop_last(), t)
    }
}

/// The index with one more entry.
pub open spec fn inserted(entries: Seq<IndexEntry>, t: i64, event: Rc<Event>) -> Seq<IndexEntry> {
    entries.insert(insert_position(entries, t), IndexEntry { instant: t, event })
}

/// The index with one entry more for each of `instants`, taken in turn.
pub open spec fn added(entries: Seq<IndexEntry>, event: Rc<Event>, instants: Seq<i64>) -> Seq<
    IndexEntry,
>
    decreases instants.len(),
{
    if instants.len() == 0 {
        entries
    } else {
        inserted(added(entries, event, instants.drop_last()), instants.last(), event)
    }
}

/// Every entry lies from `after` to `before`, both included.
pub open spec fn all_within(entries: Seq<IndexEntry>, after: int, before: int) -> bool {
    forall|i: int| 0 <= i < entries.len() ==> after <= (#[trigger] entries[i]).instant <= before
}

/// The instants at which an event begins inside the window around `now`.
pub open spec fn window_instants(event: Event, now: int) -> Seq<i64> {
    event.occurrence.instants_spec(now - WINDOW_SECONDS, now + WINDOW_SECONDS)
}

/// The index with an event, where there is one.
pub open spec fn with_event(entries: Seq<IndexEntry>, event: Option<Event>, now: int) -> Seq<
    IndexEntry,
> {
    match event {
        Some(e) => added(entries, Rc::new(e), window_instants(e, now)),
        None => entries,
    }
}

/// Reading the record of the file at `path` gave `event`, or `error` where
/// the record describes no event; a file without a record gives no event.
pub open spec fn read_as(
    path: String,
    record: Option<IcalCalendar>,
    event: Option<Event>,
    error: Option<Error>,
) -> bool {
    match record {
        None => event.is_none(),
        Some(ical) => match event {
            Some(e) => error.is_none() && is_event_of(path, ical, Ok(e)),
            None => error matches Some(err) && is_event_of(path, ical, Err(err.kind)),
        },
    }
}

/// The index without the entries of the events that a file holds.
pub open spec fn removed(entries: Seq<IndexEntry>, file: FilePath) -> Seq<IndexEntry> {
    entries.filter(|e: IndexEntry| !e.event.matches_spec(file))
}

/// The index after one change: a removed file loses its entries, a new file
/// gains those of its event, and a modified file does both, in this order.
pub open spec fn applied(entries: Seq<IndexEntry>, change: LoadedModification, now: int) -> Seq<
    IndexEntry,
> {
    match change.modification {
        ExternalModification::Create(_) => with_event(entries, change.event, now),
        ExternalModification::Remove(file) => removed(entries, file),
        ExternalModification::Modify(file) => with_event(removed(entries, file), change.event, now),
    }
}

/// The events of a queue of changes are well formed.
pub open spec fn all_wf(changes: Seq<LoadedModification>) -> bool {
    forall|i: int| 0 <= i < changes.len() ==> (#[trigger] changes[i]).wf()
}

/// The index after a queue of changes, each applied in its turn.
pub open spec fn applied_all(entries: Seq<IndexEntry>, changes: Seq<LoadedModification>, now: int)
    -> Seq<IndexEntry>
    decreases changes.len(),
{
    if changes.len() == 0 {
        entries
    } else {
        applied(applied_all(entries, changes.drop_last(), now), changes.last(), now)
    }
}

/// The index of the files of a directory, each taken in its turn; a file
/// without an event adds nothing.
pub open spec fn loaded(files: Seq<LoadedFile>, now: int) -> Seq<IndexEntry>
    decreases files.len(),
{
    if files.len() == 0 {
        Seq::empty()
    } else {
        with_event(loaded(files.drop_last(), now), files.last().event, now)
    }
}

/// The zone of the first file that holds an event.
pub open spec fn first_zone(files: Seq<LoadedFile>) -> Option<Zone>
    decreases files.len(),
{
    if files.len() == 0 {
        None
    } else {
        match first_zone(files.drop_last()) {
            Some(z) => Some(z),
            None => match files.last().event {
                Some(event) => Some(event.tz),
                None => None,
            },
        }
    }
}

/// The instant `t` lies within the two bounds.
pub open spec fn in_bounds(t: i64, begin: TimeBound, end: TimeBound) -> bool {
    &&& match begin {
        TimeBound::Included(b) => b <= t,
        TimeBound::Excluded(b) => b < t,
        TimeBound::Unbounded => true,
    }
    &&& match end {
        TimeBound::Included(e) => t <= e,
        TimeBound::Excluded(e) => t < e,
        TimeBound::Unbounded => true,
    }
}

/// The span of the occurrence that an entry stands for: the span of an
/// event that occurs once; the template of a recurring one, moved to the
/// entry's instant.
pub open spec fn span_at(rule: OccurrenceRule, t: i64) -> Option<TimeSpan> {
    match rule {
        OccurrenceRule::Onetime(ts) => Some(ts),
        OccurrenceRule::Recurring(ts, _) => ts.moved_to_spec(t as int),
    }
}

/// The occurrences of the entries within the bounds, in the order of the
/// index; an entry whose span cannot be held gives none.
pub open spec fn occurrences(entries: Seq<IndexEntry>, begin: TimeBound, end: TimeBound) -> Seq<
    Occurrence,
>
    decreases entries.len(),
{
    if entries.len() == 0 {
        Seq::empty()
    } else {
        let rest = occurrences(entries.drop_last(), begin, end);
        let last = entries.last();
        if in_bounds(last.instant, begin, end) {
            match span_at(last.event.occurrence, last.instant) {
                Some(span) => rest.push(Occurrence { span, event: last.event }),
                None => rest,
            }
        } else {
            rest
        }
    }
}

/// The events that begin at the instant `t`, in the order in which they came
/// into the index.
pub open spec fn events_at(entries: Seq<IndexEntry>, t: i64) -> Seq<Rc<Event>>
    decreases entries.len(),
{
    if entries.len() == 0 {
        Seq::empty()
    } else if entries.last().instant == t {
        events_at(entries.drop_last(), t).push(entries.last().event)
    } else {
        events_at(entries.drop_last(), t)
    }
}

/// The instant that a bound of local times means in a zone: the earliest
/// instant with that local time.
pub open spec fn bound_in(zone: Zone, bound: TimeBound) -> Option<TimeBound> {
    match bound {
        TimeBound::Included(t) => match ZonedDateTime::try_at_local(zone, t as int, Pick::Earliest) {
            Some(at) => Some(TimeBound::Included(at.utc)),
            None => None,
        },
        TimeBound::Excluded(t) => match ZonedDateTime::try_at_local(zone, t as int, Pick::Earliest) {
            Some(at) => Some(TimeBound::Excluded(at.utc)),
            None => None,
        },
        TimeBound::Unbounded => Some(TimeBound::Unbounded),
    }
}

/// The position of the first entry, from `from` on, whose event has the
/// identifier `uid`.
pub open spec fn first_with_uid(entries: Seq<IndexEntry>, uid: Seq<char>, from: int) -> Option<int>
    decreases entries.len() - from,
{
    if from < 0 || from >= entries.len() {
        None
    } else if entries[from].event.uid_spec() == Some(uid) {
        Some(from)
    } else {
        first_with_uid(entries, uid, from + 1)
    }
}

/// `Rc::clone`: another handle to the same event. Trusted: the new handle
/// holds what the old one holds.
#[verifier::external_body]
pub(crate) fn share(event: &Rc<Event>) -> (r: Rc<Event>)
    ensures
        r == *event,
{
    Rc::clone(event)
}

fn resolve_bound(zone: Zone, bound: TimeBound) -> (r: Option<TimeBound>)
    requires
        zone.wf(),
    ensures
        r == bound_in(zone, bound),
{
    match bound {
        TimeBound::Included(t) => match ZonedDateTime::from_local(zone, t, Pick::Earliest) {
            Some(at) => Some(TimeBound::Included(at.utc)),
            None => None,
        },
        TimeBound::Excluded(t) => match ZonedDateTime::from_local(zone, t, Pick::Earliest) {
            Some(at) => Some(TimeBound::Excluded(at.utc)),
            None => None,
        },
        TimeBound::Unbounded => Some(TimeBound::Unbounded),
    }
}

pub(crate) fn within(t: i64, begin: TimeBound, end: TimeBound) -> (r: bool)
    ensures
        r == in_bounds(t, begin, end),
{
    let lower = match begin {
        TimeBound::Included(b) => b <= t,
        TimeBound::Excluded(b) => b < t,
        TimeBound::Unbounded => true,
    };
    let upper = match end {
        TimeBound::Included(e) => t <= e,
        TimeBound::Excluded(e) => t < e,
        TimeBound::Unbounded => true,
    };
    lower && upper
}

impl LoadedFile {
    /// The event, where there is one, is well formed.
    pub open spec fn wf(self) -> bool {
        self.event matches Some(e) ==> e.wf()
    }

    /// An event file with the event that its record describes. A file
    /// without a record has none; a record that describes no event leaves
    /// its error.
    pub fn from_record(path: String, record: Option<IcalCalendar>) -> (r: LoadedFile)
        ensures
            r.path == path,
            r.wf(),
            read_as(path, record, r.event, r.error),
    {
        match record {
            Some(ical) => match Event::from_ical(path.clone(), ical) {
                Ok(event) => LoadedFile { path, event: Some(event), error: None },
                Err(e) => LoadedFile { path, event: None, error: Some(e) },
            },
            None => LoadedFile { path, event: None, error: None },
        }
    }

    /// An event file with the event that the record in its text describes:
    /// none where the file could not be read or its text holds no record.
    pub fn read(path: String, content: Option<&str>) -> (r: LoadedFile)
        ensures
            r.path == path,
            r.wf(),
            match content {
                Some(text) => match record_of_text(text@) {
                    Some(texts) => exists|ical: IcalCalendar|
                        record_text(ical) == texts && #[trigger] read_as(
                            path,
                            Some(ical),
                            r.event,
                            r.error,
                        ),
                    None => r.event.is_none(),
                },
                None => r.event.is_none(),
            },
    {
        let record = match content {
            Some(text) => read_record(text),
            None => None,
        };
        let ghost given = record;
        let r = Self::from_record(path, record);
        proof {
            if given.is_some() {
                assert(read_as(path, Some(given.unwrap()), r.event, r.error));
            }
        }
        r
    }
}

impl LoadedModification {
    /// The event, where there is one, is well formed.
    pub open spec fn wf(self) -> bool {
        self.event matches Some(e) ==> e.wf()
    }

    /// A change of an event file with the event that the record describes
    /// which the file holds now; a file that is gone has none.
    pub fn from_record(modification: ExternalModification, record: Option<IcalCalendar>) -> (r:
        LoadedModification)
        ensures
            r.modification == modification,
            r.wf(),
            if modification is Remove {
                r.event.is_none()
            } else {
                read_as(modification.file().path, record, r.event, r.error)
            },
    {
        match record {
            Some(ical) => {
                let gone = match &modification {
                    ExternalModification::Remove(_) => true,
                    _ => false,
                };
                if gone {
                    LoadedModification { modification, event: None, error: None }
                } else {
                    match Event::from_ical(modification.path().path.clone(), ical) {
                        Ok(event) => LoadedModification {
                            modification,
                            event: Some(event),
                            error: None,
                        },
                        Err(e) => LoadedModification { modification, event: None, error: Some(e) },
                    }
                }
            },
            None => LoadedModification { modification, event: None, error: None },
        }
    }

    /// A change of an event file with the event that the record in the text
    /// of the file describes; a file that is gone is not read.
    pub fn read(modification: ExternalModification, content: Option<&str>) -> (r:
        LoadedModification)
        ensures
            r.modification == modification,
            r.wf(),
            match content {
                Some(text) => if modification is Remove {
                    r.event.is_none()
                } else {
                    match record_of_text(text@) {
                        Some(texts) => exists|ical: IcalCalendar|
                            record_text(ical) == texts && #[trigger] read_as(
                                modification.file().path,
                                Some(ical),
                                r.event,
                                r.error,
                            ),
                        None => r.event.is_none(),
                    }
                },
                None => r.event.is_none(),
            },
    {
        let gone = match &modification {
            ExternalModification::Remove(_) => true,
            _ => false,
        };
        let record = match content {
            Some(text) => if gone {
                None
            } else {
                read_record(text)
            },
            None => None,
        };
        let ghost given = record;
        let r = Self::from_record(modification, record);
        proof {
            if given.is_some() {
                assert(read_as(
                    modification.file().path,
                    Some(given.unwrap()),
                    r.event,
                    r.error,
                ));
            }
        }
        r
    }
}

impl Default for EventFilter {
    fn default() -> (r: EventFilter)
        ensures
            r == EventFilter::InRange(TimeBound::Unbounded, TimeBound::Unbounded),
    {
        EventFilter::InRange(TimeBound::Unbounded, TimeBound::Unbounded)
    }
}

impl EventFilter {
    /// The filter for a range of local times.
    pub fn datetime_range(self, begin: TimeBound, end: TimeBound) -> (r: EventFilter)
        ensures
            r == EventFilter::InRange(begin, end),
    {
        EventFilter::InRange(begin, end)
    }
}

impl Calendar {
    /// The zone is well formed, the index is in the order of time, and its
    /// events are well formed.
    pub open spec fn wf(self) -> bool {
        &&& self.tz.wf()
        &&& sorted(self.events@)
        &&& forall|i: int| 0 <= i < self.events@.len() ==> (#[trigger] self.events@[i]).event.wf()
    }

    /// Everything but the index is as in `other`.
    pub open spec fn same_frame(self, other: Calendar) -> bool {
        &&& self.path == other.path
        &&& self.identifier == other.identifier
        &&& self.friendly_name == other.friendly_name
        &&& self.tz == other.tz
    }

    /// A calendar without events.
    pub fn new(path: String, identifier: String, tz: Zone) -> (c: Calendar)
        requires
            tz.wf(),
        ensures
            c.wf(),
            c.path == path,
            c.identifier == identifier,
            c.friendly_name@ == Seq::<char>::empty(),
            c.tz == tz,
            c.events@ == Seq::<IndexEntry>::empty(),
    {
        Calendar { path, identifier, friendly_name: String::new(), tz, events: Vec::new() }
    }

    /// The calendar of a directory whose files were read into `files`. Each
    /// file is taken by itself: one without an event is passed over. Of each
    /// event the index gets the instants at which it begins from 356 days
    /// before `now` to 356 days after it. The zone is that of the first
    /// event, or UTC.
    pub fn from_dir(path: String, identifier: String, files: Vec<LoadedFile>, now: i64) -> (c:
        Calendar)
        requires
            now_in_range(now as int),
            forall|i: int| 0 <= i < files@.len() ==> (#[trigger] files@[i]).wf(),
        ensures
            c.wf(),
            c.path == path,
            c.identifier == identifier,
            c.friendly_name@ == Seq::<char>::empty(),
            c.tz == match first_zone(files@) {
                Some(z) => z,
                None => Zone::utc_spec(),
            },
            c.events@ == loaded(files@, now as int),
            all_within(c.events@, now - WINDOW_SECONDS, now + WINDOW_SECONDS),
    {
        let mut calendar = Calendar::new(path, identifier, Zone::utc());
        let mut zone: Option<Zone> = None;
        let ghost all = files@;
        let mut rest = files;
        let n = rest.len();
        let mut i: usize = 0;
        while i < n
            invariant
                0 <= i <= n,
                n == all.len(),
                rest@ == all.skip(i as int),
                now_in_range(now as int),
                forall|k: int| 0 <= k < all.len() ==> (#[trigger] all[k]).wf(),
                calendar.wf(),
                calendar.path == path,
                calendar.identifier == identifier,
                calendar.friendly_name@ == Seq::<char>::empty(),
                calendar.events@ == loaded(all.take(i as int), now as int),
                zone == first_zone(all.take(i as int)),
                zone matches Some(z) ==> z.wf(),
                calendar.tz == Zone::utc_spec(),
                all_within(calendar.events@, now - WINDOW_SECONDS, now + WINDOW_SECONDS),
            decreases n - i,
        {
            let file = rest.remove(0);
            proof {
                assert(all.skip(i as int).remove(0) =~= all.skip(i + 1));
                assert(all.take(i + 1).drop_last() =~= all.take(i as int));
                assert(all.take(i + 1).last() == all[i as int]);
                assert(file == all[i as int]);
            }
            match file.event {
                Some(event) => {
                    if zone.is_none() {
                        zone = Some(event.tz);
                    }
                    calendar.insert_event(event, now);
                },
                None => {},
            }
            i = i + 1;
        }
        proof {
            assert(all.take(n as int) =~= all);
        }
        match zone {
            Some(z) => {
                calendar.tz = z;
            },
            None => {},
        }
        calendar
    }

    /// The calendar under another name.
    pub fn with_name(self, name: String) -> (c: Calendar)
        ensures
            c.friendly_name == name,
            c.path == self.path,
            c.identifier == self.identifier,
            c.tz == self.tz,
            c.events == self.events,
    {
        let mut calendar = self;
        calendar.set_name(name);
        calendar
    }

    pub fn set_name(&mut self, name: String)
        ensures
            final(self).friendly_name == name,
            final(self).path == old(self).path,
            final(self).identifier == old(self).identifier,
            final(self).tz == old(self).tz,
            final(self).events == old(self).events,
    {
        self.friendly_name = name;
    }

    pub fn name(&self) -> (r: &str)
        ensures
            r@ == self.friendly_name@,
    {
        self.friendly_name.as_str()
    }

    pub fn path(&self) -> (r: &str)
        ensures
            r@ == self.path@,
    {
        self.path.as_str()
    }

    pub fn tz(&self) -> (r: &Zone)
        ensures
            *r == self.tz,
    {
        &self.tz
    }

    /// Adds one entry, behind the entries that are not later.
    fn insert_entry(&mut self, t: i64, event: Rc<Event>)
        requires
            old(self).wf(),
            event.wf(),
        ensures
            final(self).wf(),
            final(self).same_frame(*old(self)),
            final(self).events@ == inserted(old(self).events@, t, event),
    {
        let mut p: usize = self.events.len();
        proof {
            assert(self.events@.take(p as int) =~= self.events@);
        }
        while p > 0 && self.events[p - 1].instant > t
            invariant
                0 <= p <= self.events.len(),
                *self == *old(self),
                insert_position(self.events@, t) == insert_position(self.events@.take(p as int), t),
                forall|j: int| p <= j < self.events.len() ==> (#[trigger] self.events@[j]).instant > t,
            decreases p,
        {
            proof {
                assert(self.events@.take(p as int).drop_last() =~= self.events@.take(p - 1));
            }
            p = p - 1;
        }
        proof {
            assert(insert_position(self.events@.take(p as int), t) == p);
        }
        self.events.insert(p, IndexEntry { instant: t, event });
    }

    /// Adds an event: one entry for each instant at which it begins from 356
    /// days before `now` to 356 days after it.
    pub fn insert_event(&mut self, event: Event, now: i64)
        requires
            old(self).wf(),
            event.wf(),
            now_in_range(now as int),
        ensures
            final(self).wf(),
            final(self).same_frame(*old(self)),
            final(self).events@ == added(
                old(self).events@,
                Rc::new(event),
                window_instants(event, now as int),
            ),
            all_within(old(self).events@, now - WINDOW_SECONDS, now + WINDOW_SECONDS)
                ==> all_within(final(self).events@, now - WINDOW_SECONDS, now + WINDOW_SECONDS),
    {
        let shared = Rc::new(event);
        let instants = shared.occurrence.instants(now - WINDOW_SECONDS, now + WINDOW_SECONDS);
        proof {
            if all_within(old(self).events@, now - WINDOW_SECONDS, now + WINDOW_SECONDS) {
                lemma_added_within(
                    old(self).events@,
                    shared,
                    instants@,
                    now - WINDOW_SECONDS,
                    now + WINDOW_SECONDS,
                );
            }
        }
        self.insert_instants(shared, &instants);
    }

    /// Adds one entry for an event at each of `instants`, taken in turn.
    pub fn insert_instants(&mut self, event: Rc<Event>, instants: &Vec<i64>)
        requires
            old(self).wf(),
            event.wf(),
        ensures
            final(self).wf(),
            final(self).same_frame(*old(self)),
            final(self).events@ == added(old(self).events@, event, instants@),
    {
        let mut i: usize = 0;
        while i < instants.len()
            invariant
                0 <= i <= instants.len(),
                self.wf(),
                event.wf(),
                self.same_frame(*old(self)),
                self.events@ == added(old(self).events@, event, instants@.take(i as int)),
            decreases instants.len() - i,
        {
            proof {
                assert(instants@.take(i + 1).drop_last() =~= instants@.take(i as int));
            }
            self.insert_entry(instants[i], share(&event));
            i = i + 1;
        }
        proof {
            assert(instants@.take(instants.len() as int) =~= instants@);
        }
    }

    /// Drops the entries of the events that a file holds.
    pub fn remove_for_path(&mut self, file: &FilePath)
        requires
            old(self).wf(),
        ensures
            final(self).wf(),
            final(self).same_frame(*old(self)),
            final(self).events@ == removed(old(self).events@, *file),
            forall|i: int|
                0 <= i < final(self).events@.len() ==> !(
                #[trigger] final(self).events@[i]).event.matches_spec(*file),
    {
        let ghost keep = |e: IndexEntry| !e.event.matches_spec(*file);
        let mut kept: Vec<IndexEntry> = Vec::new();
        let mut i: usize = 0;
        while i < self.events.len()
            invariant
                0 <= i <= self.events.len(),
                *self == *old(self),
                self.wf(),
                keep == (|e: IndexEntry| !e.event.matches_spec(*file)),
                kept@ == self.events@.take(i as int).filter(keep),
                sorted(kept@),
                forall|j: int| 0 <= j < kept.len() ==> (#[trigger] kept@[j]).event.wf(),
                forall|j: int| 0 <= j < kept.len() ==> !(#[trigger] kept@[j]).event.matches_spec(*file),
                forall|j: int, k: int|
                    0 <= j < kept.len() && i <= k < self.events.len() ==> (#[trigger] kept@[j]).instant
                        <= (#[trigger] self.events@[k]).instant,
            decreases self.events.len() - i,
        {
            proof {
                lemma_filter_take_step(self.events@, keep, i as int);
            }
            if !self.events[i].event.matches(file) {
                let entry = IndexEntry {
                    instant: self.events[i].instant,
                    event: share(&self.events[i].event),
                };
                assert(entry == self.events@[i as int]);
                kept.push(entry);
            }
            i = i + 1;
        }
        proof {
            assert(self.events@.take(self.events.len() as int) =~= self.events@);
        }
        self.events = kept;
    }

    /// Adds the event of a file that was read; a file without an event adds
    /// nothing, and its error is handed back.
    pub fn add_for_path(&mut self, file: LoadedFile, now: i64) -> (r: Option<Error>)
        requires
            old(self).wf(),
            file.wf(),
            now_in_range(now as int),
        ensures
            final(self).wf(),
            final(self).same_frame(*old(self)),
            final(self).events@ == with_event(old(self).events@, file.event, now as int),
            r == file.error,
    {
        let LoadedFile { path: _, event, error } = file;
        match event {
            Some(event) => {
                self.insert_event(event, now);
            },
            None => {},
        }
        error
    }

    /// Applies one change of an event file: a removed file loses its
    /// entries, a new file gains those of its event, and a modified file
    /// does both, in this order.
    pub fn apply_modification(&mut self, change: LoadedModification, now: i64)
        requires
            old(self).wf(),
            change.wf(),
            now_in_range(now as int),
        ensures
            final(self).wf(),
            final(self).same_frame(*old(self)),
            final(self).events@ == applied(old(self).events@, change, now as int),
    {
        let LoadedModification { modification, event, error: _ } = change;
        match modification {
            ExternalModification::Create(_) => {},
            ExternalModification::Remove(file) => {
                self.remove_for_path(&file);
                return ;
            },
            ExternalModification::Modify(file) => {
                self.remove_for_path(&file);
            },
        }
        match event {
            Some(event) => {
                self.insert_event(event, now);
            },
            None => {},
        }
    }

    /// Applies a queue of changes of event files, the oldest first, each by
    /// itself: the window of a new or modified event lies around `now`.
    pub fn process_external_modifications(&mut self, changes: Vec<LoadedModification>, now: i64)
        requires
            old(self).wf(),
            all_wf(changes@),
            now_in_range(now as int),
        ensures
            final(self).wf(),
            final(self).same_frame(*old(self)),
            final(self).events@ == applied_all(old(self).events@, changes@, now as int),
    {
        let ghost all = changes@;
        let mut rest = changes;
        let n = rest.len();
        let mut i: usize = 0;
        while i < n
            invariant
                0 <= i <= n,
                n == all.len(),
                rest@ == all.skip(i as int),
                now_in_range(now as int),
                all_wf(all),
                self.wf(),
                self.same_frame(*old(self)),
                self.events@ == applied_all(old(self).events@, all.take(i as int), now as int),
            decreases n - i,
        {
            let change = rest.remove(0);
            proof {
                assert(all.skip(i as int).remove(0) =~= all.skip(i + 1));
                assert(all.take(i + 1).drop_last() =~= all.take(i as int));
                assert(change == all[i as int]);
            }
            self.apply_modification(change, now);
            i = i + 1;
        }
        proof {
            assert(all.take(n as int) =~= all);
        }
    }

    /// The events that begin at the instant `t`, in the order in which they
    /// came into the index.
    pub fn events_at(&self, t: i64) -> (r: Vec<Rc<Event>>)
        requires
            self.wf(),
        ensures
            r@ == events_at(self.events@, t),
    {
        let mut found: Vec<Rc<Event>> = Vec::new();
        let mut i: usize = 0;
        while i < self.events.len()
            invariant
                0 <= i <= self.events.len(),
                found@ == events_at(self.events@.take(i as int), t),
            decreases self.events.len() - i,
        {
            proof {
                assert(self.events@.take(i + 1).drop_last() =~= self.events@.take(i as int));
            }
            if self.events[i].instant == t {
                found.push(share(&self.events[i].event));
            }
            i = i + 1;
        }
        proof {
            assert(self.events@.take(self.events.len() as int) =~= self.events@);
        }
        found
    }

    /// The events of the index, entry after entry: an event stands once for
    /// each instant at which it begins inside the window.
    pub fn event_iter(&self) -> (r: Vec<Rc<Event>>)
        ensures
            r@.len() == self.events@.len(),
            forall|i: int| 0 <= i < r@.len() ==> #[trigger] r@[i] == self.events@[i].event,
    {
        let mut all: Vec<Rc<Event>> = Vec::new();
        let mut i: usize = 0;
        while i < self.events.len()
            invariant
                0 <= i <= self.events.len(),
                all@.len() == i,
                forall|k: int| 0 <= k < i ==> #[trigger] all@[k] == self.events@[k].event,
            decreases self.events.len() - i,
        {
            all.push(share(&self.events[i].event));
            i = i + 1;
        }
        all
    }

    /// The first event of the index with the identifier `uid`.
    pub fn event_by_uid(&self, uid: &str) -> (r: Option<Rc<Event>>)
        requires
            self.wf(),
        ensures
            match r {
                Some(e) => first_with_uid(self.events@, uid@, 0) matches Some(i) && self.events@[i].event
                    == e && e.wf(),
                None => first_with_uid(self.events@, uid@, 0).is_none(),
            },
    {
        let wanted = uid.to_owned();
        let mut i: usize = 0;
        while i < self.events.len()
            invariant
                0 <= i <= self.events.len(),
                self.wf(),
                wanted@ == uid@,
                first_with_uid(self.events@, uid@, 0) == first_with_uid(self.events@, uid@, i as int),
            decreases self.events.len() - i,
        {
            let found = match self.events[i].event.uid() {
                Some(own) => {
                    let own_text = own.to_owned();
                    own_text == wanted
                },
                None => false,
            };
            if found {
                return Some(share(&self.events[i].event));
            }
            i = i + 1;
        }
        None
    }

    /// The occurrences that begin within two bounds of instants, in the
    /// order of time.
    pub fn events_in(&self, begin: TimeBound, end: TimeBound) -> (r: Vec<Occurrence>)
        requires
            self.wf(),
        ensures
            r@ == occurrences(self.events@, begin, end),
            forall|i: int| 0 <= i < r.len() ==> (#[trigger] r@[i]).wf(),
    {
        let mut found: Vec<Occurrence> = Vec::new();
        let mut i: usize = 0;
        while i < self.events.len()
            invariant
                0 <= i <= self.events.len(),
                self.wf(),
                found@ == occurrences(self.events@.take(i as int), begin, end),
                forall|j: int| 0 <= j < found.len() ==> (#[trigger] found@[j]).wf(),
            decreases self.events.len() - i,
        {
            proof {
                assert(self.events@.take(i + 1).drop_last() =~= self.events@.take(i as int));
            }
            let entry = &self.events[i];
            if within(entry.instant, begin, end) {
                let span = match &entry.event.occurrence {
                    OccurrenceRule::Onetime(ts) => Some(*ts),
                    OccurrenceRule::Recurring(ts, _) => ts.moved_to(entry.instant),
                };
                match span {
                    Some(span) => {
                        found.push(Occurrence { span, event: share(&entry.event) });
                    },
                    None => {},
                }
            }
            i = i + 1;
        }
        proof {
            assert(self.events@.take(self.events.len() as int) =~= self.events@);
        }
        found
    }

    /// The occurrences that a filter chooses: those that begin within its
    /// range of local times, read in the calendar's zone. None where a bound
    /// of the range is a local time that the zone skips.
    pub fn filter_events(&self, filter: EventFilter) -> (r: Option<Vec<Occurrence>>)
        requires
            self.wf(),
        ensures
            ({
                let EventFilter::InRange(begin, end) = filter;
                match (bound_in(self.tz, begin), bound_in(self.tz, end)) {
                    (Some(b), Some(e)) => r matches Some(v) && v@ == occurrences(self.events@, b, e)
                        && forall|i: int| 0 <= i < v.len() ==> (#[trigger] v@[i]).wf(),
                    _ => r.is_none(),
                }
            }),
    {
        let EventFilter::InRange(begin, end) = filter;
        match (resolve_bound(self.tz, begin), resolve_bound(self.tz, end)) {
            (Some(b), Some(e)) => Some(self.events_in(b, e)),
            _ => None,
        }
    }
}

/// Where an entry goes lies inside the index or at its end.
pub proof fn lemma_insert_position(entries: Seq<IndexEntry>, t: i64)
    ensures
        0 <= insert_position(entries, t) <= entries.len(),
    decreases entries.len(),
{
    if entries.len() > 0 && entries.last().instant > t {
        lemma_insert_position(entries.drop_last(), t);
    }
}

/// An index inside two bounds stays inside them when entries are added for
/// instants inside them.
pub proof fn lemma_added_within(
    entries: Seq<IndexEntry>,
    event: Rc<Event>,
    instants: Seq<i64>,
    after: int,
    before: int,
)
    requires
        all_within(entries, after, before),
        forall|i: int| 0 <= i < instants.len() ==> after <= #[trigger] instants[i] <= before,
    ensures
        all_within(added(entries, event, instants), after, before),
    decreases instants.len(),
{
    if instants.len() > 0 {
        lemma_added_within(entries, event, instants.drop_last(), after, before);
        let base = added(entries, event, instants.drop_last());
        lemma_insert_position(base, instants.last());
    }
}

/// The window bound: every instant that an event contributes to the index
/// lies from 356 days before the moment of loading to 356 days after it,
/// however far its recurrence rule reaches.
pub proof fn lemma_window_bound(event: Event, now: int)
    ensures
        forall|i: int|
            0 <= i < window_instants(event, now).len() ==> now - WINDOW_SECONDS
                <= #[trigger] window_instants(event, now)[i] <= now + WINDOW_SECONDS,
{
    let after = now - WINDOW_SECONDS;
    let before = now + WINDOW_SECONDS;
    match event.occurrence {
        OccurrenceRule::Onetime(_) => {},
        OccurrenceRule::Recurring(ts, rule) => {
            crate::recurrence::lemma_instants_within(
                rule.rule@,
                ts.begin_spec().utc as int,
                ts.zone().index(),
                after,
                before,
            );
        },
    }
}

/// The index of a directory that was loaded at the moment `now` lies inside
/// the window around `now`.
pub proof fn lemma_loaded_within_window(files: Seq<LoadedFile>, now: int)
    ensures
        all_within(loaded(files, now), now - WINDOW_SECONDS, now + WINDOW_SECONDS),
    decreases files.len(),
{
    if files.len() > 0 {
        lemma_loaded_within_window(files.drop_last(), now);
        match files.last().event {
            Some(event) => {
                lemma_window_bound(event, now);
                lemma_added_within(
                    loaded(files.drop_last(), now),
                    Rc::new(event),
                    window_instants(event, now),
                    now - WINDOW_SECONDS,
                    now + WINDOW_SECONDS,
                );
            },
            None => {},
        }
    }
}

/// Adding an event leaves the entries of the other events as they were: a
/// choice of entries that takes none of the new event finds the same
/// entries, in the same order, before and after.
pub proof fn lemma_added_keeps_others(
    entries: Seq<IndexEntry>,
    event: Rc<Event>,
    instants: Seq<i64>,
    keep: spec_fn(IndexEntry) -> bool,
)
    requires
        forall|t: i64| !#[trigger] keep(IndexEntry { instant: t, event }),
    ensures
        added(entries, event, instants).filter(keep) == entries.filter(keep),
    decreases instants.len(),
{
    if instants.len() > 0 {
        lemma_added_keeps_others(entries, event, instants.drop_last(), keep);
        let base = added(entries, event, instants.drop_last());
        let p = insert_position(base, instants.last());
        let new = IndexEntry { instant: instants.last(), event };
        lemma_insert_position(base, instants.last());
        assert(base.insert(p, new) =~= base.take(p) + seq![new] + base.skip(p));
        assert(base =~= base.take(p) + base.skip(p));
        assert(seq![new].filter(keep) =~= Seq::<IndexEntry>::empty()) by {
            reveal_with_fuel(Seq::filter, 2);
            assert(seq![new].drop_last() =~= Seq::<IndexEntry>::empty());
            assert(seq![new].last() == new);
            assert(!keep(new));
        }
        Seq::filter_distributes_over_add(base.take(p) + seq![new], base.skip(p), keep);
        Seq::filter_distributes_over_add(base.take(p), seq![new], keep);
        Seq::filter_distributes_over_add(base.take(p), base.skip(p), keep);
        assert(base.take(p).filter(keep) + Seq::<IndexEntry>::empty() =~= base.take(p).filter(
            keep,
        ));
    }
}

/// Once the entries of a file are removed, no entry is left whose event the
/// file holds; removing them once more changes nothing.
pub proof fn lemma_removed_has_none(entries: Seq<IndexEntry>, file: FilePath)
    ensures
        forall|i: int|
            0 <= i < removed(entries, file).len() ==> !(#[trigger] removed(
                entries,
                file,
            )[i]).event.matches_spec(file),
        removed(entries, file).len() <= entries.len(),
{
    let keep = |e: IndexEntry| !e.event.matches_spec(file);
    entries.lemma_filter_len(keep);
    assert forall|i: int| 0 <= i < removed(entries, file).len() implies !(#[trigger] removed(
        entries,
        file,
    )[i]).event.matches_spec(file) by {
        entries.lemma_filter_pred(keep, i);
    }
}

/// A modified file is a removed file and then a new one: the change of a
/// modified file leaves the index as the two changes would, one after the
/// other.
pub proof fn lemma_modify_is_remove_then_create(
    entries: Seq<IndexEntry>,
    file: FilePath,
    event: Option<Event>,
    now: int,
)
    ensures
        applied(
            entries,
            LoadedModification {
                modification: ExternalModification::Modify(file),
                event,
                error: None,
            },
            now,
        ) == applied(
            applied(
                entries,
                LoadedModification {
                    modification: ExternalModification::Remove(file),
                    event: None,
                    error: None,
                },
                now,
            ),
            LoadedModification {
                modification: ExternalModification::Create(file),
                event,
                error: None,
            },
            now,
        ),
{
}

/// A change of a file that adds an event which the file holds leaves every
/// other file's entries as they were: what is left when the file's entries
/// are removed is the same before and after a new or modified file.
pub proof fn lemma_change_keeps_unrelated(
    entries: Seq<IndexEntry>,
    change: LoadedModification,
    now: int,
)
    requires
        change.event matches Some(event) ==> event.matches_spec(change.modification.file()),
    ensures
        removed(applied(entries, change, now), change.modification.file()) == removed(
            entries,
            change.modification.file(),
        ),
{
    let file = change.modification.file();
    let keep = |e: IndexEntry| !e.event.matches_spec(file);
    let base = match change.modification {
        ExternalModification::Create(_) => entries,
        _ => removed(entries, file),
    };
    assert(removed(base, file) == removed(entries, file)) by {
        if !(change.modification is Create) {
            lemma_removed_has_none(entries, file);
            lemma_filter_of_kept(removed(entries, file), keep);
        }
    }
    if !(change.modification is Remove) {
        match change.event {
            Some(event) => {
                let shared: Rc<Event> = Rc::new(event);
                assert forall|t: i64| !#[trigger] keep(
                    IndexEntry { instant: t, event: shared },
                ) by {}
                lemma_added_keeps_others(base, shared, window_instants(event, now), keep);
            },
            None => {},
        }
    }
}

/// A choice that takes every entry of a sequence leaves the sequence as it is.
proof fn lemma_filter_of_kept(entries: Seq<IndexEntry>, keep: spec_fn(IndexEntry) -> bool)
    requires
        forall|i: int| 0 <= i < entries.len() ==> keep(#[trigger] entries[i]),
    ensures
        entries.filter(keep) == entries,
    decreases entries.len(),
{
    reveal(Seq::filter);
    if entries.len() > 0 {
        lemma_filter_of_kept(entries.drop_last(), keep);
        assert(entries.drop_last().push(entries.last()) =~= entries);
    }
}

/// A calendar that the configuration names: the name of its directory under
/// the root of its collection, and the name to show for it.
#[derive(Debug)]
pub struct CalendarSpec {
    pub id: String,
    pub name: String,
}

/// A directory to read a calendar from, and the name to give the calendar
/// where the configuration names one.
#[derive(Debug)]
pub struct CalendarChoice {
    pub directory: String,
    pub name: Option<String>,
}

/// The calendars under one root.
#[derive(Debug)]
pub struct Collection {
    pub path: String,
    pub friendly_name: String,
    pub calendars: Vec<Calendar>,
}

impl Collection {
    pub open spec fn wf(self) -> bool {
        forall|i: int| 0 <= i < self.calendars@.len() ==> (#[trigger] self.calendars@[i]).wf()
    }

    /// The collection of the calendars that were found under `path`.
    pub fn new(path: String, friendly_name: String, calendars: Vec<Calendar>) -> (c: Collection)
        ensures
            c.path == path,
            c.friendly_name == friendly_name,
            c.calendars == calendars,
    {
        Collection { path, friendly_name, calendars }
    }

    pub fn name(&self) -> (r: &str)
        ensures
            r@ == self.friendly_name@,
    {
        self.friendly_name.as_str()
    }

    pub fn path(&self) -> (r: &str)
        ensures
            r@ == self.path@,
    {
        self.path.as_str()
    }

    pub fn calendars(&self) -> (r: &Vec<Calendar>)
        ensures
            *r == self.calendars,
    {
        &self.calendars
    }

    /// The provider of a collection is one that the library has.
    pub fn is_provided(provider: &str) -> (r: bool)
        ensures
            r == (provider@ == "ical"@),
    {
        provider.to_owned() == "ical".to_owned()
    }

    /// The directories to read the calendars of a collection from. Where
    /// the configuration names calendars, those are read, each under its
    /// name; where it names none, every directory that was found under the
    /// root is a calendar.
    pub fn choose_calendars(specs: &Vec<CalendarSpec>, found: Vec<String>) -> (r: Vec<
        CalendarChoice,
    >)
        ensures
            specs@.len() == 0 ==> r@.len() == found@.len() && forall|i: int|
                0 <= i < r@.len() ==> (#[trigger] r@[i]).directory == found@[i]
                    && r@[i].name.is_none(),
            specs@.len() > 0 ==> r@.len() == specs@.len() && forall|i: int|
                0 <= i < r@.len() ==> (#[trigger] r@[i]).directory == specs@[i].id && r@[i].name
                    == Some(specs@[i].name),
    {
        let mut chosen: Vec<CalendarChoice> = Vec::new();
        if specs.len() == 0 {
            let ghost all = found@;
            let mut rest = found;
            let n = rest.len();
            let mut i: usize = 0;
            while i < n
                invariant
                    0 <= i <= n,
                    n == all.len(),
                    rest@ == all.skip(i as int),
                    chosen@.len() == i,
                    forall|k: int|
                        0 <= k < i ==> (#[trigger] chosen@[k]).directory == all[k]
                            && chosen@[k].name.is_none(),
                decreases n - i,
            {
                let directory = rest.remove(0);
                proof {
                    assert(all.skip(i as int).remove(0) =~= all.skip(i + 1));
                }
                chosen.push(CalendarChoice { directory, name: None });
                i = i + 1;
            }
        } else {
            let mut i: usize = 0;
            while i < specs.len()
                invariant
                    0 <= i <= specs.len(),
                    chosen@.len() == i,
                    forall|k: int|
                        0 <= k < i ==> (#[trigger] chosen@[k]).directory == specs@[k].id
                            && chosen@[k].name == Some(specs@[k].name),
                decreases specs.len() - i,
            {
                chosen.push(
                    CalendarChoice {
                        directory: specs[i].id.clone(),
                        name: Some(specs[i].name.clone()),
                    },
                );
                i = i + 1;
            }
        }
        chosen
    }

    /// Applies to each calendar its queue of changes of event files.
    pub fn process_external_modifications(&mut self, queues: Vec<Vec<LoadedModification>>, now: i64)
        requires
            old(self).wf(),
            now_in_range(now as int),
            queues@.len() == old(self).calendars@.len(),
            forall|i: int| 0 <= i < queues@.len() ==> all_wf((#[trigger] queues@[i])@),
        ensures
            final(self).wf(),
            final(self).path == old(self).path,
            final(self).friendly_name == old(self).friendly_name,
            final(self).calendars@.len() == old(self).calendars@.len(),
            forall|i: int|
                0 <= i < final(self).calendars@.len() ==> {
                    &&& (#[trigger] final(self).calendars@[i]).same_frame(old(self).calendars@[i])
                    &&& final(self).calendars@[i].events@ == applied_all(
                        old(self).calendars@[i].events@,
                        queues@[i]@,
                        now as int,
                    )
                },
    {
        let ghost all = queues@;
        let mut rest = queues;
        let n = self.calendars.len();
        let mut i: usize = 0;
        while i < n
            invariant
                0 <= i <= n,
                n == all.len(),
                n == self.calendars@.len(),
                n == old(self).calendars@.len(),
                rest@ == all.skip(i as int),
                now_in_range(now as int),
                forall|k: int| 0 <= k < all.len() ==> all_wf((#[trigger] all[k])@),
                self.path == old(self).path,
                self.friendly_name == old(self).friendly_name,
                forall|k: int| 0 <= k < n ==> (#[trigger] self.calendars@[k]).wf(),
                forall|k: int| i <= k < n ==> self.calendars@[k] == old(self).calendars@[k],
                forall|k: int|
                    0 <= k < i ==> {
                        &&& (#[trigger] self.calendars@[k]).same_frame(old(self).calendars@[k])
                        &&& self.calendars@[k].events@ == applied_all(
                            old(self).calendars@[k].events@,
                            all[k]@,
                            now as int,
                        )
                    },
            decreases n - i,
        {
            let queue = rest.remove(0);
            proof {
                assert(all.skip(i as int).remove(0) =~= all.skip(i + 1));
                assert(queue == all[i as int]);
            }
            let mut calendar = self.calendars.remove(i);
            calendar.process_external_modifications(queue, now);
            self.calendars.insert(i, calendar);
            i = i + 1;
        }
    }
}

/// A calendar of one of the providers.
#[derive(Debug)]
pub enum ProviderCalendar {
    /// A calendar of event files.
    Ical(Calendar),
}

impl ProviderCalendar {
    /// The calendar behind the provider.
    pub open spec fn calendar(self) -> Calendar {
        match self {
            ProviderCalendar::Ical(c) => c,
        }
    }

    pub open spec fn wf(self) -> bool {
        self.calendar().wf()
    }

    pub fn name(&self) -> (r: &str)
        ensures
            r@ == self.calendar().friendly_name@,
    {
        match self {
            ProviderCalendar::Ical(c) => c.name(),
        }
    }

    pub fn as_calendar(&self) -> (r: &Calendar)
        ensures
            *r == self.calendar(),
    {
        match self {
            ProviderCalendar::Ical(c) => c,
        }
    }

    /// Applies a queue of changes of event files to the calendar.
    pub fn process_external_modifications(&mut self, changes: Vec<LoadedModification>, now: i64)
        requires
            old(self).wf(),
            all_wf(changes@),
            now_in_range(now as int),
        ensures
            final(self).wf(),
            final(self).calendar().same_frame(old(self).calendar()),
            final(self).calendar().events@ == applied_all(
                old(self).calendar().events@,
                changes@,
                now as int,
            ),
    {
        match self {
            ProviderCalendar::Ical(c) => c.process_external_modifications(changes, now),
        }
    }
}

} // verus!
