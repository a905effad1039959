//! What the collaborators of the library ask of an event and of a calendar,
//! whatever provider they come from.

use crate::alarm::{alarms_of_entries, generators_of, Alarm, AlarmGenerator};
use crate::calendar::{
    all_wf, applied_all, bound_in, first_with_uid, now_in_range, occurrences, Calendar, EventFilter,
    LoadedModification, TimeBound,
};
use crate::event::{Event, Occurrence};
use crate::occurrence::OccurrenceRule;
use crate::property::value_named;
use crate::zone::Zone;
use std::rc::Rc;
use vstd::prelude::*;

verus! {

/// An event, as its users see it.
pub trait Eventlike {
    /// The event is well formed.
    spec fn valid(&self) -> bool;

    /// The event behind the view.
    spec fn event(&self) -> Event;

    fn title(&self) -> (r: Option<&str>)
        requires
            self.valid(),
        ensures
            match r {
                Some(v) => value_named(self.event().props(), "SUMMARY"@) == Some(v@),
                None => value_named(self.event().props(), "SUMMARY"@).is_none(),
            },
    ;

    fn uid(&self) -> (r: Option<&str>)
        requires
            self.valid(),
        ensures
            match r {
                Some(v) => self.event().uid_spec() == Some(v@),
                None => self.event().uid_spec().is_none(),
            },
    ;

    fn summary(&self) -> (r: Option<&str>)
        requires
            self.valid(),
        ensures
            match r {
                Some(v) => value_named(self.event().props(), "SUMMARY"@) == Some(v@),
                None => value_named(self.event().props(), "SUMMARY"@).is_none(),
            },
    ;

    fn description(&self) -> (r: Option<&str>)
        requires
            self.valid(),
        ensures
            match r {
                Some(v) => value_named(self.event().props(), "DESCRIPTION"@) == Some(v@),
                None => value_named(self.event().props(), "DESCRIPTION"@).is_none(),
            },
    ;

    fn occurrence_rule(&self) -> (r: &OccurrenceRule)
        ensures
            *r == self.event().occurrence,
    ;

    fn tz(&self) -> (r: &Zone)
        ensures
            *r == self.event().tz,
    ;

    fn duration(&self) -> (r: i64)
        requires
            self.valid(),
        ensures
            r == self.event().occurrence.span().duration_spec(),
    ;

    fn alarms(&self) -> (r: Vec<AlarmGenerator>)
        requires
            self.valid(),
        ensures
            r@ == generators_of(self.event().ical.events@[0].alarms@),
    ;
}

impl Eventlike for Event {
    open spec fn valid(&self) -> bool {
        self.wf()
    }

    open spec fn event(&self) -> Event {
        *self
    }

    fn title(&self) -> (r: Option<&str>) {
        Event::title(self)
    }

    fn uid(&self) -> (r: Option<&str>) {
        Event::uid(self)
    }

    fn summary(&self) -> (r: Option<&str>) {
        Event::summary(self)
    }

    fn description(&self) -> (r: Option<&str>) {
        Event::description(self)
    }

    fn occurrence_rule(&self) -> (r: &OccurrenceRule) {
        Event::occurrence_rule(self)
    }

    fn tz(&self) -> (r: &Zone) {
        Event::tz(self)
    }

    fn duration(&self) -> (r: i64) {
        Event::duration(self)
    }

    fn alarms(&self) -> (r: Vec<AlarmGenerator>) {
        Event::alarms(self)
    }
}

/// A calendar, as its users see it.
pub trait Calendarlike {
    /// The calendar is well formed.
    spec fn valid(&self) -> bool;

    /// The calendar behind the view.
    spec fn calendar(&self) -> Calendar;

    fn name(&self) -> (r: &str)
        ensures
            r@ == self.calendar().friendly_name@,
    ;

    fn path(&self) -> (r: &str)
        ensures
            r@ == self.calendar().path@,
    ;

    fn tz(&self) -> (r: &Zone)
        ensures
            *r == self.calendar().tz,
    ;

    fn event_by_uid(&self, uid: &str) -> (r: Option<Rc<Event>>)
        requires
            self.valid(),
        ensures
            match r {
                Some(e) => first_with_uid(self.calendar().events@, uid@, 0) matches Some(i)
                    && self.calendar().events@[i].event == e && e.wf(),
                None => first_with_uid(self.calendar().events@, uid@, 0).is_none(),
            },
    ;

    fn events_in(&self, begin: TimeBound, end: TimeBound) -> (r: Vec<Occurrence>)
        requires
            self.valid(),
        ensures
            r@ == occurrences(self.calendar().events@, begin, end),
            forall|i: int| 0 <= i < r.len() ==> (#[trigger] r@[i]).wf(),
    ;

    fn filter_events(&self, filter: EventFilter) -> (r: Option<Vec<Occurrence>>)
        requires
            self.valid(),
        ensures
            ({
                let EventFilter::InRange(begin, end) = filter;
                match (bound_in(self.calendar().tz, begin), bound_in(self.calendar().tz, end)) {
                    (Some(b), Some(e)) => r matches Some(v) && v@ == occurrences(
                        self.calendar().events@,
                        b,
                        e,
                    ) && forall|i: int| 0 <= i < v.len() ==> (#[trigger] v@[i]).wf(),
                    _ => r.is_none(),
                }
            }),
    ;

    fn alarms_in(&self, begin: TimeBound, end: TimeBound) -> (r: Vec<Alarm>)
        requires
            self.valid(),
        ensures
            r@ == alarms_of_entries(self.calendar().events@, begin, end),
    ;
}

impl Calendarlike for Calendar {
    open spec fn valid(&self) -> bool {
        self.wf()
    }

    open spec fn calendar(&self) -> Calendar {
        *self
    }

    fn name(&self) -> (r: &str) {
        Calendar::name(self)
    }

    fn path(&self) -> (r: &str) {
        Calendar::path(self)
    }

    fn tz(&self) -> (r: &Zone) {
        Calendar::tz(self)
    }

    fn event_by_uid(&self, uid: &str) -> (r: Option<Rc<Event>>) {
        Calendar::event_by_uid(self, uid)
    }

    fn events_in(&self, begin: TimeBound, end: TimeBound) -> (r: Vec<Occurrence>) {
        Calendar::events_in(self, begin, end)
    }

    fn filter_events(&self, filter: EventFilter) -> (r: Option<Vec<Occurrence>>) {
        Calendar::filter_events(self, filter)
    }

    fn alarms_in(&self, begin: TimeBound, end: TimeBound) -> (r: Vec<Alarm>) {
        Calendar::alarms_in(self, begin, end)
    }
}

/// A calendar that follows the changes of its files.
pub trait MutCalendarlike: Calendarlike {
    /// Applies a queue of changes of event files, the oldest first.
    fn process_external_modifications(&mut self, changes: Vec<LoadedModification>, now: i64)
        requires
            old(self).valid(),
            all_wf(changes@),
            now_in_range(now as int),
        ensures
            final(self).valid(),
            final(self).calendar().same_frame(old(self).calendar()),
            final(self).calendar().events@ == applied_all(
                old(self).calendar().events@,
                changes@,
                now as int,
            ),
    ;
}

impl MutCalendarlike for Calendar {
    fn process_external_modifications(&mut self, changes: Vec<LoadedModification>, now: i64) {
        Calendar::process_external_modifications(self, changes, now)
    }
}

} // verus!
