//! What a user says about an event that is still to be made.

use crate::datetime::ZonedDateTime;
use crate::zone::{Pick, Zone};
use vstd::prelude::*;

verus! {

/// An event that is still to be made.
#[derive(Debug)]
pub struct NewEvent {
    pub begin: ZonedDateTime,
    pub tz: Zone,
    pub end: Option<ZonedDateTime>,
    pub duration: Option<i64>,
    pub title: Option<String>,
    pub description: Option<String>,
    pub rrule: Option<String>,
}

impl NewEvent {
    pub open spec fn wf(self) -> bool {
        &&& self.begin.wf()
        &&& self.tz.wf()
        &&& self.end matches Some(e) ==> e.wf()
    }

    /// An event that begins at `begin`, in the zone of `begin`, with nothing
    /// else said about it.
    pub fn new(begin: ZonedDateTime) -> (r: NewEvent)
        requires
            begin.wf(),
        ensures
            r.wf(),
            r.begin == begin,
            r.tz == begin.zone,
            r.end.is_none(),
            r.duration.is_none(),
            r.title.is_none(),
            r.description.is_none(),
            r.rrule.is_none(),
    {
        NewEvent {
            begin,
            tz: begin.zone,
            end: None,
            duration: None,
            title: None,
            description: None,
            rrule: None,
        }
    }

    pub fn set_title(&mut self, title: &str)
        ensures
            final(self).title matches Some(t) && t@ == title@,
            final(self).begin == old(self).begin,
            final(self).tz == old(self).tz,
            final(self).end == old(self).end,
            final(self).duration == old(self).duration,
            final(self).description == old(self).description,
            final(self).rrule == old(self).rrule,
    {
        self.title = Some(title.to_owned());
    }

    pub fn set_description(&mut self, description: &str)
        ensures
            final(self).description matches Some(d) && d@ == description@,
            final(self).begin == old(self).begin,
            final(self).tz == old(self).tz,
            final(self).end == old(self).end,
            final(self).duration == old(self).duration,
            final(self).title == old(self).title,
            final(self).rrule == old(self).rrule,
    {
        self.description = Some(description.to_owned());
    }

    /// Lets the event begin at the earliest instant with the local time
    /// `begin` in its zone. Where the zone skips that local time nothing is
    /// changed, and the answer is `false`.
    pub fn set_begin(&mut self, begin: i64) -> (r: bool)
        requires
            old(self).wf(),
        ensures
            final(self).wf(),
            match ZonedDateTime::try_at_local(old(self).tz, begin as int, Pick::Earliest) {
                Some(at) => r && final(self).begin == at,
                None => !r && final(self).begin == old(self).begin,
            },
            final(self).tz == old(self).tz,
            final(self).end == old(self).end,
            final(self).duration == old(self).duration,
            final(self).title == old(self).title,
            final(self).description == old(self).description,
            final(self).rrule == old(self).rrule,
    {
        match ZonedDateTime::from_local(self.tz, begin, Pick::Earliest) {
            Some(at) => {
                self.begin = at;
                true
            },
            None => false,
        }
    }

    /// Lets the event end at the earliest instant with the local time `end`
    /// in its zone; a length that was set is dropped. Where the zone skips
    /// that local time nothing is changed, and the answer is `false`.
    pub fn set_end(&mut self, end: i64) -> (r: bool)
        requires
            old(self).wf(),
        ensures
            final(self).wf(),
            match ZonedDateTime::try_at_local(old(self).tz, end as int, Pick::Earliest) {
                Some(at) => r && final(self).end == Some(at) && final(self).duration.is_none(),
                None => !r && final(self).end == old(self).end && final(self).duration == old(
                    self,
                ).duration,
            },
            final(self).begin == old(self).begin,
            final(self).tz == old(self).tz,
            final(self).title == old(self).title,
            final(self).description == old(self).description,
            final(self).rrule == old(self).rrule,
    {
        match ZonedDateTime::from_local(self.tz, end, Pick::Earliest) {
            Some(at) => {
                self.end = Some(at);
                self.duration = None;
                true
            },
            None => false,
        }
    }

    /// Lets the event last `duration` seconds; an end that was set is
    /// dropped.
    pub fn set_duration(&mut self, duration: i64)
        requires
            old(self).wf(),
        ensures
            final(self).wf(),
            final(self).duration == Some(duration),
            final(self).end.is_none(),
            final(self).begin == old(self).begin,
            final(self).tz == old(self).tz,
            final(self).title == old(self).title,
            final(self).description == old(self).description,
            final(self).rrule == old(self).rrule,
    {
        self.duration = Some(duration);
        self.end = None;
    }
}

} // verus!
