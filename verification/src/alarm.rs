//! Alarms: the moments at which an event wants to be announced.
//!
//! An alarm block of an event says by its trigger when it goes off: a length
//! of time from the beginning of an occurrence, or from its end, or a moment
//! of its own.

use crate::agenda::Agenda;
use crate::calendar::{
    in_bounds, share, span_at, within, Calendar, IndexEntry, ProviderCalendar, TimeBound,
};
use crate::duration::{duration_of, IcalDuration};
use crate::event::{Event, Occurrence};
use crate::icaldatetime::{instant_of, IcalDateTime};
use crate::occurrence::OccurrenceRule;
use crate::property::{find_property, property_named, IcalAlarm};
use crate::timespan::TimeSpan;
use crate::zone::{time_in_range, TIME_LIMIT};
use vstd::prelude::*;

verus! {

/// When an alarm goes off.
#[derive(Clone, Copy, Debug, PartialEq, Eq, Structural)]
pub enum AlarmTrigger {
    /// So many seconds after an occurrence begins; before it, where negative.
    Start(i64),
    /// So many seconds after an occurrence ends; before that, where negative.
    End(i64),
    /// At this instant, in seconds since 1970-01-01T00:00:00 UTC.
    Absolute(i64),
}

/// What makes the alarms of the occurrences of an event.
#[derive(Clone, Copy, Debug, PartialEq, Eq, Structural)]
pub struct AlarmGenerator {
    pub trigger: AlarmTrigger,
}

/// One alarm: the instant at which it goes off, and the occurrence that it
/// announces.
#[derive(Debug)]
pub struct Alarm {
    pub time: i64,
    pub occurrence: Occurrence,
}

/// The trigger of an alarm block. A trigger that is marked as a date with a
/// time is a moment of its own; any other is a length of time, from the end
/// of the occurrence where it is marked as related to the end, else from its
/// beginning. A block without a trigger that can be read has none.
pub open spec fn trigger_of(alarm: IcalAlarm) -> Option<AlarmTrigger> {
    match property_named(alarm.properties@, "TRIGGER"@) {
        None => None,
        Some(p) => if p.has_param_value("VALUE"@, "DATE-TIME"@) {
            match instant_of(p) {
                Ok(IcalDateTime::Utc(t)) => Some(AlarmTrigger::Absolute(t)),
                Ok(IcalDateTime::Floating(t)) => Some(AlarmTrigger::Absolute(t)),
                Ok(IcalDateTime::Local(at)) => Some(AlarmTrigger::Absolute(at.utc)),
                _ => None,
            }
        } else {
            match duration_of(p) {
                Ok(d) => if p.has_param_value("RELATED"@, "END"@) {
                    Some(AlarmTrigger::End(d.total_seconds() as i64))
                } else {
                    Some(AlarmTrigger::Start(d.total_seconds() as i64))
                },
                Err(_) => None,
            }
        },
    }
}

/// The generators of the alarm blocks of an event, block after block; a
/// block without a trigger gives none.
pub open spec fn generators_of(alarms: Seq<IcalAlarm>) -> Seq<AlarmGenerator>
    decreases alarms.len(),
{
    if alarms.len() == 0 {
        Seq::empty()
    } else {
        let before = generators_of(alarms.drop_last());
        match trigger_of(alarms.last()) {
            Some(trigger) => before.push(AlarmGenerator { trigger }),
            None => before,
        }
    }
}

/// The instant at which an alarm for an occurrence over `span` goes off:
/// none where the library cannot hold it.
pub open spec fn alarm_time(trigger: AlarmTrigger, span: TimeSpan) -> Option<i64> {
    let t: int = match trigger {
        AlarmTrigger::Start(d) => span.begin_spec().utc + d,
        AlarmTrigger::End(d) => span.end_spec().utc + d,
        AlarmTrigger::Absolute(t) => t as int,
    };
    if time_in_range(t) {
        Some(t as i64)
    } else {
        None
    }
}

/// The alarms of one occurrence that go off within two bounds, generator
/// after generator.
pub open spec fn alarms_of(
    o: Occurrence,
    generators: Seq<AlarmGenerator>,
    begin: TimeBound,
    end: TimeBound,
) -> Seq<Alarm>
    decreases generators.len(),
{
    if generators.len() == 0 {
        Seq::empty()
    } else {
        let before = alarms_of(o, generators.drop_last(), begin, end);
        match alarm_time(generators.last().trigger, o.span) {
            Some(t) => if in_bounds(t, begin, end) {
                before.push(Alarm { time: t, occurrence: o })
            } else {
                before
            },
            None => before,
        }
    }
}

/// The alarms of the entries of an index that go off within two bounds,
/// entry after entry; an entry whose span cannot be held gives none.
pub open spec fn alarms_of_entries(entries: Seq<IndexEntry>, begin: TimeBound, end: TimeBound)
    -> Seq<Alarm>
    decreases entries.len(),
{
    if entries.len() == 0 {
        Seq::empty()
    } else {
        let before = alarms_of_entries(entries.drop_last(), begin, end);
        let last = entries.last();
        match span_at(last.event.occurrence, last.instant) {
            Some(span) => before + alarms_of(
                Occurrence { span, event: last.event },
                generators_of(last.event.ical.events@[0].alarms@),
                begin,
                end,
            ),
            None => before,
        }
    }
}

/// A bound of a range of alarms: an end that is left out is taken in.
pub open spec fn taken_in(bound: TimeBound) -> TimeBound {
    match bound {
        TimeBound::Included(t) => TimeBound::Included(t),
        TimeBound::Excluded(t) => TimeBound::Included(t),
        TimeBound::Unbounded => TimeBound::Unbounded,
    }
}

/// The alarms of all calendars that go off within two bounds, calendar after
/// calendar.
pub open spec fn alarms_of_all(calendars: Seq<ProviderCalendar>, begin: TimeBound, end: TimeBound)
    -> Seq<Alarm>
    decreases calendars.len(),
{
    if calendars.len() == 0 {
        Seq::empty()
    } else {
        alarms_of_all(calendars.drop_last(), begin, end) + alarms_of_entries(
            calendars.last().calendar().events@,
            begin,
            end,
        )
    }
}

impl AlarmGenerator {
    /// The generator of an alarm block, where the block has a trigger.
    pub fn from_alarm(alarm: &IcalAlarm) -> (r: Option<AlarmGenerator>)
        ensures
            r == match trigger_of(*alarm) {
                Some(trigger) => Some(AlarmGenerator { trigger }),
                None => None,
            },
    {
        let p = match find_property(&alarm.properties, "TRIGGER") {
            Some(p) => p,
            None => {
                return None;
            },
        };
        if p.param_has_value("VALUE", "DATE-TIME") {
            match IcalDateTime::try_from(p) {
                Ok(IcalDateTime::Utc(t)) => Some(
                    AlarmGenerator { trigger: AlarmTrigger::Absolute(t) },
                ),
                Ok(IcalDateTime::Floating(t)) => Some(
                    AlarmGenerator { trigger: AlarmTrigger::Absolute(t) },
                ),
                Ok(IcalDateTime::Local(at)) => Some(
                    AlarmGenerator { trigger: AlarmTrigger::Absolute(at.utc) },
                ),
                _ => None,
            }
        } else {
            match IcalDuration::try_from(p) {
                Ok(d) => {
                    let seconds = d.as_seconds();
                    if p.param_has_value("RELATED", "END") {
                        Some(AlarmGenerator { trigger: AlarmTrigger::End(seconds) })
                    } else {
                        Some(AlarmGenerator { trigger: AlarmTrigger::Start(seconds) })
                    }
                },
                Err(_) => None,
            }
        }
    }

    /// The instant at which the alarm for an occurrence over `span` goes
    /// off.
    pub fn time_for(&self, span: &TimeSpan) -> (r: Option<i64>)
        requires
            span.wf(),
        ensures
            r == alarm_time(self.trigger, *span),
    {
        let (base, shift): (i64, i64) = match self.trigger {
            AlarmTrigger::Start(d) => (span.begin().utc, d),
            AlarmTrigger::End(d) => (span.end().utc, d),
            AlarmTrigger::Absolute(t) => (0, t),
        };
        if shift < -2 * TIME_LIMIT || shift > 2 * TIME_LIMIT {
            return None;
        }
        let t: i64 = base + shift;
        if t < -TIME_LIMIT || t > TIME_LIMIT {
            None
        } else {
            Some(t)
        }
    }

    /// The alarms that the generator makes for an occurrence: one, or none
    /// where its instant cannot be held.
    pub fn occurrence_alarms(&self, occurrence: Occurrence) -> (r: Vec<Alarm>)
        requires
            occurrence.wf(),
        ensures
            r@ == alarms_of(
                occurrence,
                seq![*self],
                TimeBound::Unbounded,
                TimeBound::Unbounded,
            ),
    {
        let mut alarms: Vec<Alarm> = Vec::new();
        proof {
            reveal_with_fuel(alarms_of, 2);
            assert(seq![*self].drop_last() =~= Seq::<AlarmGenerator>::empty());
        }
        match self.time_for(&occurrence.span) {
            Some(time) => {
                alarms.push(Alarm { time, occurrence });
            },
            None => {},
        }
        alarms
    }
}

/// The alarms of one occurrence that go off within two bounds.
fn alarms_within(
    occurrence: &Occurrence,
    generators: &Vec<AlarmGenerator>,
    begin: TimeBound,
    end: TimeBound,
) -> (r: Vec<Alarm>)
    requires
        occurrence.wf(),
    ensures
        r@ == alarms_of(*occurrence, generators@, begin, end),
{
    let mut alarms: Vec<Alarm> = Vec::new();
    let mut i: usize = 0;
    while i < generators.len()
        invariant
            0 <= i <= generators.len(),
            occurrence.wf(),
            alarms@ == alarms_of(*occurrence, generators@.take(i as int), begin, end),
        decreases generators.len() - i,
    {
        proof {
            assert(generators@.take(i + 1).drop_last() =~= generators@.take(i as int));
        }
        match generators[i].time_for(&occurrence.span) {
            Some(time) => {
                if within(time, begin, end) {
                    alarms.push(
                        Alarm {
                            time,
                            occurrence: Occurrence {
                                span: occurrence.span,
                                event: share(&occurrence.event),
                            },
                        },
                    );
                }
            },
            None => {},
        }
        i = i + 1;
    }
    proof {
        assert(generators@.take(generators.len() as int) =~= generators@);
    }
    alarms
}

impl Event {
    /// The generators of the alarms of the event, one for each of its alarm
    /// blocks that has a trigger.
    pub fn alarms(&self) -> (r: Vec<AlarmGenerator>)
        requires
            self.wf(),
        ensures
            r@ == generators_of(self.ical.events@[0].alarms@),
    {
        let blocks = &self.ical.events[0].alarms;
        let mut generators: Vec<AlarmGenerator> = Vec::new();
        let mut i: usize = 0;
        while i < blocks.len()
            invariant
                0 <= i <= blocks.len(),
                generators@ == generators_of(blocks@.take(i as int)),
            decreases blocks.len() - i,
        {
            proof {
                assert(blocks@.take(i + 1).drop_last() =~= blocks@.take(i as int));
            }
            match AlarmGenerator::from_alarm(&blocks[i]) {
                Some(g) => {
                    generators.push(g);
                },
                None => {},
            }
            i = i + 1;
        }
        proof {
            assert(blocks@.take(blocks.len() as int) =~= blocks@);
        }
        generators
    }
}

impl Occurrence {
    /// The alarms of the occurrence.
    pub fn alarms(&self) -> (r: Vec<Alarm>)
        requires
            self.wf(),
        ensures
            r@ == alarms_of(
                *self,
                generators_of(self.event.ical.events@[0].alarms@),
                TimeBound::Unbounded,
                TimeBound::Unbounded,
            ),
    {
        let generators = self.event.alarms();
        alarms_within(self, &generators, TimeBound::Unbounded, TimeBound::Unbounded)
    }
}

impl Calendar {
    /// The alarms of the calendar that go off within two bounds of instants:
    /// those of every occurrence of the index, entry after entry.
    pub fn alarms_in(&self, begin: TimeBound, end: TimeBound) -> (r: Vec<Alarm>)
        requires
            self.wf(),
        ensures
            r@ == alarms_of_entries(self.events@, begin, end),
    {
        let mut alarms: Vec<Alarm> = Vec::new();
        let mut i: usize = 0;
        while i < self.events.len()
            invariant
                0 <= i <= self.events.len(),
                self.wf(),
                alarms@ == alarms_of_entries(self.events@.take(i as int), begin, end),
            decreases self.events.len() - i,
        {
            proof {
                assert(self.events@.take(i + 1).drop_last() =~= self.events@.take(i as int));
            }
            let entry = &self.events[i];
            let span = match &entry.event.occurrence {
                OccurrenceRule::Onetime(ts) => Some(*ts),
                OccurrenceRule::Recurring(ts, _) => ts.moved_to(entry.instant),
            };
            match span {
                Some(span) => {
                    let occurrence = Occurrence { span, event: share(&entry.event) };
                    let generators = entry.event.alarms();
                    let mut more = alarms_within(&occurrence, &generators, begin, end);
                    alarms.append(&mut more);
                },
                None => {},
            }
            i = i + 1;
        }
        proof {
            assert(self.events@.take(self.events.len() as int) =~= self.events@);
        }
        alarms
    }
}

impl Agenda {
    /// The alarms of all calendars that go off within a range: the bounds
    /// are taken as instants, and an end that is left out is taken in.
    pub fn alarms_in(&self, begin: TimeBound, end: TimeBound) -> (r: Vec<Alarm>)
        requires
            self.wf(),
        ensures
            r@ == alarms_of_all(self.calendars@, taken_in(begin), taken_in(end)),
    {
        let start = match begin {
            TimeBound::Included(t) => TimeBound::Included(t),
            TimeBound::Excluded(t) => TimeBound::Included(t),
            TimeBound::Unbounded => TimeBound::Unbounded,
        };
        let stop = match end {
            TimeBound::Included(t) => TimeBound::Included(t),
            TimeBound::Excluded(t) => TimeBound::Included(t),
            TimeBound::Unbounded => TimeBound::Unbounded,
        };
        let mut alarms: Vec<Alarm> = Vec::new();
        let mut i: usize = 0;
        while i < self.calendars.len()
            invariant
                0 <= i <= self.calendars.len(),
                self.wf(),
                alarms@ == alarms_of_all(self.calendars@.take(i as int), start, stop),
            decreases self.calendars.len() - i,
        {
            proof {
                assert(self.calendars@.take(i + 1).drop_last() =~= self.calendars@.take(i as int));
            }
            let mut more = self.calendars[i].as_calendar().alarms_in(start, stop);
            alarms.append(&mut more);
            i = i + 1;
        }
        proof {
            assert(self.calendars@.take(self.calendars.len() as int) =~= self.calendars@);
        }
        alarms
    }
}

} // verus!
