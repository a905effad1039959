//! Occurrence rules: a span that occurs once, or a template span with a
//! recurrence rule that says when it occurs.

use crate::datetime::{Date, ZonedDateTime};
use crate::recurrence::Recurrence;
use crate::timespan::TimeSpan;
use crate::zone::{time_in_range, Zone};
use vstd::prelude::*;

verus! {

/// When an event occurs.
#[derive(Debug)]
pub enum OccurrenceRule {
    /// Once, over this span.
    Onetime(TimeSpan),
    /// Over spans like this one, at the instants that the rule gives.
    Recurring(TimeSpan, Recurrence),
}

impl OccurrenceRule {
    /// The span of a single occurrence, or the template of a recurring one.
    pub open spec fn span(self) -> TimeSpan {
        match self {
            OccurrenceRule::Onetime(ts) => ts,
            OccurrenceRule::Recurring(ts, _) => ts,
        }
    }

    /// The text of the recurrence rule, where there is one.
    pub open spec fn rule(self) -> Option<Seq<char>> {
        match self {
            OccurrenceRule::Onetime(_) => None,
            OccurrenceRule::Recurring(_, r) => Some(r.rule@),
        }
    }

    pub open spec fn wf(self) -> bool {
        self.span().wf()
    }

    /// The instants at which the event begins, as far as they lie from
    /// `after` to `before`, both included: for a single occurrence its
    /// beginning, for a recurring one what the rule gives from the beginning
    /// of the template.
    pub open spec fn instants_spec(self, after: int, before: int) -> Seq<i64> {
        match self {
            OccurrenceRule::Onetime(ts) => if after <= ts.begin_spec().utc <= before {
                seq![ts.begin_spec().utc]
            } else {
                Seq::empty()
            },
            OccurrenceRule::Recurring(ts, r) => r.instants_spec(
                ts.begin_spec().utc as int,
                ts.zone(),
                after,
                before,
            ),
        }
    }

    /// The span of a single occurrence, or the template of a recurring one.
    pub fn time_span(&self) -> (r: TimeSpan)
        ensures
            r == self.span(),
    {
        match self {
            OccurrenceRule::Onetime(ts) => *ts,
            OccurrenceRule::Recurring(ts, _) => *ts,
        }
    }

    pub fn is_allday(&self) -> (r: bool)
        ensures
            r == (self.span() is Allday),
    {
        self.time_span().is_allday()
    }

    pub fn is_onetime(&self) -> (r: bool)
        ensures
            r == (*self is Onetime),
    {
        match self {
            OccurrenceRule::Onetime(_) => true,
            _ => false,
        }
    }

    pub fn is_recurring(&self) -> (r: bool)
        ensures
            r == (*self is Recurring),
    {
        match self {
            OccurrenceRule::Recurring(_, _) => true,
            _ => false,
        }
    }

    /// The local date on which the span begins.
    pub fn as_date(&self) -> (r: Date)
        requires
            self.wf(),
        ensures
            r == self.span().begin_spec().date(),
            r.wf(),
    {
        self.time_span().begin().date_naive()
    }

    /// The instant at which the span begins.
    pub fn as_datetime(&self) -> (r: ZonedDateTime)
        requires
            self.wf(),
        ensures
            r == self.span().begin_spec(),
            r.wf(),
    {
        self.time_span().begin()
    }

    /// The instant at which the span begins.
    pub fn begin(&self) -> (r: ZonedDateTime)
        requires
            self.wf(),
        ensures
            r == self.span().begin_spec(),
            r.wf(),
    {
        self.time_span().begin()
    }

    /// The instant at which the span ends.
    pub fn end(&self) -> (r: ZonedDateTime)
        requires
            self.wf(),
        ensures
            r == self.span().end_spec(),
            r.wf(),
    {
        self.time_span().end()
    }

    /// The length of the span in seconds.
    pub fn duration(&self) -> (r: i64)
        requires
            self.wf(),
        ensures
            r == self.span().duration_spec(),
    {
        self.time_span().duration()
    }

    /// The zone in which the span is read.
    pub fn timezone(&self) -> (r: Zone)
        ensures
            r == self.span().zone(),
    {
        self.time_span().timezone()
    }

    /// The same rule with its span read in another zone: none where the
    /// span cannot be held there.
    pub fn with_tz(self, zone: Zone) -> (r: Option<OccurrenceRule>)
        requires
            self.wf(),
            zone.wf(),
        ensures
            r.is_some() == self.span().with_tz_spec(zone).is_some(),
            r matches Some(o) ==> {
                &&& o.wf()
                &&& Some(o.span()) == self.span().with_tz_spec(zone)
                &&& o.rule() == self.rule()
            },
    {
        match self {
            OccurrenceRule::Onetime(ts) => match ts.with_tz(zone) {
                Some(moved) => Some(OccurrenceRule::Onetime(moved)),
                None => None,
            },
            OccurrenceRule::Recurring(ts, rule) => match ts.with_tz(zone) {
                Some(moved) => Some(OccurrenceRule::Recurring(moved, rule)),
                None => None,
            },
        }
    }

    /// The same span, recurring by `rule`.
    pub fn recurring(self, rule: Recurrence) -> (r: OccurrenceRule)
        ensures
            r == OccurrenceRule::Recurring(self.span(), rule),
    {
        match self {
            OccurrenceRule::Onetime(ts) => OccurrenceRule::Recurring(ts, rule),
            OccurrenceRule::Recurring(ts, _) => OccurrenceRule::Recurring(ts, rule),
        }
    }

    /// The instants at which the event begins, as far as they lie from
    /// `after` to `before`, both included.
    pub fn instants(&self, after: i64, before: i64) -> (r: Vec<i64>)
        requires
            self.wf(),
            time_in_range(after as int),
            time_in_range(before as int),
        ensures
            r@ == self.instants_spec(after as int, before as int),
            forall|i: int| 0 <= i < r.len() ==> after <= #[trigger] r[i] <= before,
    {
        match self {
            OccurrenceRule::Onetime(ts) => {
                let begin = ts.begin();
                let mut found: Vec<i64> = Vec::new();
                if after <= begin.utc && begin.utc <= before {
                    found.push(begin.utc);
                }
                found
            },
            OccurrenceRule::Recurring(ts, rule) => {
                let begin = ts.begin();
                rule.instants(begin.utc, ts.timezone(), after, before)
            },
        }
    }
}

} // verus!
