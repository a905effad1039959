//! Time spans: the temporal extent of one occurrence of an event, and its
//! decomposition into one slice per calendar day.

use crate::datetime::{day_in_range, Date, ZonedDateTime};
use crate::zone::{Pick, Zone, DAY_SECONDS};
use vstd::prelude::*;

verus! {

/// The temporal extent of one occurrence.
#[derive(Clone, Copy, Debug, PartialEq, Eq, Structural)]
pub enum TimeSpan {
    /// Whole days in a zone, from a first date to a last date, both included;
    /// a single day where no last date is given.
    Allday(Date, Option<Date>, Zone),
    /// From one instant to another.
    TimePoints(ZonedDateTime, ZonedDateTime),
    /// From an instant, for a length in seconds.
    Duration(ZonedDateTime, i64),
    /// A single instant, of no length.
    Instant(ZonedDateTime),
}

impl TimeSpan {
    /// The zone in which the span is read: that of its beginning.
    pub open spec fn zone(self) -> Zone {
        match self {
            TimeSpan::Allday(_, _, zone) => zone,
            TimeSpan::TimePoints(b, _) => b.zone,
            TimeSpan::Duration(b, _) => b.zone,
            TimeSpan::Instant(b) => b.zone,
        }
    }

    /// The last date of a span of whole days.
    pub open spec fn last_day(first: Date, last: Option<Date>) -> Date {
        match last {
            Some(l) => l,
            None => first,
        }
    }

    /// The beginning, where it exists: for whole days the one instant at
    /// which the first date begins in the zone.
    pub open spec fn try_begin(self) -> Option<ZonedDateTime> {
        match self {
            TimeSpan::Allday(first, _, zone) => ZonedDateTime::try_at_local(
                zone,
                first.midnight(),
                Pick::Single,
            ),
            TimeSpan::TimePoints(b, _) => Some(b),
            TimeSpan::Duration(b, _) => Some(b),
            TimeSpan::Instant(b) => Some(b),
        }
    }

    /// The end, where it exists: for whole days the one instant with the
    /// local time 23:59:59 on the last date; for a length, the beginning
    /// moved by it.
    pub open spec fn try_end(self) -> Option<ZonedDateTime> {
        match self {
            TimeSpan::Allday(first, last, zone) => ZonedDateTime::try_at_local(
                zone,
                Self::last_day(first, last).last_second(),
                Pick::Single,
            ),
            TimeSpan::TimePoints(_, e) => Some(e),
            TimeSpan::Duration(b, d) => ZonedDateTime::try_at(b.zone, b.utc + d),
            TimeSpan::Instant(b) => Some(b),
        }
    }

    /// The parts are well formed, beginning and end exist, and the end is
    /// not before the beginning, neither as an instant nor by its local
    /// date.
    pub open spec fn wf(self) -> bool {
        &&& match self {
            TimeSpan::Allday(first, last, zone) => first.wf() && zone.wf() && (last matches Some(l)
                ==> l.wf()),
            TimeSpan::TimePoints(b, e) => b.wf() && e.wf(),
            TimeSpan::Duration(b, _) => b.wf(),
            TimeSpan::Instant(b) => b.wf(),
        }
        &&& self.try_begin().is_some() && self.try_begin().unwrap().wf()
        &&& self.try_end().is_some() && self.try_end().unwrap().wf()
        &&& self.try_begin().unwrap().utc <= self.try_end().unwrap().utc
        &&& self.try_begin().unwrap().date().day <= self.try_end().unwrap().date().day
    }

    /// The span itself, where it is well formed.
    pub open spec fn checked(self) -> Option<TimeSpan> {
        if self.wf() {
            Some(self)
        } else {
            None
        }
    }

    pub open spec fn begin_spec(self) -> ZonedDateTime {
        self.try_begin().unwrap()
    }

    pub open spec fn end_spec(self) -> ZonedDateTime {
        self.try_end().unwrap()
    }

    /// The length in seconds: a day for a single whole day, the distance of
    /// the two dates for whole days with a last date.
    pub open spec fn duration_spec(self) -> int {
        match self {
            TimeSpan::Allday(first, last, _) => match last {
                Some(l) => (l.day - first.day) * DAY_SECONDS,
                None => DAY_SECONDS as int,
            },
            TimeSpan::TimePoints(b, e) => e.utc - b.utc,
            TimeSpan::Duration(_, d) => d as int,
            TimeSpan::Instant(_) => 0,
        }
    }

    /// The number of calendar days that the span touches: the local dates
    /// from that of its beginning to that of its end.
    pub open spec fn num_days_spec(self) -> int {
        self.end_spec().date().day - self.begin_spec().date().day + 1
    }

    /// The slice of a span of several days that falls on its day number `i`:
    /// from the beginning to the next local midnight, a whole day, or from
    /// the last local midnight to the end.
    pub open spec fn day_slice(self, i: int) -> Option<TimeSpan> {
        let first = self.begin_spec().date();
        if i == 0 {
            match ZonedDateTime::try_at_local(self.zone(), first.plus(1).midnight(), Pick::Latest) {
                Some(m) => TimeSpan::TimePoints(self.begin_spec(), m).checked(),
                None => None,
            }
        } else if i == self.num_days_spec() - 1 {
            match ZonedDateTime::try_at_local(self.zone(), first.plus(i).midnight(), Pick::Earliest) {
                Some(m) => TimeSpan::TimePoints(m, self.end_spec()).checked(),
                None => None,
            }
        } else {
            TimeSpan::Allday(first.plus(i), None, self.zone()).checked()
        }
    }

    /// One slice per calendar day that the span touches: the span itself
    /// where it touches one day; none where a local midnight between the
    /// days does not exist in the zone, or a slice would end before it
    /// begins.
    pub open spec fn days_spec(self) -> Option<Seq<TimeSpan>> {
        let n = self.num_days_spec();
        if n == 1 {
            Some(seq![self])
        } else if forall|i: int| 0 <= i < n ==> (#[trigger] self.day_slice(i)).is_some() {
            Some(Seq::new(n as nat, |i: int| self.day_slice(i).unwrap()))
        } else {
            None
        }
    }

    /// The same span read in another zone, where it can be held there.
    pub open spec fn with_tz_spec(self, zone: Zone) -> Option<TimeSpan> {
        match self {
            TimeSpan::Allday(first, last, _) => TimeSpan::Allday(first, last, zone).checked(),
            TimeSpan::TimePoints(b, e) => match (
                ZonedDateTime::try_at(zone, b.utc as int),
                ZonedDateTime::try_at(zone, e.utc as int),
            ) {
                (Some(b2), Some(e2)) => TimeSpan::TimePoints(b2, e2).checked(),
                _ => None,
            },
            TimeSpan::Duration(b, d) => match ZonedDateTime::try_at(zone, b.utc as int) {
                Some(b2) => TimeSpan::Duration(b2, d).checked(),
                None => None,
            },
            TimeSpan::Instant(b) => match ZonedDateTime::try_at(zone, b.utc as int) {
                Some(b2) => Some(TimeSpan::Instant(b2)),
                None => None,
            },
        }
    }

    /// A span like this one that begins at the instant `t`: the same length
    /// from there, and for whole days as many days from the date of `t`.
    pub open spec fn moved_to_spec(self, t: int) -> Option<TimeSpan> {
        match ZonedDateTime::try_at(self.zone(), t) {
            None => None,
            Some(b) => match self {
                TimeSpan::Allday(first, last, zone) => {
                    let moved = match last {
                        Some(l) => Some(Date { day: (l.day + b.date().day - first.day) as i64 }),
                        None => None,
                    };
                    if day_in_range(b.date().day + Self::last_day(first, last).day - first.day) {
                        TimeSpan::Allday(b.date(), moved, zone).checked()
                    } else {
                        None
                    }
                },
                TimeSpan::TimePoints(b0, e0) => match ZonedDateTime::try_at(
                    e0.zone,
                    e0.utc + t - b0.utc,
                ) {
                    Some(e) => TimeSpan::TimePoints(b, e).checked(),
                    None => None,
                },
                TimeSpan::Duration(_, d) => TimeSpan::Duration(b, d).checked(),
                TimeSpan::Instant(_) => Some(TimeSpan::Instant(b)),
            },
        }
    }

    /// The local time up to which a slice reaches: the end of its last day
    /// for whole days, the local time of its end otherwise.
    pub open spec fn local_until(self) -> int {
        match self {
            TimeSpan::Allday(first, last, _) => Self::last_day(first, last).midnight()
                + DAY_SECONDS,
            _ => self.end_spec().local(),
        }
    }

    /// A span from one instant to another: none where the end is before
    /// the beginning, as an instant or by its local date.
    pub fn from_start_and_end(begin: ZonedDateTime, end: ZonedDateTime) -> (r: Option<TimeSpan>)
        requires
            begin.wf(),
            end.wf(),
        ensures
            r == TimeSpan::TimePoints(begin, end).checked(),
            r.is_some() == (begin.utc <= end.utc && begin.date().day <= end.date().day),
    {
        if begin.utc <= end.utc && begin.date_naive().day <= end.date_naive().day {
            Some(TimeSpan::TimePoints(begin, end))
        } else {
            None
        }
    }

    /// A span from an instant for a length in seconds: none where the
    /// length is negative or the end cannot be held.
    pub fn from_start_and_duration(begin: ZonedDateTime, duration: i64) -> (r: Option<TimeSpan>)
        requires
            begin.wf(),
        ensures
            r == TimeSpan::Duration(begin, duration).checked(),
            r.is_some() ==> duration >= 0,
    {
        if duration < 0 {
            return None;
        }
        match begin.checked_add(duration) {
            Some(end) => if begin.date_naive().day <= end.date_naive().day {
                Some(TimeSpan::Duration(begin, duration))
            } else {
                None
            },
            None => None,
        }
    }

    /// The span of no length at an instant.
    pub fn from_start(begin: ZonedDateTime) -> (r: TimeSpan)
        requires
            begin.wf(),
        ensures
            r == TimeSpan::Instant(begin),
            r.wf(),
    {
        TimeSpan::Instant(begin)
    }

    /// The whole day `date` in `zone`: none where the day's first or last
    /// second does not occur exactly once in the zone, or the last is before
    /// the first.
    pub fn allday(date: Date, zone: Zone) -> (r: Option<TimeSpan>)
        requires
            date.wf(),
            zone.wf(),
        ensures
            r == TimeSpan::Allday(date, None, zone).checked(),
    {
        let b = ZonedDateTime::from_local(zone, date.midnight_seconds(), Pick::Single);
        let e = ZonedDateTime::from_local(zone, date.last_second_seconds(), Pick::Single);
        match (b, e) {
            (Some(b), Some(e)) => if b.utc <= e.utc {
                Some(TimeSpan::Allday(date, None, zone))
            } else {
                None
            },
            _ => None,
        }
    }

    /// The whole days from `begin` to `end` in `zone`: none where `end` is
    /// before `begin`, or where the first second of `begin` or the last of
    /// `end` does not occur exactly once in the zone, or the last is before
    /// the first.
    pub fn allday_until(begin: Date, end: Date, zone: Zone) -> (r: Option<TimeSpan>)
        requires
            begin.wf(),
            end.wf(),
            zone.wf(),
        ensures
            r == TimeSpan::Allday(begin, Some(end), zone).checked(),
    {
        let b = ZonedDateTime::from_local(zone, begin.midnight_seconds(), Pick::Single);
        let e = ZonedDateTime::from_local(zone, end.last_second_seconds(), Pick::Single);
        match (b, e) {
            (Some(b), Some(e)) => if b.utc <= e.utc && begin.day <= end.day {
                Some(TimeSpan::Allday(begin, Some(end), zone))
            } else {
                None
            },
            _ => None,
        }
    }

    pub fn is_allday(&self) -> (r: bool)
        ensures
            r == (*self is Allday),
    {
        match self {
            TimeSpan::Allday(_, _, _) => true,
            _ => false,
        }
    }

    pub fn is_instant(&self) -> (r: bool)
        ensures
            r == (*self is Instant),
    {
        match self {
            TimeSpan::Instant(_) => true,
            _ => false,
        }
    }

    /// The zone in which the span is read.
    pub fn timezone(&self) -> (r: Zone)
        ensures
            r == self.zone(),
    {
        match self {
            TimeSpan::Allday(_, _, zone) => *zone,
            TimeSpan::TimePoints(b, _) => b.zone,
            TimeSpan::Duration(b, _) => b.zone,
            TimeSpan::Instant(b) => b.zone,
        }
    }

    /// The instant at which the span begins.
    pub fn begin(&self) -> (r: ZonedDateTime)
        requires
            self.wf(),
        ensures
            r == self.begin_spec(),
            r.wf(),
    {
        match self {
            TimeSpan::Allday(first, _, zone) => {
                match ZonedDateTime::from_local(*zone, first.midnight_seconds(), Pick::Single) {
                    Some(b) => b,
                    None => vstd::pervasive::unreached(),
                }
            },
            TimeSpan::TimePoints(b, _) => *b,
            TimeSpan::Duration(b, _) => *b,
            TimeSpan::Instant(b) => *b,
        }
    }

    /// The instant at which the span ends.
    pub fn end(&self) -> (r: ZonedDateTime)
        requires
            self.wf(),
        ensures
            r == self.end_spec(),
            r.wf(),
            r.utc >= self.begin_spec().utc,
    {
        match self {
            TimeSpan::Allday(first, last, zone) => {
                let l = match last {
                    Some(l) => *l,
                    None => *first,
                };
                match ZonedDateTime::from_local(*zone, l.last_second_seconds(), Pick::Single) {
                    Some(e) => e,
                    None => vstd::pervasive::unreached(),
                }
            },
            TimeSpan::TimePoints(_, e) => *e,
            TimeSpan::Duration(b, d) => {
                match b.checked_add(*d) {
                    Some(e) => e,
                    None => vstd::pervasive::unreached(),
                }
            },
            TimeSpan::Instant(b) => *b,
        }
    }

    /// The length of the span in seconds.
    pub fn duration(&self) -> (r: i64)
        requires
            self.wf(),
        ensures
            r == self.duration_spec(),
    {
        match self {
            TimeSpan::Allday(first, last, _) => match last {
                Some(l) => (l.day - first.day) * DAY_SECONDS,
                None => DAY_SECONDS,
            },
            TimeSpan::TimePoints(b, e) => e.utc - b.utc,
            TimeSpan::Duration(_, d) => *d,
            TimeSpan::Instant(_) => 0,
        }
    }

    /// The same span read in another zone: none where it cannot be held
    /// there, or where whole days do not begin and end exactly once in it.
    pub fn with_tz(&self, zone: Zone) -> (r: Option<TimeSpan>)
        requires
            self.wf(),
            zone.wf(),
        ensures
            r == self.with_tz_spec(zone),
            r matches Some(s) ==> s.wf(),
    {
        match self {
            TimeSpan::Allday(first, last, _) => match last {
                Some(l) => Self::allday_until(*first, *l, zone),
                None => Self::allday(*first, zone),
            },
            TimeSpan::TimePoints(b, e) => {
                match (b.with_timezone(zone), e.with_timezone(zone)) {
                    (Some(b2), Some(e2)) => Self::from_start_and_end(b2, e2),
                    _ => None,
                }
            },
            TimeSpan::Duration(b, d) => match b.with_timezone(zone) {
                Some(b2) => Self::from_start_and_duration(b2, *d),
                None => None,
            },
            TimeSpan::Instant(b) => match b.with_timezone(zone) {
                Some(b2) => Some(TimeSpan::Instant(b2)),
                None => None,
            },
        }
    }

    /// A span like this one that begins at the instant `t`: none where it
    /// cannot be held.
    pub fn moved_to(&self, t: i64) -> (r: Option<TimeSpan>)
        requires
            self.wf(),
        ensures
            r == self.moved_to_spec(t as int),
            r matches Some(s) ==> s.wf(),
    {
        let b = match ZonedDateTime::from_utc(self.timezone(), t) {
            Some(b) => b,
            None => {
                return None;
            },
        };
        match self {
            TimeSpan::Allday(first, last, zone) => {
                let day = b.date_naive();
                let shift: i64 = day.day - first.day;
                match last {
                    Some(l) => match Date::from_days(l.day + shift) {
                        Some(moved) => Self::allday_until(day, moved, *zone),
                        None => None,
                    },
                    None => Self::allday(day, *zone),
                }
            },
            TimeSpan::TimePoints(b0, e0) => {
                match ZonedDateTime::from_utc(e0.zone, e0.utc + (t - b0.utc)) {
                    Some(e) => Self::from_start_and_end(b, e),
                    None => None,
                }
            },
            TimeSpan::Duration(_, d) => Self::from_start_and_duration(b, *d),
            TimeSpan::Instant(_) => Some(TimeSpan::Instant(b)),
        }
    }

    /// The number of calendar days that the span touches.
    pub fn num_days(&self) -> (r: i64)
        requires
            self.wf(),
        ensures
            r == self.num_days_spec(),
            r >= 1,
    {
        let b = self.begin().date_naive();
        let e = self.end().date_naive();
        e.day - b.day + 1
    }

    /// One slice per calendar day that the span touches. A span within one
    /// day is returned as it is. A longer one gives a slice from its
    /// beginning to the next local midnight, one whole day for each day
    /// strictly between, and a slice from the last local midnight to its end.
    /// `None` where one of those midnights does not exist in the zone, or a
    /// day between does not begin and end exactly once in it.
    pub fn days(&self) -> (r: Option<Vec<TimeSpan>>)
        requires
            self.wf(),
        ensures
            r.is_some() == self.days_spec().is_some(),
            r matches Some(v) ==> {
                &&& v@ == self.days_spec().unwrap()
                &&& forall|i: int| 0 <= i < v.len() ==> (#[trigger] v[i]).wf()
            },
    {
        let begin = self.begin();
        let end = self.end();
        let first = begin.date_naive();
        let last = end.date_naive();
        let zone = self.timezone();
        let mut slices: Vec<TimeSpan> = Vec::new();
        if last.day <= first.day {
            slices.push(*self);
            assert(slices@ =~= seq![*self]);
            return Some(slices);
        }
        let n: i64 = last.day - first.day + 1;
        let mut i: i64 = 0;
        while i < n
            invariant
                self.wf(),
                zone.wf(),
                zone == self.zone(),
                begin == self.begin_spec(),
                end == self.end_spec(),
                begin.wf(),
                end.wf(),
                first == begin.date(),
                last == end.date(),
                first.wf(),
                last.wf(),
                n == self.num_days_spec(),
                n == last.day - first.day + 1,
                n >= 2,
                0 <= i <= n,
                slices.len() == i,
                forall|j: int| 0 <= j < i ==> (#[trigger] self.day_slice(j)).is_some(),
                forall|j: int| 0 <= j < i ==> slices[j] == (#[trigger] self.day_slice(j)).unwrap(),
                forall|j: int| 0 <= j < i ==> (#[trigger] slices[j]).wf(),
            decreases n - i,
        {
            let day = Date { day: first.day + i };
            let slice = if i == 0 {
                let next = Date { day: first.day + 1 };
                match ZonedDateTime::from_local(zone, next.midnight_seconds(), Pick::Latest) {
                    Some(m) => Self::from_start_and_end(begin, m),
                    None => None,
                }
            } else if i == n - 1 {
                match ZonedDateTime::from_local(zone, day.midnight_seconds(), Pick::Earliest) {
                    Some(m) => Self::from_start_and_end(m, end),
                    None => None,
                }
            } else {
                Self::allday(day, zone)
            };
            assert(slice == self.day_slice(i as int));
            match slice {
                Some(s) => {
                    slices.push(s);
                },
                None => {
                    return None;
                },
            }
            i = i + 1;
        }
        assert(slices@ =~= self.days_spec().unwrap());
        Some(slices)
    }
}

/// The end of a span is not before its beginning: every span that a
/// constructor hands out is well formed, and of a well-formed span this
/// holds. A span of two instants has them in order, and a span with a
/// length has a length that is not negative.
pub proof fn lemma_end_not_before_begin(span: TimeSpan)
    requires
        span.wf(),
    ensures
        span.begin_spec().utc <= span.end_spec().utc,
        span.begin_spec().date().day <= span.end_spec().date().day,
        span matches TimeSpan::TimePoints(b, e) ==> b.utc <= e.utc,
        span matches TimeSpan::Duration(_, d) ==> d >= 0,
{
}

/// The slices of a span cover it day by day: there is one slice for each
/// calendar day that the span touches; the first begins where the span
/// begins and the last ends where the span ends; each slice but the first
/// begins at the local midnight of its day, and each slice but the last
/// reaches up to the local midnight at which the next one begins.
pub proof fn lemma_days_cover_span(span: TimeSpan)
    requires
        span.wf(),
        span.days_spec().is_some(),
    ensures
        ({
            let slices = span.days_spec().unwrap();
            let n = span.num_days_spec();
            let first = span.begin_spec().date();
            &&& slices.len() == n
            &&& n >= 1
            &&& n == span.end_spec().date().day - first.day + 1
            &&& slices[0].begin_spec() == span.begin_spec()
            &&& slices[n - 1].end_spec() == span.end_spec()
            &&& forall|i: int|
                1 <= i < n ==> (#[trigger] slices[i]).begin_spec().local() == first.plus(i).midnight()
            &&& forall|i: int|
                0 <= i < n - 1 ==> (#[trigger] slices[i]).local_until() == first.plus(i + 1).midnight()
        }),
{
    let slices = span.days_spec().unwrap();
    let n = span.num_days_spec();
    let first = span.begin_spec().date();
    if n > 1 {
        assert forall|i: int| 1 <= i < n implies (#[trigger] slices[i]).begin_spec().local()
            == first.plus(i).midnight() by {
            assert(span.day_slice(i).is_some());
        }
        assert forall|i: int| 0 <= i < n - 1 implies (#[trigger] slices[i]).local_until()
            == first.plus(i + 1).midnight() by {
            assert(span.day_slice(i).is_some());
        }
        assert(span.day_slice(0).is_some());
        assert(span.day_slice(n - 1).is_some());
    }
}

} // verus!
