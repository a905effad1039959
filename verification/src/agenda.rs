//! The agenda: all calendars by name, and a cache of the occurrences of the
//! dates that were asked for.
//!
//! The cache is a map from the day number of each date that was populated
//! to the bucket of the date. A bucket
//! holds one line for every occurrence that touches its date: the identifier
//! of the event and the slice of the occurrence that falls on the date. That
//! a date has a bucket means that it was populated, whether or not anything
//! falls on it.

use crate::calendar::{
    all_wf, bound_in, first_with_uid, now_in_range, occurrences, Calendar, EventFilter,
    LoadedModification, ProviderCalendar, TimeBound,
};
use crate::datetime::{
    civil_of, day_number, day_of, days_from_civil, local_in_range, year_in_range, Date,
    DAY_LIMIT,
};
use crate::event::{Event, Occurrence};
use crate::property::string_named;
use crate::timespan::TimeSpan;
use crate::zone::DAY_SECONDS;
use std::collections::BTreeMap;
use std::rc::Rc;
use vstd::prelude::*;
use vstd::string::StringSliceAdditionalSpecFns;

verus! {

/// One line of the cache: the identifier of an event and one day slice of
/// one of its occurrences.
#[derive(Debug)]
pub struct CacheLine {
    pub uid: String,
    pub span: TimeSpan,
}

/// The cache of occurrences by date: the lines of each populated date,
/// under the day number of the date.
#[derive(Debug)]
pub struct OccurrenceCache {
    pub occurrences: BTreeMap<i64, Vec<CacheLine>>,
}

/// All calendars, in the order of their names, and the cache.
#[derive(Debug)]
pub struct Agenda {
    pub calendars: Vec<ProviderCalendar>,
    pub occurrence_cache: OccurrenceCache,
}

/// The order of two names.
#[derive(Clone, Copy, Debug, PartialEq, Eq, Structural)]
pub enum NameOrder {
    Before,
    Same,
    After,
}

/// The order of names: byte by byte, a prefix before what it begins.
pub open spec fn bytes_less(a: Seq<u8>, b: Seq<u8>) -> bool
    decreases a.len(),
{
    if b.len() == 0 {
        false
    } else if a.len() == 0 {
        true
    } else if a[0] != b[0] {
        a[0] < b[0]
    } else {
        bytes_less(a.skip(1), b.skip(1))
    }
}

/// The bytes of the name of a calendar.
pub open spec fn name_bytes(c: ProviderCalendar) -> Seq<u8> {
    vstd::utf8::encode_utf8(c.calendar().friendly_name@)
}

/// The calendars stand in the strict order of their names.
pub open spec fn sorted_by_name(calendars: Seq<ProviderCalendar>) -> bool {
    forall|i: int, j: int|
        0 <= i < j < calendars.len() ==> bytes_less(
            name_bytes(#[trigger] calendars[i]),
            name_bytes(#[trigger] calendars[j]),
        )
}

/// The number of calendars whose name comes before `name`, counted from the
/// front up to the first that does not.
pub open spec fn name_position(calendars: Seq<ProviderCalendar>, name: Seq<u8>, from: int) -> int
    decreases calendars.len() - from,
{
    if from < 0 || from >= calendars.len() || !bytes_less(name_bytes(calendars[from]), name) {
        from
    } else {
        name_position(calendars, name, from + 1)
    }
}

/// The calendars with one more: in the place of the one of the same name
/// where there is one, else where its name puts it.
pub open spec fn with_calendar(calendars: Seq<ProviderCalendar>, calendar: ProviderCalendar) -> Seq<
    ProviderCalendar,
> {
    let p = name_position(calendars, name_bytes(calendar), 0);
    if p < calendars.len() && name_bytes(calendars[p]) == name_bytes(calendar) {
        calendars.update(p, calendar)
    } else {
        calendars.insert(p, calendar)
    }
}

/// The calendars that come of taking `given` one by one.
pub open spec fn collected(given: Seq<ProviderCalendar>) -> Seq<ProviderCalendar>
    decreases given.len(),
{
    if given.len() == 0 {
        Seq::empty()
    } else {
        with_calendar(collected(given.drop_last()), given.last())
    }
}

/// The first event with the identifier `uid`, going through the calendars
/// in their order from `from` on.
pub open spec fn event_with_uid(calendars: Seq<ProviderCalendar>, uid: Seq<char>, from: int)
    -> Option<Rc<Event>>
    decreases calendars.len() - from,
{
    if from < 0 || from >= calendars.len() {
        None
    } else {
        match first_with_uid(calendars[from].calendar().events@, uid, 0) {
            Some(i) => Some(calendars[from].calendar().events@[i].event),
            None => event_with_uid(calendars, uid, from + 1),
        }
    }
}

/// The occurrences of one calendar that begin within a range of local
/// times; none where a bound is a local time that the calendar's zone skips.
pub open spec fn chosen(calendar: Calendar, begin: TimeBound, end: TimeBound) -> Seq<Occurrence> {
    match (bound_in(calendar.tz, begin), bound_in(calendar.tz, end)) {
        (Some(b), Some(e)) => occurrences(calendar.events@, b, e),
        _ => Seq::empty(),
    }
}

/// The occurrences of all calendars that begin within a range of local
/// times, calendar after calendar.
pub open spec fn chosen_of_all(calendars: Seq<ProviderCalendar>, begin: TimeBound, end: TimeBound)
    -> Seq<Occurrence>
    decreases calendars.len(),
{
    if calendars.len() == 0 {
        Seq::empty()
    } else {
        chosen_of_all(calendars.drop_last(), begin, end) + chosen(
            calendars.last().calendar(),
            begin,
            end,
        )
    }
}

/// The occurrences that begin on a date: from its midnight up to, but not
/// at, the next.
pub open spec fn of_day(calendars: Seq<ProviderCalendar>, date: Date) -> Seq<Occurrence> {
    chosen_of_all(
        calendars,
        TimeBound::Included(date.midnight() as i64),
        TimeBound::Excluded((date.midnight() + DAY_SECONDS) as i64),
    )
}

/// The occurrences of all calendars, calendar after calendar.
pub open spec fn all_occurrences(calendars: Seq<ProviderCalendar>) -> Seq<Occurrence> {
    chosen_of_all(calendars, TimeBound::Unbounded, TimeBound::Unbounded)
}

/// The line of an occurrence for a date that it touches: the slice of the
/// occurrence that falls on the date. An occurrence that does not touch the
/// date has none, nor has an event without an identifier or an occurrence
/// that cannot be sliced.
pub open spec fn line_on(o: Occurrence, date: Date) -> Option<CacheLine> {
    let first = o.span.begin_spec().date().day;
    match (string_named(o.event.props(), "UID"@), o.span.days_spec()) {
        (Some(uid), Some(slices)) => if first <= date.day < first + slices.len() {
            Some(CacheLine { uid, span: slices[date.day - first] })
        } else {
            None
        },
        _ => None,
    }
}

/// The lines of some occurrences for a date, one occurrence after the
/// other.
pub open spec fn lines_on(occurrences: Seq<Occurrence>, date: Date) -> Seq<CacheLine>
    decreases occurrences.len(),
{
    if occurrences.len() == 0 {
        Seq::empty()
    } else {
        let before = lines_on(occurrences.drop_last(), date);
        match line_on(occurrences.last(), date) {
            Some(line) => before.push(line),
            None => before,
        }
    }
}

/// The date has a bucket.
pub open spec fn cached(buckets: Map<i64, Vec<CacheLine>>, date: Date) -> bool {
    buckets.contains_key(date.day)
}

/// The lines are those of the occurrences that touch the date.
pub open spec fn is_bucket_of(lines: Vec<CacheLine>, calendars: Seq<ProviderCalendar>, date: Date)
    -> bool {
    lines@ == lines_on(all_occurrences(calendars), date)
}

/// The lines of the buckets of the dates from `first` to `last`, date after
/// date.
pub open spec fn fetched(buckets: Map<i64, Vec<CacheLine>>, first: int, last: int) -> Seq<
    CacheLine,
>
    decreases last - first + 1,
{
    if last < first {
        Seq::empty()
    } else {
        let before = fetched(buckets, first, last - 1);
        if buckets.contains_key(last as i64) {
            before + buckets[last as i64]@
        } else {
            before
        }
    }
}

/// The span of every line is well formed.
pub open spec fn lines_wf(lines: Seq<CacheLine>) -> bool {
    forall|i: int| 0 <= i < lines.len() ==> (#[trigger] lines[i]).span.wf()
}

/// The occurrences that some lines stand for: each line with the first
/// event that has its identifier; a line whose event is gone stands for
/// none.
pub open spec fn resolved(lines: Seq<CacheLine>, calendars: Seq<ProviderCalendar>) -> Seq<
    Occurrence,
>
    decreases lines.len(),
{
    if lines.len() == 0 {
        Seq::empty()
    } else {
        let before = resolved(lines.drop_last(), calendars);
        match event_with_uid(calendars, lines.last().uid@, 0) {
            Some(event) => before.push(Occurrence { span: lines.last().span, event }),
            None => before,
        }
    }
}

/// Every date from `first` to `last` has a bucket.
pub open spec fn all_cached(buckets: Map<i64, Vec<CacheLine>>, first: int, last: int) -> bool {
    forall|d: int| first <= d <= last ==> #[trigger] buckets.contains_key(d as i64)
}

/// The cache `after` holds what `before` held, and a bucket more for each
/// date from `first` to `last` that had none: the buckets of `before` are
/// unchanged, and each further bucket is that of a date of the range, with
/// the lines of the occurrences that touch it.
pub open spec fn grown(
    before: Map<i64, Vec<CacheLine>>,
    after: Map<i64, Vec<CacheLine>>,
    calendars: Seq<ProviderCalendar>,
    first: int,
    last: int,
) -> bool {
    &&& forall|k: i64| #[trigger]
        before.contains_key(k) ==> after.contains_key(k) && after[k] == before[k]
    &&& forall|k: i64| #[trigger]
        after.contains_key(k) && !before.contains_key(k) ==> first <= k <= last && is_bucket_of(
            after[k],
            calendars,
            Date { day: k },
        )
    &&& all_cached(after, first, last)
}

/// The order of two names.
pub fn order_of(a: &[u8], b: &[u8]) -> (r: NameOrder)
    ensures
        r == NameOrder::Before <==> bytes_less(a@, b@),
        r == NameOrder::After <==> bytes_less(b@, a@),
        r == NameOrder::Same <==> a@ == b@,
{
    let mut i: usize = 0;
    proof {
        assert(a@.skip(0) =~= a@);
        assert(b@.skip(0) =~= b@);
        assert(a@.take(0) =~= b@.take(0));
    }
    while i < a.len() && i < b.len()
        invariant
            0 <= i <= a.len(),
            i <= b.len(),
            a@.take(i as int) == b@.take(i as int),
            bytes_less(a@, b@) == bytes_less(a@.skip(i as int), b@.skip(i as int)),
            bytes_less(b@, a@) == bytes_less(b@.skip(i as int), a@.skip(i as int)),
        decreases a.len() - i,
    {
        proof {
            assert(a@.skip(i as int).skip(1) =~= a@.skip(i + 1));
            assert(b@.skip(i as int).skip(1) =~= b@.skip(i + 1));
            assert(a@.skip(i as int)[0] == a@[i as int]);
            assert(b@.skip(i as int)[0] == b@[i as int]);
        }
        if a[i] < b[i] {
            assert(a@ != b@);
            return NameOrder::Before;
        }
        if a[i] > b[i] {
            assert(a@ != b@);
            return NameOrder::After;
        }
        proof {
            assert(a@.take(i + 1) =~= a@.take(i as int).push(a@[i as int]));
            assert(b@.take(i + 1) =~= b@.take(i as int).push(b@[i as int]));
        }
        i = i + 1;
    }
    proof {
        assert(a@.take(a@.len() as int) =~= a@);
        assert(b@.take(b@.len() as int) =~= b@);
        if i < b.len() {
            assert(b@.skip(i as int).len() > 0);
            assert(a@.len() != b@.len());
        }
        if i < a.len() {
            assert(a@.skip(i as int).len() > 0);
            assert(a@.len() != b@.len());
        }
    }
    if i < b.len() {
        NameOrder::Before
    } else if i < a.len() {
        NameOrder::After
    } else {
        NameOrder::Same
    }
}

/// The order of names goes on: what is before a name is before all that the
/// name is before.
pub proof fn lemma_bytes_less_transitive(a: Seq<u8>, b: Seq<u8>, c: Seq<u8>)
    requires
        bytes_less(a, b),
        bytes_less(b, c),
    ensures
        bytes_less(a, c),
    decreases a.len(),
{
    if a.len() > 0 && b.len() > 0 && c.len() > 0 && a[0] == b[0] && b[0] == c[0] {
        lemma_bytes_less_transitive(a.skip(1), b.skip(1), c.skip(1));
    }
}

impl OccurrenceCache {
    /// The span of every line is well formed.
    pub open spec fn wf(self) -> bool {
        forall|k: i64| #[trigger] self.occurrences@.contains_key(k) ==> lines_wf(self.occurrences@[k]@)
    }

    /// A cache that holds nothing.
    pub fn new() -> (r: OccurrenceCache)
        ensures
            r.wf(),
            r.occurrences@ == Map::<i64, Vec<CacheLine>>::empty(),
    {
        OccurrenceCache { occurrences: BTreeMap::new() }
    }

    /// Whether the date was populated.
    pub fn contains(&self, date: &Date) -> (r: bool)
        ensures
            r == cached(self.occurrences@, *date),
    {
        broadcast use vstd::std_specs::btree::group_btree_axioms;

        self.occurrences.contains_key(&date.day)
    }

    /// The lines of a date, where it was populated.
    pub fn fetch(&self, date: &Date) -> (r: Option<&Vec<CacheLine>>)
        ensures
            match r {
                Some(lines) => cached(self.occurrences@, *date) && self.occurrences@[date.day]
                    == *lines,
                None => !cached(self.occurrences@, *date),
            },
    {
        broadcast use vstd::std_specs::btree::group_btree_axioms;

        self.occurrences.get(&date.day)
    }

    /// Forgets a date.
    pub fn remove(&mut self, date: &Date)
        requires
            old(self).wf(),
        ensures
            final(self).wf(),
            final(self).occurrences@ == old(self).occurrences@.remove(date.day),
    {
        broadcast use vstd::std_specs::btree::group_btree_axioms;

        let _ = self.occurrences.remove(&date.day);
    }

    /// Populates a date with the lines of those of `found` that touch it;
    /// what the cache held of the date before is dropped.
    pub fn add(&mut self, date: Date, found: &Vec<Occurrence>)
        requires
            old(self).wf(),
            date.wf(),
            forall|i: int| 0 <= i < found.len() ==> (#[trigger] found@[i]).wf(),
        ensures
            final(self).wf(),
            final(self).occurrences@.dom() == old(self).occurrences@.dom().insert(date.day),
            final(self).occurrences@[date.day]@ == lines_on(found@, date),
            forall|k: i64|
                k != date.day && #[trigger] old(self).occurrences@.contains_key(k) ==> final(self).occurrences@[k] == old(self).occurrences@[k],
    {
        broadcast use vstd::std_specs::btree::group_btree_axioms;

        let mut lines: Vec<CacheLine> = Vec::new();
        let mut i: usize = 0;
        while i < found.len()
            invariant
                0 <= i <= found.len(),
                date.wf(),
                forall|k: int| 0 <= k < found.len() ==> (#[trigger] found@[k]).wf(),
                lines@ == lines_on(found@.take(i as int), date),
                lines_wf(lines@),
            decreases found.len() - i,
        {
            proof {
                assert(found@.take(i + 1).drop_last() =~= found@.take(i as int));
            }
            let occurrence = &found[i];
            let first = occurrence.span.begin().date_naive();
            let days = occurrence.span.num_days();
            if first.day <= date.day && date.day - first.day < days {
                match (occurrence.event.uid_string(), occurrence.span.days()) {
                    (Some(uid), Some(slices)) => {
                        let k: i64 = date.day - first.day;
                        lines.push(CacheLine { uid: uid.clone(), span: slices[k as usize] });
                    },
                    _ => {},
                }
            }
            i = i + 1;
        }
        proof {
            assert(found@.take(found.len() as int) =~= found@);
        }
        let _ = self.occurrences.remove(&date.day);
        let _ = self.occurrences.insert(date.day, lines);
        proof {
            assert(self.occurrences@.dom() =~= old(self).occurrences@.dom().insert(date.day));
        }
    }

    /// The lines of the dates from `first` to `last`, date after date.
    pub fn fetch_range(&self, first: Date, last: Date) -> (r: Vec<&CacheLine>)
        requires
            self.wf(),
            first.wf(),
            last.wf(),
        ensures
            r@.len() == fetched(self.occurrences@, first.day as int, last.day as int).len(),
            forall|i: int|
                0 <= i < r.len() ==> *(#[trigger] r@[i]) == fetched(
                    self.occurrences@,
                    first.day as int,
                    last.day as int,
                )[i],
            forall|i: int| 0 <= i < r.len() ==> (#[trigger] r@[i]).span.wf(),
    {
        broadcast use vstd::std_specs::btree::group_btree_axioms;

        let mut lines: Vec<&CacheLine> = Vec::new();
        if last.day < first.day {
            return lines;
        }
        let mut d: i64 = first.day;
        while d <= last.day
            invariant
                self.wf(),
                first.wf(),
                last.wf(),
                first.day <= d <= last.day + 1,
                lines@.len() == fetched(self.occurrences@, first.day as int, d - 1).len(),
                forall|i: int|
                    0 <= i < lines.len() ==> *(#[trigger] lines@[i]) == fetched(
                        self.occurrences@,
                        first.day as int,
                        d - 1,
                    )[i],
                forall|i: int| 0 <= i < lines.len() ==> (#[trigger] lines@[i]).span.wf(),
            decreases last.day + 1 - d,
        {
            let ghost earlier = fetched(self.occurrences@, first.day as int, d - 1);
            let ghost before = lines@;
            match self.occurrences.get(&d) {
                Some(bucket) => {
                    assert(lines_wf(bucket@));
                    let mut k: usize = 0;
                    while k < bucket.len()
                        invariant
                            0 <= k <= bucket.len(),
                            lines_wf(bucket@),
                            lines@.len() == before.len() + k,
                            forall|i: int| 0 <= i < before.len() ==> lines@[i] == before[i],
                            forall|i: int|
                                0 <= i < k ==> *(#[trigger] lines@[before.len() + i]) == bucket@[i],
                        decreases bucket.len() - k,
                    {
                        lines.push(&bucket[k]);
                        k = k + 1;
                    }
                    proof {
                        let now = fetched(self.occurrences@, first.day as int, d as int);
                        assert(now == earlier + bucket@);
                        assert forall|i: int| 0 <= i < lines.len() implies *(#[trigger] lines@[i])
                            == now[i] && lines@[i].span.wf() by {
                            if i < before.len() {
                                assert(lines@[i] == before[i]);
                            } else {
                                assert(*lines@[before.len() + (i - before.len())] == bucket@[i
                                    - before.len()]);
                            }
                        }
                    }
                },
                None => {},
            }
            d = d + 1;
        }
        lines
    }
}

impl Agenda {
    /// The calendars and the cache are well formed, and the calendars stand
    /// in the strict order of their names.
    pub open spec fn wf(self) -> bool {
        &&& self.occurrence_cache.wf()
        &&& sorted_by_name(self.calendars@)
        &&& forall|i: int| 0 <= i < self.calendars@.len() ==> (#[trigger] self.calendars@[i]).wf()
    }

    /// The agenda of some calendars, with nothing cached: of two calendars
    /// with one name the later one stays.
    pub fn new(calendars: Vec<ProviderCalendar>) -> (a: Agenda)
        requires
            forall|i: int| 0 <= i < calendars@.len() ==> (#[trigger] calendars@[i]).wf(),
        ensures
            a.wf(),
            a.calendars@ == collected(calendars@),
            a.occurrence_cache.occurrences@ == Map::<i64, Vec<CacheLine>>::empty(),
    {
        let mut agenda = Agenda { calendars: Vec::new(), occurrence_cache: OccurrenceCache::new() };
        let ghost all = calendars@;
        let mut rest = calendars;
        let n = rest.len();
        let mut i: usize = 0;
        while i < n
            invariant
                0 <= i <= n,
                n == all.len(),
                rest@ == all.skip(i as int),
                forall|k: int| 0 <= k < all.len() ==> (#[trigger] all[k]).wf(),
                agenda.wf(),
                agenda.calendars@ == collected(all.take(i as int)),
                agenda.occurrence_cache.occurrences@ == Map::<i64, Vec<CacheLine>>::empty(),
            decreases n - i,
        {
            let calendar = rest.remove(0);
            proof {
                assert(all.skip(i as int).remove(0) =~= all.skip(i + 1));
                assert(all.take(i + 1).drop_last() =~= all.take(i as int));
                assert(calendar == all[i as int]);
            }
            agenda.insert_calendar(calendar);
            i = i + 1;
        }
        proof {
            assert(all.take(n as int) =~= all);
        }
        agenda
    }

    /// Adds a calendar under its name: in the place of the one of the same
    /// name where there is one.
    pub fn insert_calendar(&mut self, calendar: ProviderCalendar)
        requires
            old(self).wf(),
            calendar.wf(),
        ensures
            final(self).wf(),
            final(self).calendars@ == with_calendar(old(self).calendars@, calendar),
            final(self).occurrence_cache == old(self).occurrence_cache,
    {
        let mut p: usize = 0;
        let mut same = false;
        let mut done = false;
        while !done && p < self.calendars.len()
            invariant
                0 <= p <= self.calendars.len(),
                *self == *old(self),
                name_position(self.calendars@, name_bytes(calendar), 0) == name_position(
                    self.calendars@,
                    name_bytes(calendar),
                    p as int,
                ),
                forall|k: int|
                    0 <= k < p ==> bytes_less(
                        name_bytes(#[trigger] self.calendars@[k]),
                        name_bytes(calendar),
                    ),
                !done ==> !same,
                done ==> p < self.calendars.len() && !bytes_less(
                    name_bytes(self.calendars@[p as int]),
                    name_bytes(calendar),
                ),
                done ==> same == (name_bytes(self.calendars@[p as int]) == name_bytes(calendar)),
                done && !same ==> bytes_less(
                    name_bytes(calendar),
                    name_bytes(self.calendars@[p as int]),
                ),
            decreases self.calendars.len() - p + (if done { 0int } else { 1int }),
        {
            match order_of(self.calendars[p].name().as_bytes(), calendar.name().as_bytes()) {
                NameOrder::Before => {
                    p = p + 1;
                },
                NameOrder::Same => {
                    same = true;
                    done = true;
                },
                NameOrder::After => {
                    done = true;
                },
            }
        }
        let ghost name = name_bytes(calendar);
        let ghost before = self.calendars@;
        proof {
            assert(name_position(before, name, p as int) == p);
        }
        if same {
            self.calendars.set(p, calendar);
            proof {
                let after = self.calendars@;
                assert forall|a: int, b: int| 0 <= a < b < after.len() implies bytes_less(
                    name_bytes(#[trigger] after[a]),
                    name_bytes(#[trigger] after[b]),
                ) by {
                    assert(name_bytes(after[a]) == name_bytes(before[a]));
                    assert(name_bytes(after[b]) == name_bytes(before[b]));
                }
            }
        } else {
            self.calendars.insert(p, calendar);
            proof {
                let after = self.calendars@;
                assert forall|a: int, b: int| 0 <= a < b < after.len() implies bytes_less(
                    name_bytes(#[trigger] after[a]),
                    name_bytes(#[trigger] after[b]),
                ) by {
                    if b < p {
                        assert(after[a] == before[a] && after[b] == before[b]);
                    } else if b == p {
                        assert(after[a] == before[a]);
                    } else if a < p {
                        assert(after[a] == before[a] && after[b] == before[b - 1]);
                    } else if a == p {
                        assert(after[b] == before[b - 1]);
                        if b - 1 > p {
                            lemma_bytes_less_transitive(
                                name,
                                name_bytes(before[p as int]),
                                name_bytes(before[b - 1]),
                            );
                        }
                    } else {
                        assert(after[a] == before[a - 1] && after[b] == before[b - 1]);
                    }
                }
                assert forall|k: int| 0 <= k < after.len() implies (#[trigger] after[k]).wf() by {
                    if k < p {
                        assert(after[k] == before[k]);
                    } else if k > p {
                        assert(after[k] == before[k - 1]);
                    }
                }
            }
        }
    }

    /// The first event with the identifier `uid`, going through the
    /// calendars in the order of their names.
    pub fn find_by_uid(&self, uid: &str) -> (r: Option<Rc<Event>>)
        requires
            self.wf(),
        ensures
            r == event_with_uid(self.calendars@, uid@, 0),
            r matches Some(e) ==> e.wf(),
    {
        let mut i: usize = 0;
        while i < self.calendars.len()
            invariant
                0 <= i <= self.calendars.len(),
                self.wf(),
                event_with_uid(self.calendars@, uid@, 0) == event_with_uid(
                    self.calendars@,
                    uid@,
                    i as int,
                ),
            decreases self.calendars.len() - i,
        {
            match self.calendars[i].as_calendar().event_by_uid(uid) {
                Some(e) => {
                    return Some(e);
                },
                None => {},
            }
            i = i + 1;
        }
        None
    }

    /// The calendar called `name`.
    pub fn calendar_by_name(&self, name: &str) -> (r: Option<&Calendar>)
        ensures
            match r {
                Some(c) => exists|i: int|
                    0 <= i < self.calendars@.len() && (#[trigger] self.calendars@[i]).calendar()
                        == *c && name_bytes(self.calendars@[i]) == name.spec_bytes(),
                None => forall|i: int|
                    0 <= i < self.calendars@.len() ==> name_bytes(#[trigger] self.calendars@[i])
                        != name.spec_bytes(),
            },
    {
        let mut i: usize = 0;
        while i < self.calendars.len()
            invariant
                0 <= i <= self.calendars.len(),
                forall|k: int|
                    0 <= k < i ==> name_bytes(#[trigger] self.calendars@[k]) != name.spec_bytes(),
            decreases self.calendars.len() - i,
        {
            match order_of(self.calendars[i].name().as_bytes(), name.as_bytes()) {
                NameOrder::Same => {
                    return Some(self.calendars[i].as_calendar());
                },
                _ => {},
            }
            i = i + 1;
        }
        None
    }

    /// The occurrences of all calendars that a filter chooses, calendar
    /// after calendar.
    pub fn filter_all(&self, filter: EventFilter) -> (r: Vec<Occurrence>)
        requires
            self.wf(),
        ensures
            ({
                let EventFilter::InRange(begin, end) = filter;
                r@ == chosen_of_all(self.calendars@, begin, end)
            }),
            forall|i: int| 0 <= i < r.len() ==> (#[trigger] r@[i]).wf(),
    {
        let EventFilter::InRange(begin, end) = filter;
        let mut found: Vec<Occurrence> = Vec::new();
        let mut i: usize = 0;
        while i < self.calendars.len()
            invariant
                0 <= i <= self.calendars.len(),
                self.wf(),
                filter == EventFilter::InRange(begin, end),
                found@ == chosen_of_all(self.calendars@.take(i as int), begin, end),
                forall|k: int| 0 <= k < found.len() ==> (#[trigger] found@[k]).wf(),
            decreases self.calendars.len() - i,
        {
            proof {
                assert(self.calendars@.take(i + 1).drop_last() =~= self.calendars@.take(i as int));
            }
            match self.calendars[i].as_calendar().filter_events(filter) {
                Some(mut more) => {
                    found.append(&mut more);
                },
                None => {
                    assert(found@ + Seq::<Occurrence>::empty() =~= found@);
                },
            }
            i = i + 1;
        }
        proof {
            assert(self.calendars@.take(self.calendars.len() as int) =~= self.calendars@);
        }
        found
    }

    /// The occurrences that begin on a date, without the cache.
    pub fn events_of_day(&self, date: &Date) -> (r: Vec<Occurrence>)
        requires
            self.wf(),
            date.wf(),
        ensures
            r@ == of_day(self.calendars@, *date),
            forall|i: int| 0 <= i < r.len() ==> (#[trigger] r@[i]).wf(),
    {
        let begin = date.midnight_seconds();
        self.filter_all(
            EventFilter::InRange(TimeBound::Included(begin), TimeBound::Excluded(begin + DAY_SECONDS)),
        )
    }

    /// Populates a date: its bucket gets the lines of the occurrences of all
    /// calendars that touch it. A bucket that was there is dropped first.
    pub fn add_to_cache(&mut self, date: Date)
        requires
            old(self).wf(),
            date.wf(),
        ensures
            final(self).wf(),
            final(self).calendars == old(self).calendars,
            final(self).occurrence_cache.occurrences@.dom() == old(self).occurrence_cache.occurrences@.dom().insert(date.day),
            is_bucket_of(
                final(self).occurrence_cache.occurrences@[date.day],
                old(self).calendars@,
                date,
            ),
            forall|k: i64|
                k != date.day && #[trigger] old(self).occurrence_cache.occurrences@.contains_key(k)
                    ==> final(self).occurrence_cache.occurrences@[k] == old(self).occurrence_cache.occurrences@[k],
    {
        let found = self.filter_all(EventFilter::default());
        self.occurrence_cache.add(date, &found);
    }

    /// Populates the dates from `first` to `last` that have no bucket yet.
    pub fn populate(&mut self, first: Date, last: Date)
        requires
            old(self).wf(),
            first.wf(),
            last.wf(),
        ensures
            final(self).wf(),
            final(self).calendars == old(self).calendars,
            grown(
                old(self).occurrence_cache.occurrences@,
                final(self).occurrence_cache.occurrences@,
                old(self).calendars@,
                first.day as int,
                last.day as int,
            ),
    {
        let ghost start = self.occurrence_cache.occurrences@;
        if last.day < first.day {
            return ;
        }
        let mut d: i64 = first.day;
        while d <= last.day
            invariant
                first.wf(),
                last.wf(),
                first.day <= d <= last.day + 1,
                self.wf(),
                self.calendars == old(self).calendars,
                start == old(self).occurrence_cache.occurrences@,
                grown(
                    start,
                    self.occurrence_cache.occurrences@,
                    self.calendars@,
                    first.day as int,
                    d - 1,
                ),
            decreases last.day + 1 - d,
        {
            let date = Date { day: d };
            let ghost before = self.occurrence_cache.occurrences@;
            if !self.occurrence_cache.contains(&date) {
                self.add_to_cache(date);
                proof {
                    let after = self.occurrence_cache.occurrences@;
                    assert forall|k: i64| #[trigger] start.contains_key(k) implies after.contains_key(
                        k,
                    ) && after[k] == start[k] by {
                        assert(before.contains_key(k));
                    }
                    assert forall|k: i64| #[trigger]
                        after.contains_key(k) && !start.contains_key(k) implies first.day <= k <= d
                        && is_bucket_of(after[k], self.calendars@, Date { day: k }) by {
                        if k != d {
                            assert(before.contains_key(k));
                        }
                    }
                    assert forall|x: int| first.day <= x <= d implies #[trigger] after.contains_key(
                        x as i64,
                    ) by {
                        if x < d {
                            assert(before.contains_key(x as i64));
                        }
                    }
                }
            }
            d = d + 1;
        }
    }

    /// The occurrences of the dates of a range of local times, from the
    /// cache: every date of the range that has no bucket yet is populated
    /// first. None where the range is open at an end. The occurrences come
    /// date after date, not in the order of time.
    pub fn fetch_maybe_cached(&mut self, begin: TimeBound, end: TimeBound) -> (r: Option<
        Vec<Occurrence>,
    >)
        requires
            old(self).wf(),
        ensures
            final(self).wf(),
            final(self).calendars == old(self).calendars,
            r.is_some() == (range_days(begin, end) is Some),
            r matches Some(v) ==> forall|i: int| 0 <= i < v.len() ==> (#[trigger] v@[i]).wf(),
            range_days(begin, end) matches Some((first, last)) ==> {
                &&& grown(
                    old(self).occurrence_cache.occurrences@,
                    final(self).occurrence_cache.occurrences@,
                    old(self).calendars@,
                    first,
                    last,
                )
                &&& r.unwrap()@ == resolved(
                    fetched(final(self).occurrence_cache.occurrences@, first, last),
                    final(self).calendars@,
                )
            },
            range_days(begin, end) is None ==> final(self).occurrence_cache == old(self).occurrence_cache,
    {
        let start = match begin {
            TimeBound::Included(t) => t,
            TimeBound::Excluded(t) => t,
            TimeBound::Unbounded => {
                return None;
            },
        };
        let stop = match end {
            TimeBound::Included(t) => t,
            TimeBound::Excluded(t) => t,
            TimeBound::Unbounded => {
                return None;
            },
        };
        if start < -DAY_LIMIT * DAY_SECONDS || start >= (DAY_LIMIT + 1) * DAY_SECONDS || stop
            < -DAY_LIMIT * DAY_SECONDS || stop >= (DAY_LIMIT + 1) * DAY_SECONDS {
            return None;
        }
        let first = Date { day: day_number(start) };
        let last = Date { day: day_number(stop) };
        self.populate(first, last);
        let lines = self.occurrence_cache.fetch_range(first, last);
        let ghost all = fetched(self.occurrence_cache.occurrences@, first.day as int, last.day as int);
        let mut found: Vec<Occurrence> = Vec::new();
        let mut i: usize = 0;
        while i < lines.len()
            invariant
                0 <= i <= lines.len(),
                self.wf(),
                lines@.len() == all.len(),
                forall|k: int| 0 <= k < lines.len() ==> *(#[trigger] lines@[k]) == all[k],
                forall|k: int| 0 <= k < lines.len() ==> (#[trigger] lines@[k]).span.wf(),
                found@ == resolved(all.take(i as int), self.calendars@),
                forall|k: int| 0 <= k < found.len() ==> (#[trigger] found@[k]).wf(),
            decreases lines.len() - i,
        {
            proof {
                assert(all.take(i + 1).drop_last() =~= all.take(i as int));
            }
            let line = lines[i];
            match self.find_by_uid(line.uid.as_str()) {
                Some(event) => {
                    found.push(Occurrence { span: line.span, event });
                },
                None => {},
            }
            i = i + 1;
        }
        proof {
            assert(all.take(all.len() as int) =~= all);
        }
        Some(found)
    }

    /// The occurrences of the dates of a range of local times that is closed
    /// at both ends, from the cache.
    pub fn events_in(&mut self, begin: TimeBound, end: TimeBound) -> (r: Vec<Occurrence>)
        requires
            old(self).wf(),
            range_days(begin, end) is Some,
        ensures
            final(self).wf(),
            final(self).calendars == old(self).calendars,
            forall|i: int| 0 <= i < r.len() ==> (#[trigger] r@[i]).wf(),
            ({
                let (first, last) = range_days(begin, end).unwrap();
                &&& grown(
                    old(self).occurrence_cache.occurrences@,
                    final(self).occurrence_cache.occurrences@,
                    old(self).calendars@,
                    first,
                    last,
                )
                &&& r@ == resolved(
                    fetched(final(self).occurrence_cache.occurrences@, first, last),
                    final(self).calendars@,
                )
            }),
    {
        match self.fetch_maybe_cached(begin, end) {
            Some(found) => found,
            None => vstd::pervasive::unreached(),
        }
    }

    /// The occurrences of the dates of a month, from the cache: from the
    /// first day of the month to the first day of the next.
    pub fn events_of_month(&mut self, month: u32, year: i32) -> (r: Vec<Occurrence>)
        requires
            old(self).wf(),
            1 <= month <= 12,
            year_in_range(year as int),
        ensures
            final(self).wf(),
            final(self).calendars == old(self).calendars,
            forall|i: int| 0 <= i < r.len() ==> (#[trigger] r@[i]).wf(),
            ({
                let first = days_from_civil(year as int, month as int, 1);
                let last = first + crate::datetime::days_in_month(year as int, month as int);
                &&& grown(
                    old(self).occurrence_cache.occurrences@,
                    final(self).occurrence_cache.occurrences@,
                    old(self).calendars@,
                    first,
                    last,
                )
                &&& r@ == resolved(
                    fetched(final(self).occurrence_cache.occurrences@, first, last),
                    final(self).calendars@,
                )
            }),
    {
        let first = match Date::from_ymd(year, month, 1) {
            Some(d) => d,
            None => vstd::pervasive::unreached(),
        };
        let begin = first.midnight_seconds();
        let length = crate::datetime::days_of_month(month, year) as i64;
        let end = begin + length * DAY_SECONDS;
        self.events_in(TimeBound::Included(begin), TimeBound::Excluded(end))
    }

    /// The occurrences of the dates of the month in which `today` lies, from
    /// the cache.
    pub fn events_of_current_month(&mut self, today: &Date) -> (r: Vec<Occurrence>)
        requires
            old(self).wf(),
            today.wf(),
            year_in_range(civil_of(today.day as int).0),
        ensures
            final(self).wf(),
            final(self).calendars == old(self).calendars,
            forall|i: int| 0 <= i < r.len() ==> (#[trigger] r@[i]).wf(),
            ({
                let (year, month, _) = civil_of(today.day as int);
                let first = days_from_civil(year, month, 1);
                let last = first + crate::datetime::days_in_month(year, month);
                &&& grown(
                    old(self).occurrence_cache.occurrences@,
                    final(self).occurrence_cache.occurrences@,
                    old(self).calendars@,
                    first,
                    last,
                )
                &&& r@ == resolved(
                    fetched(final(self).occurrence_cache.occurrences@, first, last),
                    final(self).calendars@,
                )
            }),
    {
        let (year, month, _) = today.ymd();
        self.events_of_month(month, year)
    }

    /// The occurrences that begin on the date `today`, without the cache.
    pub fn events_of_current_day(&self, today: &Date) -> (r: Vec<Occurrence>)
        requires
            self.wf(),
            today.wf(),
        ensures
            r@ == of_day(self.calendars@, *today),
            forall|i: int| 0 <= i < r.len() ==> (#[trigger] r@[i]).wf(),
    {
        self.events_of_day(today)
    }

    /// Applies to each calendar its queue of changes of event files. The
    /// cache is left as it is.
    pub fn process_external_modifications(&mut self, queues: Vec<Vec<LoadedModification>>, now: i64)
        requires
            old(self).wf(),
            now_in_range(now as int),
            queues@.len() == old(self).calendars@.len(),
            forall|i: int| 0 <= i < queues@.len() ==> all_wf((#[trigger] queues@[i])@),
        ensures
            final(self).wf(),
            final(self).occurrence_cache == old(self).occurrence_cache,
            final(self).calendars@.len() == old(self).calendars@.len(),
            forall|i: int|
                0 <= i < final(self).calendars@.len() ==> {
                    &&& (#[trigger] final(self).calendars@[i]).calendar().same_frame(
                        old(self).calendars@[i].calendar(),
                    )
                    &&& final(self).calendars@[i].calendar().events@ == crate::calendar::applied_all(
                        old(self).calendars@[i].calendar().events@,
                        queues@[i]@,
                        now as int,
                    )
                },
    {
        let ghost all = queues@;
        let mut rest = queues;
        let n = self.calendars.len();
        let mut i: usize = 0;
        while i < n
            invariant
                0 <= i <= n,
                n == all.len(),
                n == self.calendars@.len(),
                n == old(self).calendars@.len(),
                rest@ == all.skip(i as int),
                now_in_range(now as int),
                forall|k: int| 0 <= k < all.len() ==> all_wf((#[trigger] all[k])@),
                self.occurrence_cache == old(self).occurrence_cache,
                old(self).wf(),
                self.occurrence_cache.wf(),
                forall|k: int| 0 <= k < n ==> (#[trigger] self.calendars@[k]).wf(),
                forall|k: int| i <= k < n ==> self.calendars@[k] == old(self).calendars@[k],
                forall|k: int|
                    0 <= k < n ==> name_bytes(#[trigger] self.calendars@[k]) == name_bytes(
                        old(self).calendars@[k],
                    ),
                forall|k: int|
                    0 <= k < i ==> {
                        &&& (#[trigger] self.calendars@[k]).calendar().same_frame(
                            old(self).calendars@[k].calendar(),
                        )
                        &&& self.calendars@[k].calendar().events@ == crate::calendar::applied_all(
                            old(self).calendars@[k].calendar().events@,
                            all[k]@,
                            now as int,
                        )
                    },
            decreases n - i,
        {
            let queue = rest.remove(0);
            proof {
                assert(all.skip(i as int).remove(0) =~= all.skip(i + 1));
                assert(queue == all[i as int]);
            }
            let mut calendar = self.calendars.remove(i);
            calendar.process_external_modifications(queue, now);
            self.calendars.insert(i, calendar);
            i = i + 1;
        }
    }
}

/// The dates of a range of local times that is closed at both ends: the
/// date of each end, whichever way the end is closed.
pub open spec fn range_days(begin: TimeBound, end: TimeBound) -> Option<(int, int)> {
    let start = match begin {
        TimeBound::Included(t) => Some(t),
        TimeBound::Excluded(t) => Some(t),
        TimeBound::Unbounded => None,
    };
    let stop = match end {
        TimeBound::Included(t) => Some(t),
        TimeBound::Excluded(t) => Some(t),
        TimeBound::Unbounded => None,
    };
    match (start, stop) {
        (Some(a), Some(b)) => if local_in_range(a as int) && local_in_range(b as int) {
            Some((day_of(a as int), day_of(b as int)))
        } else {
            None
        },
        _ => None,
    }
}

/// Asking for the same range once more populates nothing: where every date
/// of the range has its bucket, the cache grows by no bucket, so that what
/// is fetched from it is the same.
pub proof fn lemma_cache_idempotent(
    before: Map<i64, Vec<CacheLine>>,
    after: Map<i64, Vec<CacheLine>>,
    again: Map<i64, Vec<CacheLine>>,
    calendars: Seq<ProviderCalendar>,
    first: int,
    last: int,
)
    requires
        grown(before, after, calendars, first, last),
        grown(after, again, calendars, first, last),
    ensures
        again == after,
        resolved(fetched(again, first, last), calendars) == resolved(
            fetched(after, first, last),
            calendars,
        ),
{
    assert forall|k: i64| again.contains_key(k) implies #[trigger] after.contains_key(k) by {
        if !after.contains_key(k) {
            assert(first <= k <= last);
            assert(after.contains_key(k as int as i64));
        }
    }
    assert(again =~= after);
}

} // verus!
