//! Time zones of the IANA database, looked up through `chrono-tz`.
//!
//! A zone is identified by its position in the database's list of zones, so
//! that a zone is a plain integer to the rest of the library. What the
//! database says about a zone is not modelled here: the offsets it gives are
//! named by the uninterpreted functions below, and every lookup is a trusted
//! call into `chrono-tz`.

use chrono::Offset;
use chrono::TimeZone;
use vstd::prelude::*;

verus! {

/// Number of zones in the database (`chrono_tz::TZ_VARIANTS`).
pub const ZONE_COUNT: u16 = 597;

/// Zone lookups are made within this many seconds either side of the Unix
/// epoch, far inside what `chrono` can represent.
pub const TIME_LIMIT: i64 = 400_000_000_000;

/// Every offset of a zone from UTC is strictly smaller than one day.
pub const OFFSET_LIMIT: i32 = 86_400;

/// Seconds of one calendar day.
pub const DAY_SECONDS: i64 = 86_400;

/// What a zone says about a local wall-clock time.
#[derive(Clone, Copy, Debug, PartialEq, Eq, Structural)]
pub enum LocalOffsets {
    /// The local time is skipped in this zone.
    Gap,
    /// The local time occurs once, at this offset from UTC.
    Single(i32),
    /// The local time occurs twice: at the first offset, then at the second.
    Fold(i32, i32),
}

/// Which of the instants with one local time is meant.
#[derive(Clone, Copy, Debug, PartialEq, Eq, Structural)]
pub enum Pick {
    /// The first of them.
    Earliest,
    /// The last of them.
    Latest,
    /// The only one: none where the local time occurs twice.
    Single,
}

/// Position of the zone called `name` in the database, if there is one.
pub uninterp spec fn zone_index_of(name: Seq<char>) -> Option<int>;

/// Offset from UTC, in seconds, that zone number `zone` has at the instant `utc`.
pub uninterp spec fn zone_offset_at(zone: int, utc: int) -> int;

/// Offsets from UTC that zone number `zone` gives to the local time `local`.
pub uninterp spec fn zone_local_offsets(zone: int, local: int) -> LocalOffsets;

/// A count of seconds, taken as an instant or as a local wall-clock time,
/// for which a zone can be asked.
pub open spec fn time_in_range(t: int) -> bool {
    -TIME_LIMIT <= t <= TIME_LIMIT
}

pub open spec fn offset_in_range(o: int) -> bool {
    -OFFSET_LIMIT < o < OFFSET_LIMIT
}

impl LocalOffsets {
    pub open spec fn in_range(self) -> bool {
        match self {
            LocalOffsets::Gap => true,
            LocalOffsets::Single(o) => offset_in_range(o as int),
            LocalOffsets::Fold(a, b) => offset_in_range(a as int) && offset_in_range(b as int),
        }
    }

    /// The offset of the earliest instant with this local time.
    pub open spec fn earliest(self) -> Option<i32> {
        match self {
            LocalOffsets::Gap => None,
            LocalOffsets::Single(o) => Some(o),
            LocalOffsets::Fold(a, _) => Some(a),
        }
    }

    /// The offset of the latest instant with this local time.
    pub open spec fn latest(self) -> Option<i32> {
        match self {
            LocalOffsets::Gap => None,
            LocalOffsets::Single(o) => Some(o),
            LocalOffsets::Fold(_, b) => Some(b),
        }
    }

    /// The offset, where the local time occurs exactly once.
    pub open spec fn single(self) -> Option<i32> {
        match self {
            LocalOffsets::Single(o) => Some(o),
            _ => None,
        }
    }

    /// The offset of the instant that `pick` means.
    pub open spec fn pick(self, pick: Pick) -> Option<i32> {
        match pick {
            Pick::Earliest => self.earliest(),
            Pick::Latest => self.latest(),
            Pick::Single => self.single(),
        }
    }

    /// The offset of the instant that `pick` means.
    pub fn choose_offset(&self, pick: Pick) -> (r: Option<i32>)
        ensures
            r == self.pick(pick),
    {
        match (*self, pick) {
            (LocalOffsets::Gap, _) => None,
            (LocalOffsets::Single(o), _) => Some(o),
            (LocalOffsets::Fold(a, _), Pick::Earliest) => Some(a),
            (LocalOffsets::Fold(_, b), Pick::Latest) => Some(b),
            (LocalOffsets::Fold(_, _), Pick::Single) => None,
        }
    }
}

/// A time zone of the database.
#[derive(Clone, Copy, Debug, PartialEq, Eq, Structural)]
pub struct Zone {
    index: u16,
}

/// `<chrono_tz::Tz as FromStr>::from_str`: the zone with exactly this name,
/// given by its position in `chrono_tz::TZ_VARIANTS`, which lists the zones
/// in the order of their declaration. Trusted: the result is the named
/// lookup, and a position lies inside the list.
#[verifier::external_body]
fn zone_lookup(name: &str) -> (r: Option<u16>)
    ensures
        match r {
            Some(i) => zone_index_of(name@) == Some(i as int) && i < ZONE_COUNT,
            None => zone_index_of(name@).is_none(),
        },
{
    name.parse::<chrono_tz::Tz>().ok().map(|tz| tz as u16)
}

/// `chrono_tz::Tz::UTC`, whose name in the database is "UTC". Trusted: the
/// position of that zone is the one the lookup by name gives; and, as the
/// database gives this zone one span of time with the offset 0, every
/// instant and every local time has the offset 0 in it.
#[verifier::external_body]
fn zone_utc_index() -> (r: u16)
    ensures
        r < ZONE_COUNT,
        zone_index_of("UTC"@) == Some(r as int),
        forall|t: int| #[trigger] zone_offset_at(r as int, t) == 0,
        forall|t: int| #[trigger] zone_local_offsets(r as int, t) == LocalOffsets::Single(0),
{
    chrono_tz::Tz::UTC as u16
}

/// `<chrono_tz::Tz as TimeZone>::offset_from_utc_datetime`: the offset in
/// force at an instant. Trusted: the result is the named offset, and it is
/// smaller than a day, as every `chrono::FixedOffset` is.
#[verifier::external_body]
fn zone_offset_lookup(zone: u16, utc: i64) -> (r: i32)
    requires
        zone < ZONE_COUNT,
        time_in_range(utc as int),
    ensures
        r == zone_offset_at(zone as int, utc as int),
        offset_in_range(r as int),
{
    let at = chrono::DateTime::from_timestamp(utc, 0).unwrap().naive_utc();
    chrono_tz::TZ_VARIANTS[zone as usize].offset_from_utc_datetime(&at).fix().local_minus_utc()
}

/// `<chrono_tz::Tz as TimeZone>::offset_from_local_datetime`: the offsets
/// that a local time can have. Trusted: the result is the named one, with
/// the earlier instant first, and each offset is smaller than a day.
#[verifier::external_body]
fn zone_local_lookup(zone: u16, local: i64) -> (r: LocalOffsets)
    requires
        zone < ZONE_COUNT,
        time_in_range(local as int),
    ensures
        r == zone_local_offsets(zone as int, local as int),
        r.in_range(),
{
    let at = chrono::DateTime::from_timestamp(local, 0).unwrap().naive_utc();
    match chrono_tz::TZ_VARIANTS[zone as usize].offset_from_local_datetime(&at) {
        chrono::LocalResult::None => LocalOffsets::Gap,
        chrono::LocalResult::Single(o) => LocalOffsets::Single(o.fix().local_minus_utc()),
        chrono::LocalResult::Ambiguous(a, b) => LocalOffsets::Fold(
            a.fix().local_minus_utc(),
            b.fix().local_minus_utc(),
        ),
    }
}

impl Zone {
    /// The zone's position in the database.
    pub closed spec fn index(self) -> int {
        self.index as int
    }

    /// The zone's position in the database.
    pub(crate) fn position(&self) -> (r: u16)
        ensures
            r == self.index(),
            self.wf() ==> r < ZONE_COUNT,
    {
        self.index
    }

    /// The position is one of the database.
    pub closed spec fn wf(self) -> bool {
        self.index < ZONE_COUNT
    }

    /// The zone "UTC".
    pub open spec fn utc_spec() -> Zone {
        Zone::at(zone_index_of("UTC"@).unwrap())
    }

    /// The zone at a position of the database.
    pub closed spec fn at(index: int) -> Zone {
        Zone { index: index as u16 }
    }

    /// The zone "UTC".
    pub fn utc() -> (z: Zone)
        ensures
            z.wf(),
            z == Zone::utc_spec(),
            forall|t: int| #[trigger] zone_offset_at(z.index(), t) == 0,
            forall|t: int| #[trigger] zone_local_offsets(z.index(), t) == LocalOffsets::Single(0),
    {
        Zone { index: zone_utc_index() }
    }

    /// The zone called `name`, if the database has one of that name.
    pub fn from_name(name: &str) -> (r: Option<Zone>)
        ensures
            r.is_some() == zone_index_of(name@).is_some(),
            r matches Some(z) ==> z.wf() && z == Zone::at(zone_index_of(name@).unwrap()),
    {
        match zone_lookup(name) {
            Some(index) => Some(Zone { index }),
            None => None,
        }
    }

    /// The offset from UTC, in seconds, that the zone has at the instant `utc`.
    pub fn offset_at(&self, utc: i64) -> (r: i32)
        requires
            self.wf(),
            time_in_range(utc as int),
        ensures
            r == zone_offset_at(self.index(), utc as int),
            offset_in_range(r as int),
    {
        zone_offset_lookup(self.index, utc)
    }

    /// The offsets from UTC that the zone gives to the local time `local`.
    pub fn local_offsets(&self, local: i64) -> (r: LocalOffsets)
        requires
            self.wf(),
            time_in_range(local as int),
        ensures
            r == zone_local_offsets(self.index(), local as int),
            r.in_range(),
    {
        zone_local_lookup(self.index, local)
    }
}

} // verus!
