//! Recurrence rules, expanded through `rrule`.
//!
//! A rule is kept as the text of its record property. Whether a text is a
//! rule for a start, and which instants a rule gives from a start inside a
//! window, is what `rrule` says: both are named by uninterpreted functions,
//! and the calls are trusted. Why a text is no rule for a start is not
//! named: `rrule` reads some texts by the clock of the machine, so that one
//! text may fail in one way here and in another way there.

use crate::seqs::lemma_filter_take_step;
use crate::zone::{time_in_range, Zone};
use vstd::prelude::*;

verus! {

/// What `rrule` makes of a rule text for a given start.
#[derive(Clone, Copy, Debug, PartialEq, Eq, Structural)]
pub enum RuleCheck {
    /// The text is no recurrence rule.
    Unparseable,
    /// The text is a rule that does not go with the start.
    Invalid,
    /// The text is a rule for the start.
    Valid,
}

/// The most instants that one call of `rrule` gives.
pub const EXPANSION_LIMIT: u16 = 65_535;

/// Whether `rrule` takes `text` as a rule for an event that starts at the
/// instant `start` in zone number `zone`.
pub uninterp spec fn rule_valid_for(text: Seq<char>, start: int, zone: int) -> bool;

/// The instants, at most `limit` of them, that the rule `text` gives for an
/// event that starts at `start` in zone number `zone`, from `after` to
/// `before`, both included; none where the text is no rule for the start.
pub uninterp spec fn rule_instants_of(
    text: Seq<char>,
    start: int,
    zone: int,
    after: int,
    before: int,
    limit: int,
) -> Seq<i64>;

/// `<rrule::RRule<rrule::Unvalidated> as FromStr>::from_str`, then
/// `rrule::RRule::build` with the start read in the zone. Trusted: the
/// result is `Valid` exactly where the text is the named rule for the
/// start. Which of the two failures comes back is left open: it may depend
/// on the zone of the machine.
#[verifier::external_body]
fn check_rule(text: &str, start: i64, zone: u16) -> (r: RuleCheck)
    requires
        time_in_range(start as int),
        zone < crate::zone::ZONE_COUNT,
    ensures
        (r == RuleCheck::Valid) == rule_valid_for(text@, start as int, zone as int),
{
    let tz = rrule::Tz::Tz(chrono_tz::TZ_VARIANTS[zone as usize]);
    let begin = chrono::DateTime::from_timestamp(start, 0).unwrap().with_timezone(&tz);
    match text.parse::<rrule::RRule<rrule::Unvalidated>>() {
        Err(_) => RuleCheck::Unparseable,
        Ok(rule) => match rule.build(begin) {
            Err(_) => RuleCheck::Invalid,
            Ok(_) => RuleCheck::Valid,
        },
    }
}

/// `rrule::RRuleSet::all`, on the set that `rrule::RRule::build` makes of
/// the text and the start, bounded by `rrule::RRuleSet::after` and
/// `rrule::RRuleSet::before`; each instant is given as its count of
/// seconds. Trusted: the result is the named expansion.
#[verifier::external_body]
fn expand_rule(text: &str, start: i64, zone: u16, after: i64, before: i64, limit: u16) -> (r: Vec<
    i64,
>)
    requires
        time_in_range(start as int),
        time_in_range(after as int),
        time_in_range(before as int),
        zone < crate::zone::ZONE_COUNT,
    ensures
        r@ == rule_instants_of(
            text@,
            start as int,
            zone as int,
            after as int,
            before as int,
            limit as int,
        ),
{
    let tz = rrule::Tz::Tz(chrono_tz::TZ_VARIANTS[zone as usize]);
    let at = |t: i64| chrono::DateTime::from_timestamp(t, 0).unwrap().with_timezone(&tz);
    match text.parse::<rrule::RRule<rrule::Unvalidated>>().ok().and_then(|r| r.build(at(start)).ok()) {
        Some(set) => set.after(at(after)).before(at(before)).all(limit).dates.iter().map(
            |d| d.timestamp(),
        ).collect(),
        None => Vec::new(),
    }
}

/// A recurrence rule: the text of the rule property of an event record.
#[derive(Debug)]
pub struct Recurrence {
    pub rule: String,
}

impl Recurrence {
    pub fn new(rule: &str) -> (r: Recurrence)
        ensures
            r.rule@ == rule@,
    {
        Recurrence { rule: rule.to_owned() }
    }

    /// A copy of the rule.
    pub fn duplicate(&self) -> (r: Recurrence)
        ensures
            r.rule@ == self.rule@,
    {
        Recurrence { rule: self.rule.clone() }
    }

    /// What the rule is for an event that starts at `start` in `zone`:
    /// `Valid` exactly where the text is a rule for the start.
    pub fn check(text: &str, start: i64, zone: Zone) -> (r: RuleCheck)
        requires
            time_in_range(start as int),
            zone.wf(),
        ensures
            (r == RuleCheck::Valid) == rule_valid_for(text@, start as int, zone.index()),
    {
        check_rule(text, start, zone.position())
    }

    /// The instants that the rule gives for an event that starts at `start`
    /// in `zone`, as far as they lie from `after` to `before`, both included.
    pub open spec fn instants_spec(self, start: int, zone: Zone, after: int, before: int) -> Seq<
        i64,
    > {
        instants_from(self.rule@, start, zone.index(), after, before)
    }

    /// Those of `all` that lie from `after` to `before`, both included, in
    /// their order.
    pub fn within(all: &Vec<i64>, after: i64, before: i64) -> (r: Vec<i64>)
        ensures
            r@ == all@.filter(|t: i64| after <= t <= before),
            forall|i: int| 0 <= i < r.len() ==> after <= #[trigger] r[i] <= before,
    {
        let ghost keep = |t: i64| after <= t <= before;
        let mut kept: Vec<i64> = Vec::new();
        let mut i: usize = 0;
        while i < all.len()
            invariant
                0 <= i <= all.len(),
                keep == (|t: i64| after <= t <= before),
                kept@ == all@.take(i as int).filter(keep),
                forall|j: int| 0 <= j < kept.len() ==> after <= #[trigger] kept[j] <= before,
            decreases all.len() - i,
        {
            let t = all[i];
            proof {
                lemma_filter_take_step(all@, keep, i as int);
            }
            if after <= t && t <= before {
                kept.push(t);
            }
            i = i + 1;
        }
        assert(all@.take(all.len() as int) == all@);
        kept
    }

    /// The largest of `all`, or `floor` where none is larger.
    pub fn largest(all: &Vec<i64>, floor: i64) -> (r: i64)
        ensures
            r == largest_of(all@, floor as int),
            r >= floor,
    {
        let mut m: i64 = floor;
        let mut i: usize = 0;
        while i < all.len()
            invariant
                0 <= i <= all.len(),
                m == largest_of(all@.take(i as int), floor as int),
                m >= floor,
            decreases all.len() - i,
        {
            proof {
                assert(all@.take(i + 1).drop_last() =~= all@.take(i as int));
            }
            if all[i] > m {
                m = all[i];
            }
            i = i + 1;
        }
        assert(all@.take(all.len() as int) =~= all@);
        m
    }

    /// The instants that the rule gives for an event that starts at `start`
    /// in `zone`, as far as they lie from `after` to `before`, both included.
    /// They are asked for lot by lot: a full lot is followed by the lot of
    /// the instants after its largest.
    pub fn instants(&self, start: i64, zone: Zone, after: i64, before: i64) -> (r: Vec<i64>)
        requires
            time_in_range(start as int),
            time_in_range(after as int),
            time_in_range(before as int),
            zone.wf(),
        ensures
            r@ == self.instants_spec(start as int, zone, after as int, before as int),
            forall|i: int| 0 <= i < r.len() ==> after <= #[trigger] r[i] <= before,
    {
        let ghost total = instants_from(
            self.rule@,
            start as int,
            zone.index(),
            after as int,
            before as int,
        );
        let mut all: Vec<i64> = Vec::new();
        if after > before {
            return all;
        }
        let mut from: i64 = after;
        let mut done = false;
        while !done && from <= before
            invariant
                time_in_range(start as int),
                time_in_range(after as int),
                time_in_range(before as int),
                zone.wf(),
                after <= from <= before + 1,
                forall|i: int| 0 <= i < all.len() ==> after <= #[trigger] all[i] <= before,
                !done ==> all@ + instants_from(
                    self.rule@,
                    start as int,
                    zone.index(),
                    from as int,
                    before as int,
                ) == total,
                done ==> all@ == total,
            decreases before - from + (if done { 0int } else { 1int }),
        {
            let lot = expand_rule(
                self.rule.as_str(),
                start,
                zone.position(),
                from,
                before,
                EXPANSION_LIMIT,
            );
            let mut kept = Self::within(&lot, from, before);
            let ghost lot_kept = kept@;
            let ghost rest = instants_from(
                self.rule@,
                start as int,
                zone.index(),
                from as int,
                before as int,
            );
            let top = Self::largest(&kept, from);
            let full = kept.len() >= EXPANSION_LIMIT as usize;
            let ghost before_all = all@;
            all.append(&mut kept);
            if full {
                let next: i64 = if top >= before {
                    before + 1
                } else {
                    top + 1
                };
                proof {
                    let further = instants_from(
                        self.rule@,
                        start as int,
                        zone.index(),
                        next as int,
                        before as int,
                    );
                    assert(next == next_from(lot_kept, from as int, before as int));
                    assert(rest == lot_kept + further);
                    assert((before_all + lot_kept) + further =~= before_all + (lot_kept + further));
                }
                from = next;
            } else {
                proof {
                    assert(rest == lot_kept);
                }
                done = true;
            }
        }
        proof {
            if !done {
                assert(all@ + Seq::<i64>::empty() =~= all@);
            }
        }
        all
    }
}

/// The largest of `s`, or `floor` where none is larger.
pub open spec fn largest_of(s: Seq<i64>, floor: int) -> int
    decreases s.len(),
{
    if s.len() == 0 {
        floor
    } else {
        let m = largest_of(s.drop_last(), floor);
        if s.last() > m {
            s.last() as int
        } else {
            m
        }
    }
}

/// Where the lot after a full lot begins: behind the largest instant of the
/// full lot, and in any case further on and not beyond the end.
pub open spec fn next_from(lot: Seq<i64>, from: int, before: int) -> int {
    let top = largest_of(lot, from);
    if top >= before {
        before + 1
    } else if top >= from {
        top + 1
    } else {
        from + 1
    }
}

/// One lot of instants: what one call gives from `from` to `before`, as far
/// as it lies between the two.
pub open spec fn lot_of(text: Seq<char>, start: int, zone: int, from: int, before: int) -> Seq<
    i64,
> {
    rule_instants_of(text, start, zone, from, before, EXPANSION_LIMIT as int).filter(
        |t: i64| from <= t <= before,
    )
}

/// All instants from `from` to `before`, lot after lot: a lot that is not
/// full is the last; a full lot is followed by the lots of the instants
/// after its largest.
pub open spec fn instants_from(text: Seq<char>, start: int, zone: int, from: int, before: int)
    -> Seq<i64>
    decreases before - from + 1,
{
    if from > before {
        Seq::empty()
    } else {
        let lot = lot_of(text, start, zone, from, before);
        if lot.len() < EXPANSION_LIMIT {
            lot
        } else {
            lot + instants_from(text, start, zone, next_from(lot, from, before), before)
        }
    }
}

/// Every instant that a rule gives between two bounds lies between them.
pub proof fn lemma_instants_within(text: Seq<char>, start: int, zone: int, from: int, before: int)
    ensures
        forall|i: int|
            0 <= i < instants_from(text, start, zone, from, before).len() ==> from
                <= #[trigger] instants_from(text, start, zone, from, before)[i] <= before,
    decreases before - from + 1,
{
    if from <= before {
        let lot = lot_of(text, start, zone, from, before);
        let keep = |t: i64| from <= t <= before;
        let raw = rule_instants_of(text, start, zone, from, before, EXPANSION_LIMIT as int);
        assert forall|i: int| 0 <= i < lot.len() implies from <= #[trigger] lot[i] <= before by {
            raw.lemma_filter_pred(keep, i);
        }
        if lot.len() >= EXPANSION_LIMIT {
            let next = next_from(lot, from, before);
            lemma_instants_within(text, start, zone, next, before);
            let further = instants_from(text, start, zone, next, before);
            let whole = instants_from(text, start, zone, from, before);
            assert(whole == lot + further);
            assert forall|i: int| 0 <= i < whole.len() implies from <= #[trigger] whole[i]
                <= before by {
                if i >= lot.len() {
                    assert(whole[i] == further[i - lot.len()]);
                }
            }
        }
    }
}

} // verus!
