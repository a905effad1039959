//! The decisions of a program that announces events: what to announce at a
//! given moment, how long to wait, and what to do on an answer.

use vstd::prelude::*;

verus! {

/// What there is to announce about one event at a given moment.
#[derive(Clone, Copy, Debug, PartialEq, Eq, Structural)]
pub enum Phase {
    /// The event has not begun: it begins in so many seconds.
    Upcoming(u64),
    /// The event goes on: it ends in so many seconds.
    Current(u64),
    /// The event is over.
    Over,
}

/// What the user answered to an announcement.
#[derive(Clone, Copy, Debug, PartialEq, Eq, Structural)]
pub enum Answer {
    /// Do not announce the event again.
    Dismiss,
    /// Announce the event again when it begins.
    Snooze,
    /// Open the link of the event.
    OpenUrl,
    /// Anything else: announce again.
    Ignore,
}

/// What a waiting program does next.
#[derive(Clone, Copy, Debug, PartialEq, Eq, Structural)]
pub enum ControlFlow {
    /// Go on with the next event.
    Continue,
    /// The calendars changed: begin anew.
    Restart,
}

pub open spec fn phase_spec(now: i64, begin: i64, end: i64) -> Phase {
    if now < begin {
        Phase::Upcoming((begin - now) as u64)
    } else if now < end {
        Phase::Current((end - now) as u64)
    } else {
        Phase::Over
    }
}

/// The seconds from `now` until `until`, none where that moment has passed.
pub open spec fn wait_spec(now: i64, until: i64) -> int {
    if until > now {
        until - now
    } else {
        0
    }
}

/// What there is to announce about an event from `begin` to `end` at the
/// moment `now`.
pub fn phase_at(now: i64, begin: i64, end: i64) -> (r: Phase)
    ensures
        r == phase_spec(now, begin, end),
{
    if now < begin {
        Phase::Upcoming(time_until(now, begin))
    } else if now < end {
        Phase::Current(time_until(now, end))
    } else {
        Phase::Over
    }
}

/// The time of an announcement in milliseconds, as far as 32 bits hold it.
pub fn timeout_millis(seconds: u64) -> (r: u32)
    ensures
        r == (seconds * 1000) % 0x1_0000_0000,
{
    let millis: u128 = seconds as u128 * 1000;
    (millis % 0x1_0000_0000) as u32
}

/// The seconds to wait from `now` until `until`.
pub fn time_until(now: i64, until: i64) -> (r: u64)
    ensures
        r == wait_spec(now, until),
{
    if until > now {
        if now >= 0 || until < 0 {
            (until - now) as u64
        } else {
            until as u64 + (-(now + 1)) as u64 + 1
        }
    } else {
        0
    }
}

/// Whether an event ends on another day than it begins: its announcement
/// then names the dates too.
pub fn with_dates(begin_day: i64, end_day: i64) -> (r: bool)
    ensures
        r == (begin_day != end_day),
{
    begin_day != end_day
}

/// What an answer of the user means: the names are those of the actions of
/// an announcement.
pub fn answer_of(action: &str) -> (r: Answer)
    ensures
        r == if action@ == "dismiss"@ || action@ == "__closed"@ {
            Answer::Dismiss
        } else if action@ == "snooze"@ {
            Answer::Snooze
        } else if action@ == "open_url"@ {
            Answer::OpenUrl
        } else {
            Answer::Ignore
        },
{
    let given = action.to_owned();
    if given == "dismiss".to_owned() || given == "__closed".to_owned() {
        Answer::Dismiss
    } else if given == "snooze".to_owned() {
        Answer::Snooze
    } else if given == "open_url".to_owned() {
        Answer::OpenUrl
    } else {
        Answer::Ignore
    }
}

/// What a waiting program does when its wait ends: it begins anew where the
/// calendars changed meanwhile, and goes on where the time is up.
pub fn after_wait(changed: bool) -> (r: ControlFlow)
    ensures
        r == if changed {
            ControlFlow::Restart
        } else {
            ControlFlow::Continue
        },
{
    if changed {
        ControlFlow::Restart
    } else {
        ControlFlow::Continue
    }
}

/// Moves the mark in a list of events one up: none at the top.
pub fn scroll_backwards(index: usize) -> (r: Option<usize>)
    ensures
        r == if index > 0 {
            Some((index - 1) as usize)
        } else {
            None
        },
{
    if index > 0 {
        Some(index - 1)
    } else {
        None
    }
}

/// Moves the mark in a list of `count` events one down: none at the bottom.
pub fn scroll_forwards(index: usize, count: usize) -> (r: Option<usize>)
    ensures
        r == if index + 1 < count {
            Some((index + 1) as usize)
        } else {
            None
        },
{
    if index < usize::MAX && index + 1 < count {
        Some(index + 1)
    } else {
        None
    }
}

} // verus!
