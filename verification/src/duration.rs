//! The duration grammar of event records.
//!
//! A duration is written `[sign] "P" ( weeks | date-time )`, where `weeks`
//! is a number followed by `W`, and `date-time` is any of a number with `Y`,
//! a number with `M` and a number with `D`, in this order, optionally
//! followed by `T` and any of a number with `H`, with `M` and with `S`. At
//! least one number must be there. A year counts as 360 days and a month as
//! 30 days.

use crate::error::{Error, ErrorKind};
use crate::property::Property;
use vstd::prelude::*;
use vstd::string::StringSliceAdditionalSpecFns;

verus! {

/// The bytes of the letters and signs of the grammar.
pub const SIGN_PLUS: u8 = 43;

pub const SIGN_MINUS: u8 = 45;

pub const DIGIT_ZERO: u8 = 48;

pub const DIGIT_NINE: u8 = 57;

pub const UNIT_DAY: u8 = 68;

pub const UNIT_HOUR: u8 = 72;

pub const UNIT_MONTH_OR_MINUTE: u8 = 77;

pub const MARK_PERIOD: u8 = 80;

pub const UNIT_SECOND: u8 = 83;

pub const MARK_TIME: u8 = 84;

pub const UNIT_WEEK: u8 = 87;

pub const UNIT_YEAR: u8 = 89;

pub const MINUTE: i64 = 60;

pub const HOUR: i64 = 3_600;

pub const DAY: i64 = 86_400;

pub const WEEK: i64 = 604_800;

/// Thirty days.
pub const MONTH: i64 = 2_592_000;

/// Twelve months of thirty days.
pub const YEAR: i64 = 31_104_000;

/// A duration as it is written: a sign and one count for each unit.
#[derive(Clone, Copy, Debug, PartialEq, Eq, Structural)]
pub struct IcalDuration {
    pub sign: i8,
    pub years: i64,
    pub months: i64,
    pub weeks: i64,
    pub days: i64,
    pub hours: i64,
    pub minutes: i64,
    pub seconds: i64,
}

pub open spec fn is_digit(b: u8) -> bool {
    48 <= b <= 57
}

/// The position after the digits that start at `from`.
pub open spec fn digits_end(s: Seq<u8>, from: int) -> int
    decreases s.len() - from,
{
    if 0 <= from < s.len() && is_digit(s[from]) {
        digits_end(s, from + 1)
    } else {
        from
    }
}

/// The decimal value of the digits from `from` up to `to`.
pub open spec fn digits_value(s: Seq<u8>, from: int, to: int) -> int
    decreases to - from,
{
    if to <= from {
        0
    } else {
        digits_value(s, from, to - 1) * 10 + (s[to - 1] - 48)
    }
}

/// A number that fits in 64 bits followed by `designator`, at `from`: its
/// value and the position after the designator.
pub open spec fn component(s: Seq<u8>, from: int, designator: u8) -> Option<(i64, int)> {
    let end = digits_end(s, from);
    if from < end < s.len() && s[end] == designator && digits_value(s, from, end) <= i64::MAX {
        Some((digits_value(s, from, end) as i64, end + 1))
    } else {
        None
    }
}

/// The position after an optional component.
pub open spec fn after(s: Seq<u8>, from: int, designator: u8) -> int {
    match component(s, from, designator) {
        Some((_, next)) => next,
        None => from,
    }
}

/// The value of an optional component.
pub open spec fn value(s: Seq<u8>, from: int, designator: u8) -> Option<i64> {
    match component(s, from, designator) {
        Some((v, _)) => Some(v),
        None => None,
    }
}

pub open spec fn or_zero(v: Option<i64>) -> i64 {
    match v {
        Some(n) => n,
        None => 0,
    }
}

/// The weeks form at `from`: the duration and the position after it.
pub open spec fn week_form(s: Seq<u8>, from: int) -> Option<(IcalDuration, int)> {
    match component(s, from, 'W' as u8) {
        Some((weeks, next)) => Some(
            (
                IcalDuration {
                    sign: 1,
                    years: 0,
                    months: 0,
                    weeks,
                    days: 0,
                    hours: 0,
                    minutes: 0,
                    seconds: 0,
                },
                next,
            ),
        ),
        None => None,
    }
}

/// The date-time form at `from`: the duration and the position after it.
pub open spec fn datetime_form(s: Seq<u8>, from: int) -> Option<(IcalDuration, int)> {
    let years = value(s, from, 'Y' as u8);
    let p1 = after(s, from, 'Y' as u8);
    let months = value(s, p1, 'M' as u8);
    let p2 = after(s, p1, 'M' as u8);
    let days = value(s, p2, 'D' as u8);
    let p3 = after(s, p2, 'D' as u8);
    let timed = 0 <= p3 < s.len() && s[p3] == 'T' as u8;
    let hours = if timed {
        value(s, p3 + 1, 'H' as u8)
    } else {
        None
    };
    let p4 = if timed {
        after(s, p3 + 1, 'H' as u8)
    } else {
        p3
    };
    let minutes = if timed {
        value(s, p4, 'M' as u8)
    } else {
        None
    };
    let p5 = if timed {
        after(s, p4, 'M' as u8)
    } else {
        p3
    };
    let seconds = if timed {
        value(s, p5, 'S' as u8)
    } else {
        None
    };
    let p6 = if timed {
        after(s, p5, 'S' as u8)
    } else {
        p3
    };
    if years.is_none() && months.is_none() && days.is_none() && hours.is_none()
        && minutes.is_none() && seconds.is_none() {
        None
    } else {
        Some(
            (
                IcalDuration {
                    sign: 1,
                    years: or_zero(years),
                    months: or_zero(months),
                    weeks: 0,
                    days: or_zero(days),
                    hours: or_zero(hours),
                    minutes: or_zero(minutes),
                    seconds: or_zero(seconds),
                },
                p6,
            ),
        )
    }
}

/// The length of the optional sign at the start.
pub open spec fn sign_len(s: Seq<u8>) -> int {
    if s.len() > 0 && (s[0] == '+' as u8 || s[0] == '-' as u8) {
        1
    } else {
        0
    }
}

/// The sign that the start of the text gives.
pub open spec fn sign_of(s: Seq<u8>) -> i8 {
    if s.len() > 0 && s[0] == '-' as u8 {
        -1i8
    } else {
        1i8
    }
}

/// The duration that a text denotes: none where the text does not follow the
/// grammar to its end, or where the total does not fit in 64 bits.
pub open spec fn parse_duration(s: Seq<u8>) -> Option<IcalDuration> {
    let p = sign_len(s);
    if p < s.len() && s[p] == 'P' as u8 {
        let body = match week_form(s, p + 1) {
            Some(w) => Some(w),
            None => datetime_form(s, p + 1),
        };
        match body {
            Some((d, end)) => {
                let signed = d.with_sign(sign_of(s));
                if end == s.len() && signed.fits() {
                    Some(signed)
                } else {
                    None
                }
            },
            None => None,
        }
    } else {
        None
    }
}

/// The duration that a duration property denotes.
pub open spec fn duration_of(p: Property) -> Result<IcalDuration, ErrorKind> {
    match p.value {
        None => Err(ErrorKind::EventParse),
        Some(v) => match parse_duration(vstd::utf8::encode_utf8(v@)) {
            Some(d) => Ok(d),
            None => Err(ErrorKind::DurationParse),
        },
    }
}

impl IcalDuration {
    pub open spec fn with_sign(self, sign: i8) -> IcalDuration {
        IcalDuration {
            sign,
            years: self.years,
            months: self.months,
            weeks: self.weeks,
            days: self.days,
            hours: self.hours,
            minutes: self.minutes,
            seconds: self.seconds,
        }
    }

    /// The seconds that the counts add up to, with a year of 360 days and a
    /// month of 30 days, before the sign.
    pub open spec fn magnitude(self) -> int {
        self.years * YEAR + self.months * MONTH + self.weeks * WEEK + self.days * DAY + self.hours
            * HOUR + self.minutes * MINUTE + self.seconds
    }

    /// The length in seconds: the magnitude, taken negative where the sign
    /// is a minus.
    pub open spec fn total_seconds(self) -> int {
        if self.sign == -1 {
            -self.magnitude()
        } else {
            self.magnitude()
        }
    }

    /// The counts are not negative and the total fits in 64 bits.
    pub open spec fn fits(self) -> bool {
        &&& self.sign == 1 || self.sign == -1
        &&& self.years >= 0 && self.months >= 0 && self.weeks >= 0 && self.days >= 0
        &&& self.hours >= 0 && self.minutes >= 0 && self.seconds >= 0
        &&& self.magnitude() <= i64::MAX
    }

    /// The optional sign at the start of the text, and its length.
    fn parse_sign(input: &[u8]) -> (r: (i8, usize))
        ensures
            r.0 == sign_of(input@),
            r.1 == sign_len(input@),
    {
        if input.len() > 0 && input[0] == SIGN_MINUS {
            (-1, 1)
        } else if input.len() > 0 && input[0] == SIGN_PLUS {
            (1, 1)
        } else {
            (1, 0)
        }
    }

    /// The decimal value of the digits from `from` up to `to`: none where it
    /// does not fit in 64 bits.
    fn parse_integer_value(input: &[u8], from: usize, to: usize) -> (r: Option<i64>)
        requires
            from <= to <= input.len(),
            forall|k: int| from <= k < to ==> is_digit(#[trigger] input@[k]),
        ensures
            r == if digits_value(input@, from as int, to as int) <= i64::MAX {
                Some(digits_value(input@, from as int, to as int) as i64)
            } else {
                None
            },
    {
        let mut acc: i64 = 0;
        let mut k: usize = from;
        while k < to
            invariant
                from <= k <= to <= input.len(),
                forall|j: int| from <= j < to ==> is_digit(#[trigger] input@[j]),
                acc == digits_value(input@, from as int, k as int),
                acc >= 0,
            decreases to - k,
        {
            let digit: i64 = (input[k] - DIGIT_ZERO) as i64;
            assert(digits_value(input@, from as int, k + 1) == acc * 10 + digit);
            if acc > (i64::MAX - digit) / 10 {
                proof {
                    lemma_digits_value_grows(input@, from as int, k + 1, to as int);
                }
                return None;
            }
            acc = acc * 10 + digit;
            k = k + 1;
        }
        Some(acc)
    }

    /// A number followed by `designator`, at `from`.
    fn value_with_designator(input: &[u8], from: usize, designator: u8) -> (r: Option<
        (i64, usize),
    >)
        requires
            from <= input.len(),
        ensures
            match r {
                Some((v, next)) => component(input@, from as int, designator) == Some(
                    (v, next as int),
                ) && from < next <= input.len() && v >= 0,
                None => component(input@, from as int, designator).is_none(),
            },
    {
        let mut end: usize = from;
        while end < input.len() && input[end] >= DIGIT_ZERO && input[end] <= DIGIT_NINE
            invariant
                from <= end <= input.len(),
                forall|j: int| from <= j < end ==> is_digit(#[trigger] input@[j]),
                digits_end(input@, from as int) == digits_end(input@, end as int),
            decreases input.len() - end,
        {
            end = end + 1;
        }
        if end == from || end >= input.len() || input[end] != designator {
            return None;
        }
        match Self::parse_integer_value(input, from, end) {
            Some(v) => {
                proof {
                    lemma_digits_value_grows(input@, from as int, from as int, end as int);
                }
                Some((v, end + 1))
            },
            None => None,
        }
    }

    /// An optional number followed by `designator`, at `from`: its value, if
    /// it is there, and the position after it.
    fn optional_value(input: &[u8], from: usize, designator: u8) -> (r: (Option<i64>, usize))
        requires
            from <= input.len(),
        ensures
            r.0 == value(input@, from as int, designator),
            r.1 == after(input@, from as int, designator),
            from <= r.1 <= input.len(),
            r.0 matches Some(v) ==> v >= 0,
    {
        match Self::value_with_designator(input, from, designator) {
            Some((v, next)) => (Some(v), next),
            None => (None, from),
        }
    }

    /// The weeks form at `from`.
    fn parse_week_format(input: &[u8], from: usize) -> (r: Option<(IcalDuration, usize)>)
        requires
            from <= input.len(),
        ensures
            match r {
                Some((d, next)) => week_form(input@, from as int) == Some((d, next as int))
                    && next <= input.len() && d.counts_not_negative(),
                None => week_form(input@, from as int).is_none(),
            },
    {
        match Self::value_with_designator(input, from, UNIT_WEEK) {
            Some((weeks, next)) => Some(
                (
                    IcalDuration {
                        sign: 1,
                        years: 0,
                        months: 0,
                        weeks,
                        days: 0,
                        hours: 0,
                        minutes: 0,
                        seconds: 0,
                    },
                    next,
                ),
            ),
            None => None,
        }
    }

    pub open spec fn counts_not_negative(self) -> bool {
        &&& self.years >= 0 && self.months >= 0 && self.weeks >= 0 && self.days >= 0
        &&& self.hours >= 0 && self.minutes >= 0 && self.seconds >= 0
    }

    /// The date-time form at `from`.
    fn parse_datetime_format(input: &[u8], from: usize) -> (r: Option<(IcalDuration, usize)>)
        requires
            from <= input.len(),
        ensures
            match r {
                Some((d, next)) => datetime_form(input@, from as int) == Some((d, next as int))
                    && next <= input.len() && d.counts_not_negative(),
                None => datetime_form(input@, from as int).is_none(),
            },
    {
        let (years, p1) = Self::optional_value(input, from, UNIT_YEAR);
        let (months, p2) = Self::optional_value(input, p1, UNIT_MONTH_OR_MINUTE);
        let (days, p3) = Self::optional_value(input, p2, UNIT_DAY);
        let mut hours: Option<i64> = None;
        let mut minutes: Option<i64> = None;
        let mut seconds: Option<i64> = None;
        let mut end: usize = p3;
        if p3 < input.len() && input[p3] == MARK_TIME {
            let (h, p4) = Self::optional_value(input, p3 + 1, UNIT_HOUR);
            let (m, p5) = Self::optional_value(input, p4, UNIT_MONTH_OR_MINUTE);
            let (s, p6) = Self::optional_value(input, p5, UNIT_SECOND);
            hours = h;
            minutes = m;
            seconds = s;
            end = p6;
        }
        if years.is_none() && months.is_none() && days.is_none() && hours.is_none()
            && minutes.is_none() && seconds.is_none() {
            None
        } else {
            Some(
                (
                    IcalDuration {
                        sign: 1,
                        years: unwrap_or_zero(years),
                        months: unwrap_or_zero(months),
                        weeks: 0,
                        days: unwrap_or_zero(days),
                        hours: unwrap_or_zero(hours),
                        minutes: unwrap_or_zero(minutes),
                        seconds: unwrap_or_zero(seconds),
                    },
                    end,
                ),
            )
        }
    }

    /// Whether the total fits in 64 bits.
    fn check_fits(&self) -> (r: bool)
        requires
            self.counts_not_negative(),
            self.sign == 1 || self.sign == -1,
        ensures
            r == self.fits(),
    {
        let years: i128 = self.years as i128 * 31_104_000;
        let months: i128 = self.months as i128 * 2_592_000;
        let weeks: i128 = self.weeks as i128 * 604_800;
        let days: i128 = self.days as i128 * 86_400;
        let hours: i128 = self.hours as i128 * 3_600;
        let minutes: i128 = self.minutes as i128 * 60;
        let total: i128 = years + months + weeks + days + hours + minutes + self.seconds as i128;
        total <= i64::MAX as i128
    }

    /// Reads a duration from the bytes of its text.
    pub fn parse(input: &[u8]) -> (r: Result<IcalDuration, Error>)
        ensures
            match r {
                Ok(d) => parse_duration(input@) == Some(d) && d.fits(),
                Err(e) => parse_duration(input@).is_none() && e.kind == ErrorKind::DurationParse,
            },
    {
        let (sign, start) = Self::parse_sign(input);
        if start >= input.len() || input[start] != MARK_PERIOD {
            return Err(Error::new(ErrorKind::DurationParse, "a duration starts with 'P'"));
        }
        let body = match Self::parse_week_format(input, start + 1) {
            Some(w) => Some(w),
            None => Self::parse_datetime_format(input, start + 1),
        };
        match body {
            Some((d, end)) => {
                let signed = IcalDuration {
                    sign,
                    years: d.years,
                    months: d.months,
                    weeks: d.weeks,
                    days: d.days,
                    hours: d.hours,
                    minutes: d.minutes,
                    seconds: d.seconds,
                };
                if end != input.len() {
                    Err(Error::new(ErrorKind::DurationParse, "text after the duration"))
                } else if !signed.check_fits() {
                    Err(Error::new(ErrorKind::DurationParse, "the duration is too long"))
                } else {
                    Ok(signed)
                }
            },
            None => Err(Error::new(ErrorKind::DurationParse, "a duration needs a number")),
        }
    }

    /// Reads a duration from its text.
    pub fn from_str(s: &str) -> (r: Result<IcalDuration, Error>)
        ensures
            match r {
                Ok(d) => parse_duration(s.spec_bytes()) == Some(d) && d.fits(),
                Err(e) => parse_duration(s.spec_bytes()).is_none() && e.kind
                    == ErrorKind::DurationParse,
            },
    {
        Self::parse(s.as_bytes())
    }

    /// The duration that a duration property denotes.
    pub fn try_from(value: &Property) -> (r: Result<IcalDuration, Error>)
        ensures
            match r {
                Ok(d) => duration_of(*value) == Ok::<IcalDuration, ErrorKind>(d) && d.fits(),
                Err(e) => duration_of(*value) == Err::<IcalDuration, ErrorKind>(e.kind),
            },
    {
        match &value.value {
            Some(v) => Self::from_str(v.as_str()),
            None => Err(Error::new(ErrorKind::EventParse, "Empty duration property")),
        }
    }

    /// The length in seconds.
    pub fn as_seconds(&self) -> (r: i64)
        requires
            self.fits(),
        ensures
            r == self.total_seconds(),
    {
        let magnitude: i64 = self.years * YEAR + self.months * MONTH + self.weeks * WEEK
            + self.days * DAY + self.hours * HOUR + self.minutes * MINUTE + self.seconds;
        if self.sign == 1 {
            magnitude
        } else {
            -magnitude
        }
    }
}

impl Default for IcalDuration {
    fn default() -> (d: IcalDuration)
        ensures
            d.total_seconds() == 0,
            d.fits(),
    {
        IcalDuration {
            sign: 1,
            years: 0,
            months: 0,
            weeks: 0,
            days: 0,
            hours: 0,
            minutes: 0,
            seconds: 0,
        }
    }
}

fn unwrap_or_zero(v: Option<i64>) -> (r: i64)
    ensures
        r == or_zero(v),
{
    match v {
        Some(n) => n,
        None => 0,
    }
}

/// More digits do not make a smaller number.
proof fn lemma_digits_value_grows(s: Seq<u8>, from: int, mid: int, to: int)
    requires
        0 <= from <= mid <= to <= s.len(),
        forall|k: int| from <= k < to ==> is_digit(#[trigger] s[k]),
    ensures
        0 <= digits_value(s, from, mid) <= digits_value(s, from, to),
    decreases to - from,
{
    if mid < to {
        lemma_digits_value_grows(s, from, mid, to - 1);
    } else if from < mid {
        lemma_digits_value_grows(s, from, mid - 1, mid - 1);
        lemma_digits_value_grows(s, from, mid - 1, to - 1);
    }
}

/// The total of an accepted duration is the documented sum: 360 days to the
/// year, 30 days to the month, 7 days to the week, with the sign applied to
/// the whole.
pub proof fn lemma_total_seconds(s: Seq<u8>)
    requires
        parse_duration(s).is_some(),
    ensures
        ({
            let d = parse_duration(s).unwrap();
            &&& d.sign == (if s[0] == '-' as u8 {
                -1i8
            } else {
                1i8
            })
            &&& d.total_seconds() == d.sign * (d.years * 360 * 86_400 + d.months * 30 * 86_400
                + d.weeks * 7 * 86_400 + d.days * 86_400 + d.hours * 3_600 + d.minutes * 60
                + d.seconds)
            &&& i64::MIN < d.total_seconds() <= i64::MAX
        }),
{
    let d = parse_duration(s).unwrap();
    let sum = d.years * 360 * 86_400 + d.months * 30 * 86_400 + d.weeks * 7 * 86_400 + d.days
        * 86_400 + d.hours * 3_600 + d.minutes * 60 + d.seconds;
    assert(sum == d.magnitude());
    assert(d.sign == 1 || d.sign == -1);
    assert(d.sign * sum == if d.sign == -1 {
        -sum
    } else {
        sum
    }) by (nonlinear_arith)
        requires
            d.sign == 1 || d.sign == -1,
    ;
}

/// A text without the letter `P` after its optional sign is no duration.
pub proof fn lemma_duration_needs_marker(s: Seq<u8>)
    requires
        !(sign_len(s) < s.len() && s[sign_len(s)] == 'P' as u8),
    ensures
        parse_duration(s).is_none(),
{
}

/// A duration without any number is rejected: after the marker at least one
/// digit must follow, or a `T` and then a digit.
pub proof fn lemma_duration_needs_number(s: Seq<u8>)
    requires
        parse_duration(s).is_some(),
    ensures
        ({
            let p = sign_len(s) + 1;
            p < s.len() && (is_digit(s[p]) || (s[p] == 'T' as u8 && p + 1 < s.len() && is_digit(
                s[p + 1],
            )))
        }),
{
    let p = sign_len(s) + 1;
    reveal_with_fuel(digits_end, 2);
    if p < s.len() && !is_digit(s[p]) {
        assert(digits_end(s, p) == p);
        assert(s[p] == 'T' as u8);
        if !(p + 1 < s.len() && is_digit(s[p + 1])) {
            assert(digits_end(s, p + 1) == p + 1);
        }
    }
}

} // verus!
