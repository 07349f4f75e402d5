//! Time intervals of the maintenance schedule, written `HH:MM-HH:MM`.
use crate::address::ParseError;
use crate::addresses::{digits_exec, digits_value, run_end, run_end_bounds, skip_class, CharClass};
use crate::text::chars_of;
use vstd::prelude::*;

verus! {

/// A time of day, to the minute.
#[derive(Debug, Clone, Copy, PartialEq, Eq, Structural)]
pub struct TimeOfDay {
    pub hour: u32,
    pub minute: u32,
}

#[derive(Debug, Clone, Copy, PartialEq, Eq, Structural)]
pub struct TimeInterval {
    pub from: TimeOfDay,
    pub to: TimeOfDay,
}

/// Relies on chrono's `NaiveTime::from_hms_opt`, which refuses an hour
/// from 24 on or a minute from 60 on, and on `Timelike`'s `hour` and
/// `minute`, which give them back.
#[verifier::external_body]
fn time_of_day(hour: u32, minute: u32) -> (r: Option<TimeOfDay>)
    ensures
        r == (if hour < 24 && minute < 60 {
            Some(TimeOfDay { hour, minute })
        } else {
            None
        }),
{
    let t = chrono::NaiveTime::from_hms_opt(hour, minute, 0)?;
    Some(TimeOfDay { hour: chrono::Timelike::hour(&t), minute: chrono::Timelike::minute(&t) })
}

/// Decimal digits at `p` whose value fits a `u32`.
pub open spec fn u32_at(s: Seq<char>, p: int) -> Option<(u32, int)> {
    let d = run_end(s, p, CharClass::Digit);
    let v = digits_value(s.subrange(p, d));
    if d == p || v > u32::MAX {
        None
    } else {
        Some((v as u32, d))
    }
}

/// A time at `p`: hours, `:`, minutes, with an hour below 24 and a minute
/// below 60.
pub open spec fn time_at(s: Seq<char>, p: int) -> Option<(TimeOfDay, int)> {
    match u32_at(s, p) {
        Some((h, q)) => if 0 <= q < s.len() && s[q] == ':' {
            match u32_at(s, q + 1) {
                Some((m, r)) => if h < 24 && m < 60 {
                    Some((TimeOfDay { hour: h, minute: m }, r))
                } else {
                    None
                },
                None => None,
            }
        } else {
            None
        },
        None => None,
    }
}

/// An interval at `p`: two times with `-` between them.
pub open spec fn interval_at(s: Seq<char>, p: int) -> Option<(TimeInterval, int)> {
    match time_at(s, p) {
        Some((from, q)) => if 0 <= q < s.len() && s[q] == '-' {
            match time_at(s, q + 1) {
                Some((to, r)) => Some((TimeInterval { from, to }, r)),
                None => None,
            }
        } else {
            None
        },
        None => None,
    }
}

fn u32_from(s: &Vec<char>, p: usize) -> (r: Option<(u32, usize)>)
    requires
        p <= s@.len(),
    ensures
        match r {
            Some((v, q)) => u32_at(s@, p as int) == Some((v, q as int)) && p < q <= s@.len(),
            None => u32_at(s@, p as int) is None,
        },
{
    let d = skip_class(s, p, CharClass::Digit);
    if d == p {
        return None;
    }
    proof {
        run_end_bounds(s@, p as int, CharClass::Digit);
        assert forall|i: int| p <= i < d implies #[trigger] crate::addresses::is_digit(s@[i]) by {
            assert(crate::addresses::in_class(CharClass::Digit, s@[i]));
        }
    }
    match digits_exec(s, p, d) {
        Some(v) => if v <= 0xffff_ffff {
            Some((v as u32, d))
        } else {
            None
        },
        None => None,
    }
}

fn time_from(s: &Vec<char>, p: usize) -> (r: Option<(TimeOfDay, usize)>)
    requires
        p <= s@.len(),
    ensures
        match r {
            Some((t, q)) => time_at(s@, p as int) == Some((t, q as int)) && p < q <= s@.len(),
            None => time_at(s@, p as int) is None,
        },
{
    let (h, q) = match u32_from(s, p) {
        Some(x) => x,
        None => {
            return None;
        },
    };
    if q >= s.len() || s[q] != ':' {
        return None;
    }
    let (m, e) = match u32_from(s, q + 1) {
        Some(x) => x,
        None => {
            return None;
        },
    };
    match time_of_day(h, m) {
        Some(t) => Some((t, e)),
        None => None,
    }
}

impl TimeInterval {
    pub fn new(from: TimeOfDay, to: TimeOfDay) -> (r: TimeInterval)
        ensures
            r == (TimeInterval { from, to }),
    {
        TimeInterval { from, to }
    }

    /// Reads an interval `HH:MM-HH:MM` at the start of `input`; what follows
    /// it is not read.
    pub fn parse(input: &str) -> (r: Result<TimeInterval, ParseError>)
        ensures
            match r {
                Ok(t) => interval_at(input@, 0) matches Some((v, _)) && v == t,
                Err(e) => interval_at(input@, 0) is None && e.position == 0,
            },
    {
        let s = chars_of(input);
        let parsed = match time_from(&s, 0) {
            Some((from, q)) => if q < s.len() && s[q] == '-' {
                match time_from(&s, q + 1) {
                    Some((to, _)) => Some(TimeInterval { from, to }),
                    None => None,
                }
            } else {
                None
            },
            None => None,
        };
        match parsed {
            Some(t) => Ok(t),
            None => Err(ParseError { position: 0, message: "expected a time interval HH:MM-HH:MM".to_owned() }),
        }
    }
}

} // verus!
