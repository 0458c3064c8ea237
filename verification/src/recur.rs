//! Recurrence periods of tasks and the time spans they stand for.

use vstd::prelude::*;
use crate::datetime::{span_ok, MAX_SPAN_SECS};
use crate::text::{i64_to_string, int_numeral};

verus! {

/// How often a task recurs: every `n` days, weeks, months or years.
#[derive(Debug, Clone, Copy, PartialEq, Eq, Structural, Hash)]
pub enum Recur {
    Day(i64),
    Week(i64),
    Month(i64),
    Year(i64),
}

/// The length in seconds of one recurrence period: a day is 86400 seconds, a
/// week 7 days, a month a twelfth of a 365-day year, a year 365 days.
pub open spec fn recur_secs(r: Recur) -> int {
    match r {
        Recur::Day(n) => n * 86400,
        Recur::Week(n) => n * 604800,
        Recur::Month(n) => n * 31536000 / 12,
        Recur::Year(n) => n * 365 * 86400,
    }
}

/// The period fits in a time span.
pub open spec fn recur_ok(r: Recur) -> bool {
    span_ok(recur_secs(r))
}

/// The text a recurrence displays as, such as `3 days`.
pub open spec fn recur_text(r: Recur) -> Seq<char> {
    match r {
        Recur::Day(n) => int_numeral(n as int) + " days"@,
        Recur::Week(n) => int_numeral(n as int) + " weeks"@,
        Recur::Month(n) => int_numeral(n as int) + " months"@,
        Recur::Year(n) => int_numeral(n as int) + " years"@,
    }
}

impl Recur {
    /// The length in seconds of one period.
    pub fn duration_secs(&self) -> (r: i64)
        requires
            recur_ok(*self),
        ensures
            r == recur_secs(*self),
    {
        match *self {
            Recur::Day(n) => n * 86400,
            Recur::Week(n) => n * 604800,
            Recur::Month(n) => {
                assert(n * 31536000 / 12 == n * 2628000) by (nonlinear_arith);
                n * 2628000
            },
            Recur::Year(n) => {
                assert(n * 365 * 86400 == n * 31536000) by (nonlinear_arith);
                n * 31536000
            },
        }
    }

    /// The text this recurrence displays as.
    pub fn to_display_string(&self) -> (r: String)
        ensures
            r@ == recur_text(*self),
    {
        let (n, unit) = match *self {
            Recur::Day(n) => (n, " days"),
            Recur::Week(n) => (n, " weeks"),
            Recur::Month(n) => (n, " months"),
            Recur::Year(n) => (n, " years"),
        };
        let mut s = i64_to_string(n);
        s.append(unit);
        s
    }
}

} // verus!
