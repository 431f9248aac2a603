//! Values drawn at random, for masking rules that replace a value by
//! another one of its kind.

use vstd::prelude::*;
use fake::faker::number::raw::NumberWithFormat;
use fake::locales::EN;
use fake::Fake;

verus! {

/// One end of a range.
#[derive(Debug, PartialEq, Eq)]
pub enum RangeBound<T> {
    Infinite,
    Inclusive(T),
    Exclusive(T),
}

/// A range of the database: empty, or from a lower to an upper bound.
#[derive(Debug, PartialEq, Eq)]
pub struct Range<T> {
    pub inner: Option<(RangeBound<T>, RangeBound<T>)>,
}

impl<T> RangeBound<T> {
    /// The value at this end, if the range has an end here.
    pub open spec fn value(self) -> Option<T> {
        match self {
            RangeBound::Infinite => None,
            RangeBound::Inclusive(v) => Some(v),
            RangeBound::Exclusive(v) => Some(v),
        }
    }

    /// Returns the value at this end, if the range has an end here.
    pub fn get(&self) -> (r: Option<&T>)
        ensures
            match r {
                Some(v) => self.value() == Some(*v),
                None => self.value() is None,
            },
    {
        match self {
            RangeBound::Infinite => None,
            RangeBound::Inclusive(v) => Some(v),
            RangeBound::Exclusive(v) => Some(v),
        }
    }
}

impl<T> Range<T> {
    /// The values at the two ends of a range that has both.
    pub open spec fn ends(self) -> Option<(T, T)> {
        match self.inner {
            Some((lower, upper)) => match (lower.value(), upper.value()) {
                (Some(l), Some(u)) => Some((l, u)),
                _ => None,
            },
            None => None,
        }
    }

    /// A range between two values.
    pub fn new(lower: T, upper: T) -> (r: Self)
        ensures
            r.ends() == Some((lower, upper)),
    {
        Range { inner: Some((RangeBound::Inclusive(lower), RangeBound::Exclusive(upper))) }
    }
}

/// Whether a character is an ASCII letter or digit.
pub open spec fn is_alphanumeric(c: char) -> bool {
    ('0' <= c && c <= '9') || ('a' <= c && c <= 'z') || ('A' <= c && c <= 'Z')
}

/// Whether `c` may stand where a format holds `f`: a digit but zero for `^`,
/// a digit for `#`, and `f` itself for anything else.
pub open spec fn fills(f: char, c: char) -> bool {
    if f == '^' {
        '1' <= c && c <= '9'
    } else if f == '#' {
        '0' <= c && c <= '9'
    } else {
        c == f
    }
}

/// `fake` of the fake crate on a range of `usize`: a number drawn from the
/// range, its start included and its end not. It panics on an empty range.
#[verifier::external_body]
fn random_in(start: usize, end: usize) -> (r: usize)
    requires
        start < end,
    ensures
        start <= r < end,
{
    (start..end).fake::<usize>()
}

/// `fake` of the fake crate on a range of `usize`, for a `String`: a length
/// is drawn from the range, then as many ASCII letters and digits. It panics
/// on an empty range.
#[verifier::external_body]
fn random_text(start: usize, end: usize) -> (r: String)
    requires
        start < end,
    ensures
        start <= r@.len() < end,
        forall|i: int| 0 <= i < r@.len() ==> is_alphanumeric(#[trigger] r@[i]),
{
    (start..end).fake::<String>()
}

/// `fake` of the fake crate on `NumberWithFormat`: the format with a digit
/// but zero in the place of every `^`, and a digit in the place of every `#`.
#[verifier::external_body]
fn random_digits(format: &str) -> (r: String)
    ensures
        r@.len() == format@.len(),
        forall|i: int| 0 <= i < r@.len() ==> fills(format@[i], #[trigger] r@[i]),
{
    NumberWithFormat(EN, format).fake()
}

/// Whether `n` lies in the range from `ends.0` to `ends.1`, the first
/// included and the second not.
pub open spec fn lies_in(n: int, ends: (int, int)) -> bool {
    ends.0 <= n < ends.1
}

/// The two ends of a range as integers.
pub open spec fn int_ends(r: Range<i32>) -> Option<(int, int)> {
    match r.ends() {
        Some((lower, upper)) => Some((lower as int, upper as int)),
        None => None,
    }
}

/// The two ends of a range as integers.
pub open spec fn bigint_ends(r: Range<i64>) -> Option<(int, int)> {
    match r.ends() {
        Some((lower, upper)) => Some((lower as int, upper as int)),
        None => None,
    }
}

/// Whether a number can be drawn from a range: the range has both ends, none
/// of them is negative, and the lower lies below the upper.
pub open spec fn can_draw_int(r: Range<i32>) -> bool {
    match r.ends() {
        Some((lower, upper)) => 0 <= lower < upper,
        None => true,
    }
}

/// Whether a number can be drawn from a range: the range has both ends, none
/// of them is negative, the lower lies below the upper, and the upper fits
/// the machine's word.
pub open spec fn can_draw_bigint(r: Range<i64>) -> bool {
    match r.ends() {
        Some((lower, upper)) => 0 <= lower < upper <= usize::MAX,
        None => true,
    }
}

/// Converts a range of the database into the two ends of a range of
/// `usize`. A range that lacks an end has none.
fn range_usize(r: &Range<i32>) -> (ends: Option<(usize, usize)>)
    requires
        can_draw_int(*r),
    ensures
        match ends {
            Some((start, end)) => r.ends() == Some((start as i32, end as i32)) && start < end
                <= i32::MAX,
            None => r.ends() is None,
        },
{
    match &r.inner {
        Some((lower, upper)) => match (lower.get(), upper.get()) {
            (Some(l), Some(u)) => Some((*l as usize, *u as usize)),
            _ => None,
        },
        None => None,
    }
}

/// Converts a range of the database into the two ends of a range of
/// `usize`. A range that lacks an end has none.
fn range_usize_from_i64(r: &Range<i64>) -> (ends: Option<(usize, usize)>)
    requires
        can_draw_bigint(*r),
    ensures
        match ends {
            Some((start, end)) => r.ends() == Some((start as i64, end as i64)) && start < end
                <= i64::MAX,
            None => r.ends() is None,
        },
{
    match &r.inner {
        Some((lower, upper)) => match (lower.get(), upper.get()) {
            (Some(l), Some(u)) => Some((*l as usize, *u as usize)),
            _ => None,
        },
        None => None,
    }
}

/// Draws a number from a range, its lower end included and its upper end
/// not. A range that lacks an end gives nothing.
pub fn bigint(r: &Range<i64>) -> (v: Option<i64>)
    requires
        can_draw_bigint(*r),
    ensures
        match v {
            Some(n) => bigint_ends(*r) is Some && lies_in(n as int, bigint_ends(*r)->0),
            None => bigint_ends(*r) is None,
        },
{
    match range_usize_from_i64(r) {
        Some((start, end)) => Some(random_in(start, end) as i64),
        None => None,
    }
}

/// Draws a number from a range, its lower end included and its upper end
/// not. A range that lacks an end gives nothing.
pub fn integer(r: &Range<i32>) -> (v: Option<i32>)
    requires
        can_draw_int(*r),
    ensures
        match v {
            Some(n) => int_ends(*r) is Some && lies_in(n as int, int_ends(*r)->0),
            None => int_ends(*r) is None,
        },
{
    match range_usize(r) {
        Some((start, end)) => Some(random_in(start, end) as i32),
        None => None,
    }
}

/// Fills a format with digits drawn at random: a digit but zero for every
/// `^`, a digit for every `#`. Any other character stays.
pub fn number_with_format(format: &str) -> (r: String)
    ensures
        r@.len() == format@.len(),
        forall|i: int| 0 <= i < r@.len() ==> fills(format@[i], #[trigger] r@[i]),
{
    random_digits(format)
}

/// Draws a text of ASCII letters and digits whose length lies in a range,
/// its lower end included and its upper end not. A range that lacks an end
/// gives nothing.
pub fn string(r: &Range<i32>) -> (v: Option<String>)
    requires
        can_draw_int(*r),
    ensures
        match v {
            Some(text) => {
                &&& int_ends(*r) is Some
                &&& lies_in(text@.len() as int, int_ends(*r)->0)
                &&& forall|i: int| 0 <= i < text@.len() ==> is_alphanumeric(#[trigger] text@[i])
            },
            None => int_ends(*r) is None,
        },
{
    match range_usize(r) {
        Some((start, end)) => Some(random_text(start, end)),
        None => None,
    }
}

} // verus!
