use crate::error::Error;
use crate::grammar::{bound_text, chars_of, check_order, parse_range, parse_spec, range_text};
use crate::laws::{lemma_open_end_text_is_rejected, lemma_text_round_trip};
use crate::numeral::push_numeral;
use vstd::prelude::*;
use vstd::slice::slice_subrange;
use vstd::string::*;

verus! {

/// Tells whether [`NagiosRange::check`] raises an alert for values inside or
/// outside of the range.
#[derive(Debug, PartialEq, Eq, Clone, Copy, Structural)]
pub enum CheckType {
    Inside,
    Outside,
}

/// One end of a range: a number, or open.
///
/// An open start point is negative infinity, an open end point positive
/// infinity; which of the two is meant follows from the side it stands on.
#[derive(Debug, PartialEq, Eq, Clone, Copy, Structural)]
pub enum Bound {
    Finite(i64),
    Unbounded,
}

/// The start point does not lie above the end point. An open bound lies on
/// the right side of everything.
pub open spec fn ordered(start: Bound, end: Bound) -> bool {
    match (start, end) {
        (Bound::Finite(a), Bound::Finite(b)) => a <= b,
        _ => true,
    }
}

/// A range as a mathematical value: the interval from `start` to `end`, both
/// included, and the side of it on which an alert is raised.
pub struct RangeView {
    pub check_type: CheckType,
    pub start: Bound,
    pub end: Bound,
}

impl RangeView {
    /// The interval is not turned over: `start <= end` where both are finite.
    pub open spec fn well_formed(self) -> bool {
        ordered(self.start, self.end)
    }

    /// `x` lies in the interval, whatever the check type.
    pub open spec fn contains(self, x: int) -> bool {
        &&& (self.start matches Bound::Finite(a) ==> a <= x)
        &&& (self.end matches Bound::Finite(b) ==> x <= b)
    }

    /// An alert is raised for `x`: `x` lies on the side of the interval that
    /// the check type names.
    pub open spec fn alerts(self, x: int) -> bool {
        match self.check_type {
            CheckType::Inside => self.contains(x),
            CheckType::Outside => !self.contains(x),
        }
    }
}

/// A Nagios range: the inclusive interval `start..=end` together with the
/// side of it on which an alert is raised.
///
/// A range is built by [`NagiosRange::from`] or [`NagiosRange::new`] and
/// never changes afterwards. Its start point never lies above its end point.
#[derive(Debug, PartialEq, Eq, Clone, Copy, Structural)]
pub struct NagiosRange {
    check_type: CheckType,
    start: Bound,
    end: Bound,
}

impl View for NagiosRange {
    type V = RangeView;

    closed spec fn view(&self) -> RangeView {
        RangeView { check_type: self.check_type, start: self.start, end: self.end }
    }
}

impl NagiosRange {
    #[verifier::type_invariant]
    spec fn in_order(self) -> bool {
        ordered(self.start, self.end)
    }

    /// Builds the range that `input` writes.
    ///
    /// Fails with [`Error::EmptyRange`] on the empty text, with
    /// [`Error::ParseStartPoint`] or [`Error::ParseEndPoint`] where a bound
    /// is no numeral that fits in an `i64`, and with
    /// [`Error::StartGreaterThanEnd`] where both bounds are numbers and the
    /// start point is the greater one.
    pub fn from(input: &str) -> (res: Result<Self, Error>)
        ensures
            match res {
                Ok(range) => parse_spec(input@) == Ok::<RangeView, Error>(range@),
                Err(e) => parse_spec(input@) == Err::<RangeView, Error>(e),
            },
            res matches Ok(range) ==> range@.well_formed(),
    {
        if input.is_empty() {
            return Err(Error::EmptyRange);
        }
        let chars = chars_of(input);
        let text = chars.as_slice();
        let (check_type, rest) = if text[0] == '@' {
            (CheckType::Inside, slice_subrange(text, 1, text.len()))
        } else {
            (CheckType::Outside, text)
        };
        match parse_range(rest) {
            Ok((start, end)) => Ok(NagiosRange { check_type, start, end }),
            Err(e) => Err(e),
        }
    }

    /// Builds the range from `start` to `end` with the given check type.
    ///
    /// Fails with [`Error::StartGreaterThanEnd`] where both bounds are
    /// numbers and `start` is the greater one, and on no other input.
    pub fn new(check_type: CheckType, start: Bound, end: Bound) -> (res: Result<Self, Error>)
        ensures
            match res {
                Ok(range) => ordered(start, end) && range@ == (RangeView { check_type, start, end }),
                Err(e) => !ordered(start, end) && e == Error::StartGreaterThanEnd,
            },
    {
        match check_order(start, end) {
            Ok((start, end)) => Ok(NagiosRange { check_type, start, end }),
            Err(e) => Err(e),
        }
    }

    /// The lower bound of the range.
    pub fn start(&self) -> (bound: &Bound)
        ensures
            *bound == self@.start,
    {
        &self.start
    }

    /// The upper bound of the range.
    pub fn end(&self) -> (bound: &Bound)
        ensures
            *bound == self@.end,
    {
        &self.end
    }

    /// Whether the range is open towards negative infinity.
    pub fn start_is_infinite(&self) -> (open: bool)
        ensures
            open == (self@.start is Unbounded),
    {
        match self.start {
            Bound::Unbounded => true,
            Bound::Finite(_) => false,
        }
    }

    /// Whether the range is open towards positive infinity.
    pub fn end_is_infinite(&self) -> (open: bool)
        ensures
            open == (self@.end is Unbounded),
    {
        match self.end {
            Bound::Unbounded => true,
            Bound::Finite(_) => false,
        }
    }

    /// Whether `item` lies in the interval `start..=end`, whatever the check
    /// type of the range.
    pub fn contains(&self, item: i64) -> (inside: bool)
        ensures
            inside == self@.contains(item as int),
    {
        let above_start = match self.start {
            Bound::Finite(a) => a <= item,
            Bound::Unbounded => true,
        };
        let below_end = match self.end {
            Bound::Finite(b) => item <= b,
            Bound::Unbounded => true,
        };
        above_start && below_end
    }

    /// Whether an alert is raised for `item`: for an inside range where
    /// `item` lies in the interval, for an outside range where it does not.
    pub fn check(&self, item: i64) -> (alert: bool)
        ensures
            alert == self@.alerts(item as int),
    {
        match self.check_type {
            CheckType::Inside => self.contains(item),
            CheckType::Outside => !self.contains(item),
        }
    }

    /// Whether [`NagiosRange::check`] raises alerts for values inside the
    /// interval.
    pub fn checks_inside(&self) -> (inside: bool)
        ensures
            inside == (self@.check_type == CheckType::Inside),
    {
        self.check_type == CheckType::Inside
    }

    /// Whether [`NagiosRange::check`] raises alerts for values outside the
    /// interval.
    pub fn checks_outside(&self) -> (outside: bool)
        ensures
            outside == (self@.check_type == CheckType::Outside),
    {
        self.check_type == CheckType::Outside
    }

    /// Takes the range apart into its check type, lower bound and upper
    /// bound. The parts are fit for [`NagiosRange::new`].
    pub fn into_inner(self) -> (parts: (CheckType, Bound, Bound))
        ensures
            parts == (self@.check_type, self@.start, self@.end),
            ordered(parts.1, parts.2),
    {
        proof {
            use_type_invariant(&self);
        }
        (self.check_type, self.start, self.end)
    }

    /// Writes the range out in full: `@` for an inside range, then both
    /// bounds with a `:` between them, an open bound as `~`.
    ///
    /// The text of a range with an upper bound stands for that range again.
    /// That of a range without one does not: no bound is read from a `~`
    /// after the `:`.
    pub fn to_text(&self) -> (text: String)
        ensures
            text@ == range_text(self@),
            self@.end is Finite ==> parse_spec(text@) == Ok::<RangeView, Error>(self@),
            self@.end is Unbounded ==> parse_spec(text@) is Err,
    {
        proof {
            reveal_strlit("@");
            reveal_strlit(":");
            use_type_invariant(self);
            if self@.end is Finite {
                lemma_text_round_trip(self@);
            } else {
                lemma_open_end_text_is_rejected(self@);
            }
        }
        let mut text = String::new();
        if self.check_type == CheckType::Inside {
            text.append("@");
        }
        push_bound(&mut text, self.start);
        text.append(":");
        push_bound(&mut text, self.end);
        assert(text@ =~= range_text(self@));
        text
    }
}

/// Appends a bound to `out` as it is written in a range.
fn push_bound(out: &mut String, bound: Bound)
    ensures
        final(out)@ == old(out)@ + bound_text(bound),
{
    match bound {
        Bound::Finite(n) => {
            push_numeral(out, n);
        },
        Bound::Unbounded => {
            proof {
                reveal_strlit("~");
            }
            out.append("~");
        },
    }
}

} // verus!
