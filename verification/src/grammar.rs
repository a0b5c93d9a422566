//! The grammar of range texts:
//!
//! ```text
//! range  := ["@"] spec
//! spec   := [start] ":" [end] | end
//! start  := "~" | numeral
//! end    := numeral
//! ```
//!
//! Nothing is trimmed: every character of the text counts.
use crate::error::Error;
use crate::numeral::{int_text, numeral_spec, parse_numeral};
use crate::types::{ordered, Bound, CheckType, RangeView};
use vstd::prelude::*;
use vstd::slice::slice_subrange;
use vstd::std_specs::iter::IteratorSpec;
use vstd::string::*;

verus! {

/// What the text before the `:` stands for: 0 where it is empty, an open
/// start point where it is `~`, and else the number it writes.
pub open spec fn start_spec(left: Seq<char>) -> Result<Bound, Error> {
    if left.len() == 0 {
        Ok(Bound::Finite(0))
    } else if left == seq!['~'] {
        Ok(Bound::Unbounded)
    } else {
        match numeral_spec(left) {
            Ok(n) => Ok(Bound::Finite(n)),
            Err(e) => Err(Error::ParseStartPoint(e)),
        }
    }
}

/// What the text after the `:` stands for: an open end point where it is
/// empty, and else the number it writes. A `~` is no number.
pub open spec fn end_spec(right: Seq<char>) -> Result<Bound, Error> {
    if right.len() == 0 {
        Ok(Bound::Unbounded)
    } else {
        match numeral_spec(right) {
            Ok(n) => Ok(Bound::Finite(n)),
            Err(e) => Err(Error::ParseEndPoint(e)),
        }
    }
}

/// The two bounds, if they are in order.
pub open spec fn order_spec(start: Bound, end: Bound) -> Result<(Bound, Bound), Error> {
    if ordered(start, end) {
        Ok((start, end))
    } else {
        Err(Error::StartGreaterThanEnd)
    }
}

/// The bounds that `s`, a range text without its `@`, stands for.
///
/// The text is split at its first `:`. Without a `:` the whole text is the
/// end point and the start point is 0. A bound that cannot be read is
/// reported before the order of the two is looked at, the start point first.
pub open spec fn bounds_spec(s: Seq<char>) -> Result<(Bound, Bound), Error> {
    match s.index_of_first(':') {
        None => match numeral_spec(s) {
            Ok(n) => order_spec(Bound::Finite(0), Bound::Finite(n)),
            Err(e) => Err(Error::ParseEndPoint(e)),
        },
        Some(at) => match start_spec(s.subrange(0, at)) {
            Err(e) => Err(e),
            Ok(start) => match end_spec(s.subrange(at + 1, s.len() as int)) {
                Err(e) => Err(e),
                Ok(end) => order_spec(start, end),
            },
        },
    }
}

/// The check type that a range text asks for: inside with a leading `@`,
/// outside without.
pub open spec fn check_type_spec(s: Seq<char>) -> CheckType {
    if s.len() > 0 && s[0] == '@' {
        CheckType::Inside
    } else {
        CheckType::Outside
    }
}

/// The range text without its leading `@`, if it has one.
pub open spec fn without_marker(s: Seq<char>) -> Seq<char> {
    if s.len() > 0 && s[0] == '@' {
        s.subrange(1, s.len() as int)
    } else {
        s
    }
}

/// The range that the text `s` stands for, or the reason why it stands for
/// none.
pub open spec fn parse_spec(s: Seq<char>) -> Result<RangeView, Error> {
    if s.len() == 0 {
        Err(Error::EmptyRange)
    } else {
        match bounds_spec(without_marker(s)) {
            Ok((start, end)) => Ok(RangeView { check_type: check_type_spec(s), start, end }),
            Err(e) => Err(e),
        }
    }
}

/// How a bound is written: a number as its numeral, an open bound as `~`.
pub open spec fn bound_text(bound: Bound) -> Seq<char> {
    match bound {
        Bound::Finite(n) => int_text(n as int),
        Bound::Unbounded => seq!['~'],
    }
}

/// How a range is written: `@` where alerts are raised inside, then the start
/// point, a `:` and the end point. Both bounds are always written out.
pub open spec fn range_text(range: RangeView) -> Seq<char> {
    let marker = if range.check_type == CheckType::Inside {
        seq!['@']
    } else {
        Seq::<char>::empty()
    };
    marker + bound_text(range.start) + seq![':'] + bound_text(range.end)
}

/// The characters of `s`.
pub fn chars_of(s: &str) -> (chars: Vec<char>)
    ensures
        chars@ == s@,
{
    broadcast use vstd::string::group_string_axioms;

    let mut chars: Vec<char> = Vec::new();
    let mut rest = s.chars();
    loop
        invariant
            chars@ + rest.remaining() == s@,
            rest.decrease() is Some,
        ensures
            chars@ == s@,
        decreases rest.decrease()->0,
    {
        match rest.next() {
            Some(c) => {
                chars.push(c);
            },
            None => {
                assert(chars@ =~= chars@ + rest.remaining());
                break ;
            },
        }
    }
    chars
}

/// Where the first `:` of `text` stands, if there is one.
pub fn find_separator(text: &[char]) -> (at: Option<usize>)
    ensures
        match at {
            Some(i) => i < text@.len() && text@.index_of_first(':') == Some(i as int),
            None => text@.index_of_first(':') == None::<int>,
        },
{
    let mut i: usize = 0;
    while i < text.len()
        invariant
            i <= text@.len(),
            forall|j: int| 0 <= j < i ==> text@[j] != ':',
        decreases text@.len() - i,
    {
        if text[i] == ':' {
            proof {
                text@.index_of_first_ensures(':');
            }
            return Some(i);
        }
        i += 1;
    }
    proof {
        text@.index_of_first_ensures(':');
    }
    None
}

/// Reads the text before the `:`.
pub fn parse_start(left: &[char]) -> (res: Result<Bound, Error>)
    ensures
        res == start_spec(left@),
{
    if left.len() == 0 {
        Ok(Bound::Finite(0))
    } else if left.len() == 1 && left[0] == '~' {
        assert(left@ =~= seq!['~']);
        Ok(Bound::Unbounded)
    } else {
        assert(left@ != seq!['~']) by {
            if left@.len() == 1 {
                assert(seq!['~'][0] == '~');
            }
        }
        match parse_numeral(left) {
            Ok(n) => Ok(Bound::Finite(n)),
            Err(e) => Err(Error::ParseStartPoint(e)),
        }
    }
}

/// Reads the text after the `:`.
pub fn parse_end(right: &[char]) -> (res: Result<Bound, Error>)
    ensures
        res == end_spec(right@),
{
    if right.len() == 0 {
        Ok(Bound::Unbounded)
    } else {
        match parse_numeral(right) {
            Ok(n) => Ok(Bound::Finite(n)),
            Err(e) => Err(Error::ParseEndPoint(e)),
        }
    }
}

/// Hands the two bounds back if they are in order.
pub fn check_order(start: Bound, end: Bound) -> (res: Result<(Bound, Bound), Error>)
    ensures
        res == order_spec(start, end),
{
    match (start, end) {
        (Bound::Finite(a), Bound::Finite(b)) => {
            if a > b {
                Err(Error::StartGreaterThanEnd)
            } else {
                Ok((start, end))
            }
        },
        _ => Ok((start, end)),
    }
}

/// Reads the bounds of a range text that has been freed of its `@`.
pub fn parse_range(range: &[char]) -> (res: Result<(Bound, Bound), Error>)
    ensures
        res == bounds_spec(range@),
{
    match find_separator(range) {
        Some(at) => {
            let n: usize = range.len();
            let left = slice_subrange(range, 0, at);
            let right = slice_subrange(range, at + 1, n);
            let start = match parse_start(left) {
                Ok(bound) => bound,
                Err(e) => {
                    return Err(e);
                },
            };
            let end = match parse_end(right) {
                Ok(bound) => bound,
                Err(e) => {
                    return Err(e);
                },
            };
            check_order(start, end)
        },
        None => {
            match parse_numeral(range) {
                Ok(n) => check_order(Bound::Finite(0), Bound::Finite(n)),
                Err(e) => Err(Error::ParseEndPoint(e)),
            }
        },
    }
}

} // verus!
