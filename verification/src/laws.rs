//! What holds of every range text and of every range.
//!
//! Each law is stated over the description of the grammar in
//! [`crate::grammar`] and over [`RangeView`], the terms in which the
//! functions of this crate state what they return.
use crate::error::{Error, NumeralError};
use crate::grammar::{
    bound_text, bounds_spec, end_spec, order_spec, parse_spec, range_text, start_spec,
    without_marker,
};
use crate::numeral::{
    int_text, is_digit, is_sign, lemma_numeral_chars, lemma_numeral_round_trip, numeral_digits,
    numeral_spec,
};
use crate::types::{Bound, CheckType, RangeView};
use vstd::prelude::*;

verus! {

/// The two bounds read from `left` and `right`, put in order: what a text
/// with `left` before its first `:` and `right` after it stands for.
pub open spec fn joined_spec(left: Seq<char>, right: Seq<char>) -> Result<(Bound, Bound), Error> {
    match start_spec(left) {
        Err(e) => Err(e),
        Ok(start) => match end_spec(right) {
            Err(e) => Err(e),
            Ok(end) => order_spec(start, end),
        },
    }
}

/// The range with the given check type and the bounds of `bounds`.
pub open spec fn with_check_type(
    check_type: CheckType,
    bounds: Result<(Bound, Bound), Error>,
) -> Result<RangeView, Error> {
    match bounds {
        Ok((start, end)) => Ok(RangeView { check_type, start, end }),
        Err(e) => Err(e),
    }
}

/// The bounds of a range without a lower bound whose upper bound is read
/// from `right`.
pub open spec fn open_start_spec(right: Seq<char>) -> Result<(Bound, Bound), Error> {
    match end_spec(right) {
        Ok(end) => Ok((Bound::Unbounded, end)),
        Err(e) => Err(e),
    }
}

/// A text is split at its first `:`: where `left` holds no `:`, the text
/// `left:right` stands for the bounds read from `left` and from `right`.
pub proof fn lemma_split(left: Seq<char>, right: Seq<char>)
    requires
        !left.contains(':'),
    ensures
        bounds_spec(left + seq![':'] + right) == joined_spec(left, right),
{
    let s = left + seq![':'] + right;
    let at = left.len() as int;
    s.index_of_first_ensures(':');
    assert(s[at] == ':');
    assert(s.contains(':'));
    let found = s.index_of_first(':')->0;
    if found < at {
        assert(s[found] == left[found]);
        assert(left.contains(':'));
    }
    assert(found == at);
    assert(s.subrange(0, at) =~= left);
    assert(s.subrange(at + 1, s.len() as int) =~= right);
}

/// A text that is read as a number holds no `:`, is not the `~` and does not
/// start with `@`.
pub proof fn lemma_numeral_plain(s: Seq<char>)
    requires
        numeral_spec(s) is Ok,
    ensures
        s.len() > 0,
        !s.contains(':'),
        s != seq!['~'],
        s[0] != '@',
{
    lemma_numeral_chars(s);
    assert(is_digit(s[0]) || is_sign(s[0]));
    if s.contains(':') {
        let i = choose|i: int| 0 <= i < s.len() && s[i] == ':';
        assert(is_digit(s[i]) || (i == 0 && is_sign(s[i])));
    }
    if s == seq!['~'] {
        assert(seq!['~'][0] == '~');
    }
}

/// Every text that stands for a range stands for one whose start point does
/// not lie above its end point.
pub proof fn lemma_parsed_in_order(s: Seq<char>)
    requires
        parse_spec(s) is Ok,
    ensures
        parse_spec(s)->Ok_0.well_formed(),
{
}

/// The empty text stands for no range, the reason given is
/// [`Error::EmptyRange`], and it is given for no other text.
pub proof fn lemma_empty_text(s: Seq<char>)
    ensures
        s.len() == 0 <==> parse_spec(s) == Err::<RangeView, Error>(Error::EmptyRange),
{
}

/// A text that stands for a range raises alerts inside the interval if it
/// starts with `@`, and outside of it if it does not.
pub proof fn lemma_marker_decides_check_type(s: Seq<char>)
    requires
        parse_spec(s) is Ok,
    ensures
        s[0] == '@' ==> parse_spec(s)->Ok_0.check_type == CheckType::Inside,
        s[0] != '@' ==> parse_spec(s)->Ok_0.check_type == CheckType::Outside,
{
}

/// An `@` put in front of a text without one changes the check type from
/// outside to inside and nothing else: the bounds stay, and so does the
/// reason for which the text stands for no range.
pub proof fn lemma_marker_flips_check_type(s: Seq<char>)
    requires
        s.len() > 0,
        s[0] != '@',
    ensures
        parse_spec(s) == with_check_type(CheckType::Outside, bounds_spec(s)),
        parse_spec(seq!['@'] + s) == with_check_type(CheckType::Inside, bounds_spec(s)),
{
    let marked = seq!['@'] + s;
    assert(marked[0] == '@');
    assert(without_marker(marked) =~= s);
}

/// A text without `:` and without `@` that stands for a range stands for the
/// outside range from 0 to the number that the text writes.
pub proof fn lemma_without_separator(s: Seq<char>)
    requires
        parse_spec(s) is Ok,
        !s.contains(':'),
        s[0] != '@',
    ensures
        numeral_spec(s) is Ok,
        parse_spec(s) == Ok::<RangeView, Error>(
            RangeView {
                check_type: CheckType::Outside,
                start: Bound::Finite(0),
                end: Bound::Finite(numeral_spec(s)->Ok_0),
            },
        ),
{
    s.index_of_first_ensures(':');
}

/// A text `X:` that stands for a range stands for one without an upper
/// bound, whose lower bound is what `X` (taken without its `@`) stands for:
/// 0 where it is empty, no bound where it is `~`, and else its number.
pub proof fn lemma_open_end(x: Seq<char>)
    requires
        parse_spec(x.push(':')) is Ok,
    ensures
        parse_spec(x.push(':'))->Ok_0.end == Bound::Unbounded,
        start_spec(without_marker(x)) == Ok::<Bound, Error>(parse_spec(x.push(':'))->Ok_0.start),
{
    let s = x.push(':');
    let rest = without_marker(s);
    let left = without_marker(x);
    assert(rest =~= left.push(':'));
    rest.index_of_first_ensures(':');
    assert(rest[left.len() as int] == ':');
    assert(rest.contains(':'));
    let at = rest.index_of_first(':')->0;
    let right = rest.subrange(at + 1, rest.len() as int);
    if at < left.len() {
        assert(right.last() == ':');
        assert(right.contains(':'));
        lemma_numeral_plain(right);
    }
    assert(at == left.len());
    assert(rest.subrange(0, at) =~= left);
    assert(right.len() == 0);
}

/// A text `:Y` or `@:Y` that stands for a range stands for one that starts
/// at 0.
pub proof fn lemma_empty_start(y: Seq<char>)
    ensures
        parse_spec(seq![':'] + y) matches Ok(range) ==> range.start == Bound::Finite(0),
        parse_spec(seq!['@', ':'] + y) matches Ok(range) ==> range.start == Bound::Finite(0),
{
    let s = seq![':'] + y;
    assert(s[0] == ':');
    assert(s =~= Seq::<char>::empty() + seq![':'] + y);
    lemma_split(Seq::<char>::empty(), y);
    lemma_marker_flips_check_type(s);
    assert(seq!['@', ':'] + y =~= seq!['@'] + s);
}

/// The text `~:Y` stands for the outside range without a lower bound whose
/// upper bound is what `Y` stands for, or for none where `Y` stands for no
/// upper bound. The text `@~:Y` stands for the same as an inside range.
pub proof fn lemma_open_start(y: Seq<char>)
    ensures
        parse_spec(seq!['~', ':'] + y) == with_check_type(
            CheckType::Outside,
            open_start_spec(y),
        ),
        parse_spec(seq!['@', '~', ':'] + y) == with_check_type(
            CheckType::Inside,
            open_start_spec(y),
        ),
{
    let s = seq!['~', ':'] + y;
    let left = seq!['~'];
    assert(s[0] == '~');
    assert(s =~= left + seq![':'] + y);
    assert(left[0] == '~');
    lemma_split(left, y);
    lemma_marker_flips_check_type(s);
    assert(seq!['@', '~', ':'] + y =~= seq!['@'] + s);
}

/// Two numerals with the greater number on the left stand for no range,
/// with or without `@`, and the reason given is
/// [`Error::StartGreaterThanEnd`].
pub proof fn lemma_start_greater_than_end(left: Seq<char>, right: Seq<char>)
    requires
        numeral_spec(left) is Ok,
        numeral_spec(right) is Ok,
        numeral_spec(left)->Ok_0 > numeral_spec(right)->Ok_0,
    ensures
        parse_spec(left + seq![':'] + right) == Err::<RangeView, Error>(Error::StartGreaterThanEnd),
        parse_spec(seq!['@'] + (left + seq![':'] + right)) == Err::<RangeView, Error>(
            Error::StartGreaterThanEnd,
        ),
{
    let s = left + seq![':'] + right;
    lemma_numeral_plain(left);
    lemma_numeral_plain(right);
    lemma_split(left, right);
    assert(s[0] == left[0]);
    lemma_marker_flips_check_type(s);
}

/// A bound that cannot be read is reported whatever the order of the two
/// bounds would be, and the start point is looked at first.
pub proof fn lemma_unreadable_bound_comes_first(left: Seq<char>, right: Seq<char>)
    requires
        !left.contains(':'),
    ensures
        start_spec(left) matches Err(e) ==> bounds_spec(left + seq![':'] + right) == Err::<
            (Bound, Bound),
            Error,
        >(e),
        start_spec(left) is Ok ==> (end_spec(right) matches Err(e) ==> bounds_spec(
            left + seq![':'] + right,
        ) == Err::<(Bound, Bound), Error>(e)),
{
    lemma_split(left, right);
}

/// An inside range raises an alert for exactly the values that it contains,
/// an outside range for exactly those that lie below its start point or
/// above its end point.
pub proof fn lemma_alerts(range: RangeView, x: int)
    ensures
        range.check_type == CheckType::Inside ==> range.alerts(x) == range.contains(x),
        range.check_type == CheckType::Outside ==> range.alerts(x) == !range.contains(x),
        range.check_type == CheckType::Outside ==> range.alerts(x) == ({
            ||| (range.start matches Bound::Finite(a) && x < a)
            ||| (range.end matches Bound::Finite(b) && x > b)
        }),
{
}

/// A range with two finite bounds contains both of them.
pub proof fn lemma_contains_bounds(range: RangeView, a: i64, b: i64)
    requires
        range.well_formed(),
        range.start == Bound::Finite(a),
        range.end == Bound::Finite(b),
    ensures
        range.contains(a as int),
        range.contains(b as int),
{
}

/// How a bound is written holds no `:` and does not start with `@`.
pub proof fn lemma_bound_text_plain(bound: Bound)
    ensures
        bound_text(bound).len() > 0,
        !bound_text(bound).contains(':'),
        bound_text(bound)[0] != '@',
{
    match bound {
        Bound::Finite(n) => {
            lemma_numeral_round_trip(n);
            lemma_numeral_plain(int_text(n as int));
        },
        Bound::Unbounded => {
            let t = seq!['~'];
            assert(t[0] == '~');
            if t.contains(':') {
                let i = choose|i: int| 0 <= i < t.len() && t[i] == ':';
                assert(t[i] == '~');
            }
        },
    }
}

/// A start point is read back as it was written.
pub proof fn lemma_start_round_trip(bound: Bound)
    ensures
        start_spec(bound_text(bound)) == Ok::<Bound, Error>(bound),
{
    match bound {
        Bound::Finite(n) => {
            lemma_numeral_round_trip(n);
            lemma_numeral_plain(int_text(n as int));
        },
        Bound::Unbounded => {},
    }
}

/// A range with an upper bound is read back as it was written: the text of
/// the range stands for the range itself, and so raises the same alerts.
///
/// A range without an upper bound is written with a `~` after the `:`,
/// which is not read as a bound.
pub proof fn lemma_text_round_trip(range: RangeView)
    requires
        range.well_formed(),
        range.end is Finite,
    ensures
        parse_spec(range_text(range)) == Ok::<RangeView, Error>(range),
        forall|x: int| (#[trigger] parse_spec(range_text(range))->Ok_0.alerts(x)) == range.alerts(x),
{
    let left = bound_text(range.start);
    let right = bound_text(range.end);
    let body = left + seq![':'] + right;
    lemma_bound_text_plain(range.start);
    lemma_start_round_trip(range.start);
    lemma_numeral_round_trip(range.end->Finite_0);
    lemma_split(left, right);
    assert(body[0] == left[0]);
    lemma_marker_flips_check_type(body);
    if range.check_type == CheckType::Inside {
        assert(range_text(range) =~= seq!['@'] + body);
    } else {
        assert(range_text(range) =~= body);
    }
}

/// A range without an upper bound is not read back from its own text: the
/// `~` after the `:` is reported as an end point that is no numeral.
pub proof fn lemma_open_end_text_is_rejected(range: RangeView)
    requires
        range.end is Unbounded,
    ensures
        parse_spec(range_text(range)) == Err::<RangeView, Error>(
            Error::ParseEndPoint(NumeralError::InvalidDigit),
        ),
{
    let left = bound_text(range.start);
    let right = seq!['~'];
    let body = left + seq![':'] + right;
    lemma_bound_text_plain(range.start);
    lemma_start_round_trip(range.start);
    lemma_split(left, right);
    assert(right[0] == '~');
    assert(numeral_digits(right) == right);
    assert(!is_digit(right[0]));
    assert(body[0] == left[0]);
    lemma_marker_flips_check_type(body);
    if range.check_type == CheckType::Inside {
        assert(range_text(range) =~= seq!['@'] + body);
    } else {
        assert(range_text(range) =~= body);
    }
}

} // verus!
