//! Signed decimal numerals: what they denote, how they are read and how
//! they are written.
use crate::error::NumeralError;
use vstd::prelude::*;
use vstd::string::*;

verus! {

/// `c` is one of the ten decimal digits `0` to `9`.
pub open spec fn is_digit(c: char) -> bool {
    '0' <= c && c <= '9'
}

/// The number that the decimal digit `c` stands for.
pub open spec fn digit_value(c: char) -> int
    recommends
        is_digit(c),
{
    c as int - '0' as int
}

/// Every character of `s` is a decimal digit.
pub open spec fn all_digits(s: Seq<char>) -> bool {
    forall|i: int| 0 <= i < s.len() ==> is_digit(#[trigger] s[i])
}

/// The number that the digit string `s` denotes in base ten, most
/// significant digit first. The empty string denotes 0.
pub open spec fn digits_value(s: Seq<char>) -> int
    recommends
        all_digits(s),
    decreases s.len(),
{
    if s.len() == 0 {
        0
    } else {
        digits_value(s.drop_last()) * 10 + digit_value(s.last())
    }
}

/// `c` is a sign, `+` or `-`.
pub open spec fn is_sign(c: char) -> bool {
    c == '+' || c == '-'
}

/// The digits of a numeral: the text without its sign, if it has one.
pub open spec fn numeral_digits(s: Seq<char>) -> Seq<char> {
    if s.len() > 0 && is_sign(s[0]) {
        s.subrange(1, s.len() as int)
    } else {
        s
    }
}

/// The number that a well-formed numeral denotes: its digits' value,
/// negated where the numeral starts with `-`.
pub open spec fn numeral_value(s: Seq<char>) -> int {
    if s.len() > 0 && s[0] == '-' {
        -digits_value(numeral_digits(s))
    } else {
        digits_value(numeral_digits(s))
    }
}

/// `s` is a numeral: an optional sign followed by at least one digit and
/// nothing else.
pub open spec fn is_numeral(s: Seq<char>) -> bool {
    numeral_digits(s).len() > 0 && all_digits(numeral_digits(s))
}

/// What reading `s` as a numeral gives: its value where `s` is a numeral
/// whose value fits in an `i64`, and else the reason why not. A malformed
/// numeral is reported as such however large a number its digits would make.
pub open spec fn numeral_spec(s: Seq<char>) -> Result<i64, NumeralError> {
    if s.len() == 0 {
        Err(NumeralError::Empty)
    } else if !is_numeral(s) {
        Err(NumeralError::InvalidDigit)
    } else if numeral_value(s) > i64::MAX {
        Err(NumeralError::PosOverflow)
    } else if numeral_value(s) < i64::MIN {
        Err(NumeralError::NegOverflow)
    } else {
        Ok(numeral_value(s) as i64)
    }
}

/// Reads `text` as a signed decimal numeral.
pub fn parse_numeral(text: &[char]) -> (res: Result<i64, NumeralError>)
    ensures
        res == numeral_spec(text@),
{
    let n: usize = text.len();
    if n == 0 {
        return Err(NumeralError::Empty);
    }
    let negative = text[0] == '-';
    let first: usize = if text[0] == '+' || text[0] == '-' {
        1
    } else {
        0
    };
    if first == n {
        return Err(NumeralError::InvalidDigit);
    }
    let ghost digits = numeral_digits(text@);
    let mut acc: i64 = 0;
    let mut overflow = false;
    let mut i: usize = first;
    while i < n
        invariant
            n == text@.len(),
            first <= i <= n,
            first < n,
            digits == numeral_digits(text@),
            digits == text@.subrange(first as int, n as int),
            all_digits(digits.subrange(0, i - first)),
            digits_value(digits.subrange(0, i - first)) >= 0,
            !overflow && !negative ==> acc == digits_value(digits.subrange(0, i - first)),
            !overflow && negative ==> acc == -digits_value(digits.subrange(0, i - first)),
            overflow && !negative ==> digits_value(digits.subrange(0, i - first)) > i64::MAX,
            overflow && negative ==> -digits_value(digits.subrange(0, i - first)) < i64::MIN,
        decreases n - i,
    {
        let c = text[i];
        if !(c >= '0' && c <= '9') {
            assert(!is_digit(digits[i - first]));
            return Err(NumeralError::InvalidDigit);
        }
        let d: i64 = (c as u32 - '0' as u32) as i64;
        proof {
            let seen = digits.subrange(0, i - first);
            let next = digits.subrange(0, i - first + 1);
            assert(next.drop_last() == seen);
            assert(next.last() == c);
            assert(digits_value(next) == digits_value(seen) * 10 + d);
            assert forall|k: int| 0 <= k < next.len() implies is_digit(#[trigger] next[k]) by {
                if k < seen.len() {
                    assert(next[k] == seen[k]);
                }
            }
        }
        if !overflow {
            let shifted = acc.checked_mul(10);
            let sum = match shifted {
                None => None,
                Some(m) => if negative {
                    m.checked_sub(d)
                } else {
                    m.checked_add(d)
                },
            };
            match sum {
                None => {
                    overflow = true;
                },
                Some(v) => {
                    acc = v;
                },
            }
        }
        i += 1;
    }
    assert(digits.subrange(0, n - first) == digits);
    if overflow {
        if negative {
            Err(NumeralError::NegOverflow)
        } else {
            Err(NumeralError::PosOverflow)
        }
    } else {
        Ok(acc)
    }
}

/// The character that writes the digit `d`.
pub open spec fn digit_char(d: int) -> char
    recommends
        0 <= d < 10,
{
    ('0' as int + d) as char
}

/// The decimal digits of `n`, most significant first and without leading
/// zeros; `0` is written as the single digit `0`.
pub open spec fn nat_text(n: nat) -> Seq<char>
    decreases n,
{
    if n < 10 {
        seq![digit_char(n as int)]
    } else {
        nat_text(n / 10).push(digit_char((n % 10) as int))
    }
}

/// The numeral that writes `n`: its digits, after a `-` where `n` is
/// negative. No `+` is written.
pub open spec fn int_text(n: int) -> Seq<char> {
    if n < 0 {
        seq!['-'] + nat_text((-n) as nat)
    } else {
        nat_text(n as nat)
    }
}

/// The one-character text that writes the digit `d`.
fn digit_str(d: u64) -> (s: &'static str)
    requires
        d < 10,
    ensures
        s@ == seq![digit_char(d as int)],
{
    proof {
        reveal_strlit("0");
        reveal_strlit("1");
        reveal_strlit("2");
        reveal_strlit("3");
        reveal_strlit("4");
        reveal_strlit("5");
        reveal_strlit("6");
        reveal_strlit("7");
        reveal_strlit("8");
        reveal_strlit("9");
    }
    let s = match d {
        0 => "0",
        1 => "1",
        2 => "2",
        3 => "3",
        4 => "4",
        5 => "5",
        6 => "6",
        7 => "7",
        8 => "8",
        _ => "9",
    };
    assert(s@ =~= seq![digit_char(d as int)]);
    s
}

/// Appends the digits of `n` to `out`.
fn push_digits(out: &mut String, n: u64)
    ensures
        final(out)@ == old(out)@ + nat_text(n as nat),
    decreases n,
{
    if n >= 10 {
        push_digits(out, n / 10);
    }
    out.append(digit_str(n % 10));
    assert(out@ =~= old(out)@ + nat_text(n as nat));
}

/// Appends the numeral that writes `n` to `out`.
pub fn push_numeral(out: &mut String, n: i64)
    ensures
        final(out)@ == old(out)@ + int_text(n as int),
{
    if n < 0 {
        proof {
            reveal_strlit("-");
        }
        out.append("-");
        let magnitude: u64 = (-(n + 1)) as u64 + 1;
        push_digits(out, magnitude);
        assert(out@ =~= old(out)@ + int_text(n as int));
    } else {
        push_digits(out, n as u64);
    }
}

/// A numeral consists of digits, but for a sign that may stand in front.
pub open spec fn numeral_chars(s: Seq<char>) -> bool {
    forall|i: int| 0 <= i < s.len() ==> is_digit(#[trigger] s[i]) || (i == 0 && is_sign(s[i]))
}

/// Whatever is read as a number is a numeral, and a numeral holds nothing
/// but digits and a leading sign.
pub proof fn lemma_numeral_chars(s: Seq<char>)
    requires
        numeral_spec(s) is Ok,
    ensures
        s.len() > 0,
        is_numeral(s),
        numeral_chars(s),
{
    let digits = numeral_digits(s);
    assert forall|i: int| 0 <= i < s.len() implies is_digit(#[trigger] s[i]) || (i == 0 && is_sign(
        s[i],
    )) by {
        if is_sign(s[0]) {
            if i > 0 {
                assert(s[i] == digits[i - 1]);
            }
        } else {
            assert(s[i] == digits[i]);
        }
    }
}

/// The digits written for `n` are digits, at least one, and denote `n`.
pub proof fn lemma_nat_text_value(n: nat)
    ensures
        nat_text(n).len() > 0,
        all_digits(nat_text(n)),
        digits_value(nat_text(n)) == n,
    decreases n,
{
    let text = nat_text(n);
    if n < 10 {
        assert(text.drop_last() =~= Seq::<char>::empty());
        assert(digits_value(text.drop_last()) == 0);
    } else {
        lemma_nat_text_value(n / 10);
        assert(text.drop_last() =~= nat_text(n / 10));
        assert forall|i: int| 0 <= i < text.len() implies is_digit(#[trigger] text[i]) by {
            if i < text.len() - 1 {
                assert(text[i] == nat_text(n / 10)[i]);
            }
        }
    }
}

/// The text written for `n` is a numeral that denotes `n`.
pub proof fn lemma_int_text_value(n: int)
    ensures
        is_numeral(int_text(n)),
        numeral_value(int_text(n)) == n,
{
    if n < 0 {
        lemma_nat_text_value((-n) as nat);
        assert(numeral_digits(int_text(n)) =~= nat_text((-n) as nat));
    } else {
        lemma_nat_text_value(n as nat);
        assert(!is_sign(int_text(n)[0]));
    }
}

/// Reading what was written for `n` gives `n` back.
pub proof fn lemma_numeral_round_trip(n: i64)
    ensures
        numeral_spec(int_text(n as int)) == Ok::<i64, NumeralError>(n),
{
    lemma_int_text_value(n as int);
}

} // verus!
