use nagios_range::{Bound, CheckType, Error, NagiosRange, NumeralError};

const SAMPLES: [i64; 15] = [i64::MIN, -1000, -21, -20, -11, -10, -1, 0, 1, 10, 11, 20, 21, 1000, i64::MAX];

fn all_ranges() -> Vec<NagiosRange> {
    let bounds = [Bound::Unbounded, Bound::Finite(i64::MIN), Bound::Finite(-10), Bound::Finite(0), Bound::Finite(10), Bound::Finite(20), Bound::Finite(i64::MAX)];
    let mut ranges = Vec::new();
    for check_type in [CheckType::Inside, CheckType::Outside] {
        for start in bounds {
            for end in bounds {
                if let Ok(range) = NagiosRange::new(check_type, start, end) {
                    ranges.push(range);
                }
            }
        }
    }
    ranges
}

#[test]
fn scenario_upper_bound_only() {
    let range = NagiosRange::from("10").unwrap();
    assert_eq!(range.into_inner(), (CheckType::Outside, Bound::Finite(0), Bound::Finite(10)));
    assert!(!range.check(5));
    assert!(range.check(15));
    assert!(range.check(-1));
    assert!(!range.check(0));
    assert!(!range.check(10));
    assert!(range.check(11));
}

#[test]
fn scenario_lower_bound_only() {
    let range = NagiosRange::from("10:").unwrap();
    assert_eq!(range.into_inner(), (CheckType::Outside, Bound::Finite(10), Bound::Unbounded));
    assert!(range.check(5));
    assert!(!range.check(100));
    assert!(range.check(9));
    assert!(!range.check(10));
    assert!(!range.check(i64::MAX));
}

#[test]
fn scenario_open_start() {
    let range = NagiosRange::from("~:10").unwrap();
    assert_eq!(range.into_inner(), (CheckType::Outside, Bound::Unbounded, Bound::Finite(10)));
    assert!(!range.check(-1000));
    assert!(range.check(20));
    assert!(!range.check(i64::MIN));
    assert!(!range.check(10));
    assert!(range.check(11));
}

#[test]
fn scenario_inside_range() {
    let range = NagiosRange::from("@10:20").unwrap();
    assert_eq!(range.into_inner(), (CheckType::Inside, Bound::Finite(10), Bound::Finite(20)));
    assert!(range.check(15));
    assert!(!range.check(25));
    assert!(range.check(10));
    assert!(range.check(20));
    assert!(!range.check(9));
    assert!(!range.check(21));
}

#[test]
fn scenario_turned_over() {
    assert_eq!(NagiosRange::from("@-10:-20"), Err(Error::StartGreaterThanEnd));
}

#[test]
fn scenario_empty() {
    assert_eq!(NagiosRange::from(""), Err(Error::EmptyRange));
}

#[test]
fn new_builds_what_it_is_given() {
    let range = NagiosRange::new(CheckType::Inside, Bound::Unbounded, Bound::Finite(20)).unwrap();
    assert_eq!(Ok(range), NagiosRange::from("@~:20"));
    assert_eq!(range.start(), &Bound::Unbounded);
    assert_eq!(range.end(), &Bound::Finite(20));
    assert!(range.checks_inside());
    assert!(!range.checks_outside());
}

#[test]
fn new_accepts_every_pair_with_an_open_side() {
    for check_type in [CheckType::Inside, CheckType::Outside] {
        assert!(NagiosRange::new(check_type, Bound::Unbounded, Bound::Finite(i64::MIN)).is_ok());
        assert!(NagiosRange::new(check_type, Bound::Finite(i64::MAX), Bound::Unbounded).is_ok());
        assert!(NagiosRange::new(check_type, Bound::Unbounded, Bound::Unbounded).is_ok());
    }
}

#[test]
fn accessors_give_the_bounds() {
    let range = NagiosRange::from("@-10:10").unwrap();
    assert_eq!(range.start(), &Bound::Finite(-10));
    assert_eq!(range.end(), &Bound::Finite(10));
    assert!(!range.start_is_infinite());
    assert!(!range.end_is_infinite());
    let range = NagiosRange::from("@~:10").unwrap();
    assert!(range.start_is_infinite());
    assert!(!range.end_is_infinite());
    let range = NagiosRange::from("@10:").unwrap();
    assert!(!range.start_is_infinite());
    assert!(range.end_is_infinite());
}

#[test]
fn check_type_is_told_by_both_questions() {
    let range = NagiosRange::from("@~:10").unwrap();
    assert!(range.checks_inside());
    assert!(!range.checks_outside());
    let range = NagiosRange::from("10:50").unwrap();
    assert!(range.checks_outside());
    assert!(!range.checks_inside());
}

#[test]
fn into_inner_gives_parts_fit_for_new() {
    let range = NagiosRange::from("10:50").unwrap();
    let (check_type, start, end) = range.into_inner();
    assert_eq!(check_type, CheckType::Outside);
    assert_eq!(start, Bound::Finite(10));
    assert_eq!(end, Bound::Finite(50));
    assert_eq!(NagiosRange::new(check_type, start, end), Ok(range));
    for range in all_ranges() {
        let (check_type, start, end) = range.into_inner();
        assert_eq!(NagiosRange::new(check_type, start, end), Ok(range));
    }
}

#[test]
fn contains_ignores_the_check_type() {
    let range = NagiosRange::from("@~:10").unwrap();
    assert!(range.contains(-50));
    assert!(range.contains(10));
    assert!(!range.contains(20));
    let range = NagiosRange::from("~:10").unwrap();
    assert!(range.contains(-50));
    assert!(range.contains(10));
    assert!(!range.contains(20));
}

#[test]
fn contains_holds_both_bounds() {
    for range in all_ranges() {
        if let (Bound::Finite(a), Bound::Finite(b)) = (*range.start(), *range.end()) {
            assert!(range.contains(a));
            assert!(range.contains(b));
            assert!(a <= b);
        }
    }
}

#[test]
fn contains_is_the_closed_interval() {
    for range in all_ranges() {
        for x in SAMPLES {
            let above = match range.start() {
                Bound::Finite(a) => *a <= x,
                Bound::Unbounded => true,
            };
            let below = match range.end() {
                Bound::Finite(b) => x <= *b,
                Bound::Unbounded => true,
            };
            assert_eq!(range.contains(x), above && below);
        }
    }
}

#[test]
fn check_follows_contains_by_check_type() {
    for range in all_ranges() {
        for x in SAMPLES {
            if range.checks_inside() {
                assert_eq!(range.check(x), range.contains(x));
            } else {
                assert_eq!(range.check(x), !range.contains(x));
            }
        }
    }
}

#[test]
fn open_range_contains_everything() {
    let range = NagiosRange::from("~:").unwrap();
    let marked = NagiosRange::from("@~:").unwrap();
    for x in SAMPLES {
        assert!(range.contains(x));
        assert!(!range.check(x));
        assert!(marked.check(x));
    }
}

#[test]
fn text_is_written_in_full() {
    assert_eq!(NagiosRange::from(":").unwrap().to_text(), "0:~");
    assert_eq!(NagiosRange::from("@~:").unwrap().to_text(), "@~:~");
    assert_eq!(NagiosRange::from("+5:+7").unwrap().to_text(), "5:7");
    assert_eq!(NagiosRange::from("-007:010").unwrap().to_text(), "-7:10");
    assert_eq!(NagiosRange::from("@-9223372036854775808:9223372036854775807").unwrap().to_text(), "@-9223372036854775808:9223372036854775807");
}

#[test]
fn text_of_a_range_with_upper_bound_is_read_back() {
    for range in all_ranges() {
        if !range.end_is_infinite() {
            let again = NagiosRange::from(&range.to_text()).unwrap();
            assert_eq!(again, range);
            for x in SAMPLES {
                assert_eq!(again.check(x), range.check(x));
            }
        }
    }
}

#[test]
fn text_of_a_range_without_upper_bound_is_not_read_back() {
    for range in all_ranges() {
        if range.end_is_infinite() {
            assert_eq!(NagiosRange::from(&range.to_text()), Err(Error::ParseEndPoint(NumeralError::InvalidDigit)));
        }
    }
}

#[test]
fn error_messages_name_the_cause() {
    assert_eq!(Error::EmptyRange.message(), "the range string must not be empty");
    assert_eq!(Error::StartGreaterThanEnd.message(), "the start point must be lesser than the end point");
    assert_eq!(Error::ParseStartPoint(NumeralError::InvalidDigit).message(), "the start point could not be parsed as integer: invalid digit found in string");
    assert_eq!(Error::ParseStartPoint(NumeralError::PosOverflow).message(), "the start point could not be parsed as integer: number too large to fit in target type");
    assert_eq!(Error::ParseEndPoint(NumeralError::Empty).message(), "the end point could not be parsed as integer: cannot parse integer from empty string");
    assert_eq!(Error::ParseEndPoint(NumeralError::NegOverflow).message(), "the end point could not be parsed as integer: number too small to fit in target type");
}

#[test]
fn numeral_error_messages_are_those_of_integer_parsing() {
    assert_eq!(NumeralError::Empty.message(), "".parse::<i64>().unwrap_err().to_string());
    assert_eq!(NumeralError::InvalidDigit.message(), "x".parse::<i64>().unwrap_err().to_string());
    assert_eq!(NumeralError::PosOverflow.message(), "9223372036854775808".parse::<i64>().unwrap_err().to_string());
    assert_eq!(NumeralError::NegOverflow.message(), "-9223372036854775809".parse::<i64>().unwrap_err().to_string());
}

#[test]
fn errors_from_text_carry_their_message() {
    let error = NagiosRange::from("1:x").unwrap_err();
    assert_eq!(error.message(), "the end point could not be parsed as integer: invalid digit found in string");
    let error = NagiosRange::from("").unwrap_err();
    assert_eq!(error.message(), "the range string must not be empty");
}
