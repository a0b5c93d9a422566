use nagios_range::{Bound, CheckType, Error, NagiosRange};

fn range(check_type: CheckType, start: Bound, end: Bound) -> NagiosRange {
    NagiosRange::new(check_type, start, end).unwrap()
}

#[test]
fn parse_example_range_1() {
    let result = NagiosRange::from("10");
    let expect = range(CheckType::Outside, Bound::Finite(0), Bound::Finite(10));
    assert_eq!(result, Ok(expect));
}

#[test]
fn parse_example_range_2() {
    let result = NagiosRange::from("10:");
    let expect = range(CheckType::Outside, Bound::Finite(10), Bound::Unbounded);
    assert_eq!(result, Ok(expect));
}

#[test]
fn parse_example_range_3() {
    let result = NagiosRange::from(":10");
    let expect = range(CheckType::Outside, Bound::Finite(0), Bound::Finite(10));
    assert_eq!(result, Ok(expect));
}

#[test]
fn parse_example_range_4() {
    let result = NagiosRange::from("~:10");
    let expect = range(CheckType::Outside, Bound::Unbounded, Bound::Finite(10));
    assert_eq!(result, Ok(expect));
}

#[test]
fn parse_example_range_5() {
    let result = NagiosRange::from("10:20");
    let expect = range(CheckType::Outside, Bound::Finite(10), Bound::Finite(20));
    assert_eq!(result, Ok(expect));
}

#[test]
fn parse_example_range_6() {
    let result = NagiosRange::from("@10:20");
    let expect = range(CheckType::Inside, Bound::Finite(10), Bound::Finite(20));
    assert_eq!(result, Ok(expect));
}

#[test]
fn parse_example_range_7() {
    let result = NagiosRange::from("@-10:20");
    let expect = range(CheckType::Inside, Bound::Finite(-10), Bound::Finite(20));
    assert_eq!(result, Ok(expect));
}

#[test]
fn parse_example_range_8() {
    let result = NagiosRange::from("@-10:-20");
    let expect = Error::StartGreaterThanEnd;
    assert_eq!(result, Err(expect));
}

#[test]
fn parse_example_range_9() {
    let result = NagiosRange::from("@20:-20");
    let expect = Error::StartGreaterThanEnd;
    assert_eq!(result, Err(expect));
}

#[test]
fn parse_example_range_10() {
    let result = NagiosRange::from("");
    let expect = Error::EmptyRange;
    assert_eq!(result, Err(expect));
}

#[test]
fn display_range_1() {
    let range = NagiosRange::from("@10:20").unwrap();
    let result = "@10:20".to_string();
    assert_eq!(range.to_text(), result);
}

#[test]
fn display_range_2() {
    let range = NagiosRange::from("@10:").unwrap();
    let result = "@10:~".to_string();
    assert_eq!(range.to_text(), result);
}

#[test]
fn display_range_3() {
    let range = NagiosRange::from("10").unwrap();
    let result = "0:10".to_string();
    assert_eq!(range.to_text(), result);
}

#[test]
fn display_range_4() {
    let range = NagiosRange::from("~:10").unwrap();
    let result = "~:10".to_string();
    assert_eq!(range.to_text(), result);
}
