use yolol_number::FromStrError;
use yolol_number::YololNumber;

fn num_helper(num: YololNumber, expected: i128) {
    let expected = expected.clamp(i64::MIN as i128, i64::MAX as i128);
    assert_eq!(
        expected,
        num.get_inner(),
        "Expected inner: {:?}. Actual inner: {:?}",
        expected,
        num.get_inner()
    );
}

fn from_str_helper(input: &'static str, expected: i128) {
    let num: YololNumber = input.parse::<YololNumber>().unwrap();
    num_helper(num, expected)
}

#[test]
fn from_str_test() {
    from_str_helper("+3.14159", 3_1415);

    from_str_helper("1.0", 1_0000);

    from_str_helper("0.1", 0_1000);

    from_str_helper("0.01", 0_0100);

    from_str_helper("0.001", 0_0010);

    from_str_helper("0.0001", 0_0001);

    from_str_helper("-0.1", -0_1000);

    from_str_helper("0.0110", 0_0110);
    from_str_helper("-0.0110", -0_0110);

    from_str_helper("9999999999999999999999999999", 9223372036854775_807);

    from_str_helper("-1", -1_0000);
}

#[test]
fn decimal_truncation_test() {
    let a = "0.00001".parse::<YololNumber>().unwrap();
    let b = "0.0000".parse::<YololNumber>().unwrap();
    assert_eq!(a, b);
    assert_eq!(a.get_inner(), 0);

    let c = "0.0001".parse::<YololNumber>().unwrap();
    assert_eq!(c.get_inner(), 1);

    let d = "1.23456789".parse::<YololNumber>().unwrap();
    assert_eq!(d.get_inner(), 1_2345);
}

#[test]
fn sign_test() {
    let n = "-0.1".parse::<YololNumber>().unwrap();
    assert_eq!(n.get_inner(), -1000);
    assert_eq!(n.to_string(), "-0.1");
}

#[test]
fn extreme_input_saturation_test() {
    let n = "9999999999999999999999999999".parse::<YololNumber>().unwrap();
    assert_eq!(n, YololNumber::max_value());

    let m = "-9999999999999999999999999999".parse::<YololNumber>().unwrap();
    assert_eq!(m, YololNumber::min_value());
}

#[test]
fn parse_error_test() {
    // The last entry holds a non-ASCII digit, which the grammar refuses.
    for bad in
        ["", "+", "-", ".", ".5", "abc", "1.2.3", "1a", "--1", "+-1", "1..2", "1.5e3", " 1", "1\u{0662}3"] {
        assert_eq!(
            bad.parse::<YololNumber>().unwrap_err(),
            FromStrError::InputVerificationFailure,
            "input: {:?}",
            bad
        );
    }

    // One digit more than the widest run the backing type can hold.
    let wide = "9999999999999999999999999999999999999999";
    assert_eq!(
        wide.parse::<YololNumber>().unwrap_err(),
        FromStrError::MainDigitsParseError
    );
    // The same run of digits behind the decimal point truncates instead.
    let trailing = format!("0.{}", wide);
    assert_eq!(trailing.parse::<YololNumber>().unwrap().get_inner(), 9999);
}

#[test]
fn parse_edge_test() {
    // A decimal point with no digits after it is within the grammar.
    from_str_helper("1.", 1_0000);
    from_str_helper("+0", 0);
    from_str_helper("-0", 0);
    from_str_helper("007", 7_0000);
    from_str_helper("-922337203685477.5808", i64::MIN as i128);
    from_str_helper("922337203685477.5807", i64::MAX as i128);
    // Just past the bounds saturates through the final clamp.
    from_str_helper("922337203685477.5808", i64::MAX as i128);
    from_str_helper("-922337203685477.5809", i64::MIN as i128);
}

#[test]
fn from_str_radix_test() {
    let n = YololNumber::from_str_radix("1.5", 10).unwrap();
    assert_eq!(n.get_inner(), 1_5000);

    assert!(YololNumber::from_str_radix("1.5", 16).is_err());
    assert!(YololNumber::from_str_radix("xyz", 10).is_err());
}

#[test]
fn error_message_test() {
    let e = "abc".parse::<YololNumber>().unwrap_err();
    assert!(!e.message().is_empty());
}
