use yolol_number::YololNumber;

#[test]
fn to_string_test() {
    let cases: [(i128, &str); 12] = [
        (0, "0"),
        (1, "0.0001"),
        (-1, "-0.0001"),
        (1_0000, "1"),
        (-1_0000, "-1"),
        (1_2345, "1.2345"),
        (110, "0.011"),
        (-1_0100, "-1.01"),
        (42_5000, "42.5"),
        (10000_0000, "10000"),
        (i64::MAX as i128, "922337203685477.5807"),
        (i64::MIN as i128, "-922337203685477.5808"),
    ];
    for (raw, expected) in cases {
        let n = YololNumber::from_inner(raw);
        assert_eq!(n.to_string(), expected, "raw: {}", raw);
    }
}

#[test]
fn round_trip_test() {
    let raws: [i128; 16] = [
        0,
        1,
        -1,
        9,
        10,
        -10,
        1_0000,
        -1_0000,
        1_2345,
        -1_2345,
        5808,
        -5808,
        123456789_0001,
        -123456789_0001,
        i64::MAX as i128,
        i64::MIN as i128,
    ];
    for raw in raws {
        let n = YololNumber::from_inner(raw);
        let s = n.to_string();
        let back: YololNumber = s.parse().unwrap();
        assert_eq!(back, n, "string form: {:?}", s);
    }
}

#[test]
fn round_trip_sweep_test() {
    // A dense sweep around zero and a strided sweep across the range.
    for raw in -25000i128..25000i128 {
        let n = YololNumber::from_inner(raw);
        let back: YololNumber = n.to_string().parse().unwrap();
        assert_eq!(back, n);
    }
    let mut raw: i128 = i64::MIN as i128;
    while raw < i64::MAX as i128 {
        let n = YololNumber::from_inner(raw);
        let back: YololNumber = n.to_string().parse().unwrap();
        assert_eq!(back, n);
        raw += 36028797018963967; // a large odd stride, hitting varied digits
    }
}
