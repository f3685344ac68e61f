use yolol_number::YololNumber;
use yolol_number::YololOps;

#[test]
fn saturation_test() {
    let max = YololNumber::max_value();
    let min = YololNumber::min_value();

    assert_eq!(max + max, max);
    assert_eq!(min - max, min);
    assert_eq!(min + min, min);
    assert_eq!(max * max, max);
    assert_eq!(min * max, min);
    assert_eq!(-min, max);
}

#[test]
fn division_by_zero_test() {
    let zero = YololNumber::zero();
    for raw in [0i128, 1, -1, 12345, i64::MAX as i128, i64::MIN as i128] {
        let n = YololNumber::from_inner(raw);
        assert!(n.checked_div(&zero).is_none());
        assert_eq!(n / zero, zero);
    }
    let ten = YololNumber::from_value(10);
    let two = YololNumber::from_value(2);
    assert_eq!(ten.checked_div(&two).unwrap(), YololNumber::from_value(5));
}

#[test]
fn multiply_rescale_test() {
    let a = YololNumber::from_inner(10_0000);
    let b = YololNumber::from_inner(4_0000);
    assert_eq!(a.get_inner(), 100000);
    assert_eq!(b.get_inner(), 40000);
    let product = a * b;
    assert_eq!(product, YololNumber::from_inner(40_0000));
    assert_eq!(product.get_inner(), 400000);
}

#[test]
fn operator_test() {
    let a = YololNumber::from_value(7);
    let b = YololNumber::from_value(2);
    assert_eq!((a + b).get_inner(), 9_0000);
    assert_eq!((a - b).get_inner(), 5_0000);
    assert_eq!((a * b).get_inner(), 14_0000);
    assert_eq!((a / b).get_inner(), 3_5000);
    assert_eq!((a % b).get_inner(), 1_0000);
    assert_eq!((-a).get_inner(), -7_0000);
    assert_eq!(!a, YololNumber::zero());
    assert_eq!(!YololNumber::zero(), YololNumber::one());
}

#[test]
fn checked_ops_test() {
    let a = YololNumber::from_value(3);
    let b = YololNumber::from_value(4);
    assert_eq!(a.checked_add(&b).unwrap(), YololNumber::from_value(7));
    assert_eq!(a.checked_sub(&b).unwrap(), YololNumber::from_value(-1));
    assert_eq!(a.checked_mul(&b).unwrap(), YololNumber::from_value(12));
    assert_eq!(a.checked_rem(&b).unwrap(), YololNumber::from_value(3));
    assert!(a.checked_rem(&YololNumber::zero()).is_none());
    // The remainder follows the dividend's sign; a zero divisor yields
    // zero through the operator.
    let c = YololNumber::from_value(-7);
    assert_eq!((c % b).get_inner(), -3_0000);
    assert_eq!(c % YololNumber::zero(), YololNumber::zero());
}

#[test]
fn sign_helpers_test() {
    let pos = YololNumber::from_value(2);
    let neg = YololNumber::from_value(-2);
    let zero = YololNumber::zero();

    assert!(pos.is_positive() && !pos.is_negative());
    assert!(neg.is_negative() && !neg.is_positive());
    assert!(!zero.is_positive() && !zero.is_negative());

    assert_eq!(pos.signum(), YololNumber::one());
    assert_eq!(neg.signum(), -YololNumber::one());
    assert_eq!(zero.signum(), zero);

    assert_eq!(neg.abs(), pos);
    assert_eq!(YololNumber::min_value().abs(), YololNumber::max_value());

    assert_eq!(pos.abs_sub(&neg), YololNumber::from_value(4));
    assert_eq!(neg.abs_sub(&pos), zero);
}

#[test]
fn floor_ceiling_test() {
    let n = YololNumber::from_inner(2_5000);
    assert_eq!(n.floor(), YololNumber::from_value(2));
    assert_eq!(n.ceiling(), YololNumber::from_value(3));

    let m = YololNumber::from_inner(-2_5000);
    // Truncation toward zero on the negative side.
    assert_eq!(m.floor(), YololNumber::from_value(-2));
    // The historical adjustment adds a full step past the remainder.
    assert_eq!(m.ceiling().get_inner(), -1_0000);
    // A whole value still moves up by one whole step.
    assert_eq!(YololNumber::zero().ceiling(), YololNumber::one());
}

#[test]
fn clamp_test() {
    let n = YololNumber::from_value(12);
    assert_eq!(n.clamp(0, 10), YololNumber::from_value(10));
    assert_eq!(n.clamp(0, 20), n);
    assert_eq!(YololNumber::from_value(-5).clamp(0, 10), YololNumber::zero());
}

#[test]
fn construction_test() {
    assert_eq!(YololNumber::from_value(45).get_inner(), 45_0000);
    assert_eq!(YololNumber::from_inner(45).get_inner(), 45);
    assert_eq!(YololNumber::from_inner(i128::MAX), YololNumber::max_value());
    assert_eq!(YololNumber::from_inner(i128::MIN), YololNumber::min_value());

    let split = YololNumber::from_split(3, 1415).unwrap();
    assert_eq!(split.get_inner(), 3_1415);
    let neg_split = YololNumber::from_split(-3, -1415).unwrap();
    assert_eq!(neg_split.get_inner(), -3_1415);
    // The decimal part is reduced modulo the conversion factor.
    let wrapped = YololNumber::from_split(0, 12345).unwrap();
    assert_eq!(wrapped.get_inner(), 2345);

    assert_eq!(YololNumber::truthy(), YololNumber::one());
    assert_eq!(YololNumber::falsy(), YololNumber::zero());
    assert_eq!(YololNumber::from(true), YololNumber::one());
    assert_eq!(YololNumber::from(false), YololNumber::zero());

    assert!(YololNumber::zero().is_zero());
    assert!(!YololNumber::one().is_zero());

    let n = YololNumber::from_value(9);
    assert_eq!(n.bound(), n);
}

#[test]
fn value_access_test() {
    let n = YololNumber::from_inner(7_5000);
    assert_eq!(n.get_value(), 7);
    assert_eq!(YololNumber::from_inner(-7_5000).get_value(), -7);

    assert_eq!(YololNumber::num_places(), 4);
    assert_eq!(YololNumber::conversion_val(), 10000);

    assert_eq!(YololNumber::from_i64(42).unwrap().get_inner(), 42);
    assert_eq!(YololNumber::from_u64(42).unwrap().get_inner(), 42);
    assert_eq!(
        YololNumber::from_u64(u64::MAX).unwrap(),
        YololNumber::max_value()
    );
    assert_eq!(n.to_i64().unwrap(), 7_5000);
    assert_eq!(n.to_u64().unwrap(), 7_5000);
    assert!(YololNumber::from_value(-1).to_u64().is_none());
}

#[test]
fn engine_test() {
    let max = i64::MAX as i128;
    let min = i64::MIN as i128;

    assert_eq!(max.yolol_add(max), max);
    assert_eq!(min.yolol_sub(max), min);
    assert_eq!(5i128.yolol_add(7), 12);
    assert_eq!(10_0000i128.yolol_mul(4_0000), 40_0000);
    assert_eq!(1_0000i128.yolol_div(2_0000), Some(5000));
    assert_eq!(1_0000i128.yolol_div(0), None);
    assert_eq!(7i128.yolol_mod(4), 3);
    assert_eq!((-7i128).yolol_mod(4), -3);
    assert_eq!(7i128.yolol_mod(0), 0);

    assert!(max.would_overflow_add(1));
    assert!(!max.would_overflow_add(0));
    assert!(min.would_underflow_add(-1));
    assert!(!min.would_underflow_add(0));
    assert!(max.would_overflow_mul(2));
    assert!(!1i128.would_overflow_mul(0));
    assert!(min.would_underflow_mul(2));
    assert!(!1i128.would_underflow_mul(0));
}
