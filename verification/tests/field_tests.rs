use fresh_air::field::{BaseElement, MODULUS};

#[test]
fn modulus_is_the_stark_prime() {
    assert_eq!(MODULUS, (1u128 << 127) - 45 * (1u128 << 40) + (1u128 << 127) + 1);
    assert_eq!(MODULUS, 340282366920938463463374557953744961537);
}

#[test]
fn zero_and_one() {
    assert_eq!(BaseElement::zero().as_int(), 0);
    assert_eq!(BaseElement::one().as_int(), 1);
}

#[test]
fn new_keeps_canonical_values() {
    assert_eq!(BaseElement::new(0).unwrap().as_int(), 0);
    assert_eq!(BaseElement::new(12345).unwrap().as_int(), 12345);
    assert_eq!(BaseElement::new(MODULUS - 1).unwrap().as_int(), MODULUS - 1);
}

#[test]
fn new_rejects_values_at_or_above_the_modulus() {
    assert!(BaseElement::new(MODULUS).is_none());
    assert!(BaseElement::new(MODULUS + 5).is_none());
    assert!(BaseElement::new(u128::MAX).is_none());
}

#[test]
fn from_u64_is_the_integer_itself() {
    assert_eq!(BaseElement::from_u64(0).as_int(), 0);
    assert_eq!(BaseElement::from_u64(7).as_int(), 7);
    assert_eq!(BaseElement::from_u64(u64::MAX).as_int(), u64::MAX as u128);
}

#[test]
fn add_without_wrap() {
    let a = BaseElement::from_u64(3);
    let b = BaseElement::from_u64(4);
    assert_eq!(a.add(b).as_int(), 7);
    let c = BaseElement::from_u64(u64::MAX);
    assert_eq!(c.add(c).as_int(), 2 * (u64::MAX as u128));
}

#[test]
fn add_wraps_at_the_modulus() {
    let top = BaseElement::new(MODULUS - 1).unwrap();
    assert_eq!(top.add(BaseElement::one()).as_int(), 0);
    assert_eq!(top.add(BaseElement::from_u64(10)).as_int(), 9);
    assert_eq!(top.add(top).as_int(), MODULUS - 2);
}

#[test]
fn sub_without_wrap() {
    let a = BaseElement::from_u64(13);
    let b = BaseElement::from_u64(10);
    assert_eq!(a.sub(b).as_int(), 3);
    assert_eq!(a.sub(a).as_int(), 0);
}

#[test]
fn sub_wraps_below_zero() {
    let a = BaseElement::from_u64(10);
    let b = BaseElement::from_u64(100);
    assert_eq!(a.sub(b).as_int(), MODULUS - 90);
    assert_eq!(BaseElement::zero().sub(BaseElement::one()).as_int(), MODULUS - 1);
}

#[test]
fn mul_small_values() {
    let a = BaseElement::from_u64(6);
    let b = BaseElement::from_u64(7);
    assert_eq!(a.mul(b).as_int(), 42);
    assert_eq!(a.mul(BaseElement::zero()).as_int(), 0);
    assert_eq!(BaseElement::zero().mul(a).as_int(), 0);
    assert_eq!(a.mul(BaseElement::one()).as_int(), 6);
    assert_eq!(BaseElement::one().mul(a).as_int(), 6);
}

#[test]
fn mul_reduces_large_products() {
    let minus_one = BaseElement::new(MODULUS - 1).unwrap();
    assert_eq!(minus_one.mul(minus_one).as_int(), 1);
    assert_eq!(minus_one.mul(BaseElement::from_u64(2)).as_int(), MODULUS - 2);
    // 2^64 * 2^64 = 2^128 = 45 * 2^40 - 1 in the field
    let two_64 = BaseElement::new(1u128 << 64).unwrap();
    assert_eq!(two_64.mul(two_64).as_int(), 45 * (1u128 << 40) - 1);
    let c = BaseElement::from_u64(u64::MAX);
    assert_eq!(c.mul(c).as_int(), (u64::MAX as u128) * (u64::MAX as u128));
}

#[test]
fn mul_is_commutative_on_samples() {
    let a = BaseElement::new(MODULUS - 12345).unwrap();
    let b = BaseElement::new(98765432109876543210987654321).unwrap();
    assert_eq!(a.mul(b), b.mul(a));
    // (p - 12345) * b = -(12345 * b)
    let direct = BaseElement::from_u64(12345).mul(b);
    assert_eq!(a.mul(b), BaseElement::zero().sub(direct));
}

#[test]
fn is_greater_compares_representatives() {
    let a = BaseElement::from_u64(13);
    let b = BaseElement::from_u64(10);
    assert!(a.is_greater(&b));
    assert!(!b.is_greater(&a));
    assert!(!a.is_greater(&a));
    let top = BaseElement::new(MODULUS - 1).unwrap();
    assert!(top.is_greater(&a));
    assert!(!BaseElement::zero().is_greater(&BaseElement::zero()));
}

#[test]
fn elements_compare_by_value() {
    assert_eq!(BaseElement::new(3).unwrap(), BaseElement::from_u64(3));
    assert_ne!(BaseElement::from_u64(3), BaseElement::from_u64(4));
}
