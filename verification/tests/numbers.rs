use quake_map::number::integer::Integer;
use quake_map::number::natural::{Natural, Sign};
use quake_map::number::rational::Rational;
use quake_map::vector::{Vec2, Vec3};

fn natural(text: &str) -> Natural {
    let mut n = Natural::zero();
    for b in text.bytes() {
        n = n.mul_small_add(10, (b - b'0') as u32);
    }
    n
}

fn same(a: &Natural, b: &Natural) -> bool {
    a.compare(b) == Sign::Zero
}

fn rat(numerator: i64, denominator: u64) -> Rational {
    Rational::from_ratio(numerator, denominator).unwrap()
}

#[test]
fn natural_addition_carries_across_limbs() {
    let a = Natural::from_u64(u64::MAX);
    let one = Natural::from_u64(1);
    let sum = a.add(&one);
    assert!(same(&sum, &natural("18446744073709551616")));
    assert_eq!(sum.compare(&a), Sign::Positive);
    assert_eq!(a.compare(&sum), Sign::Negative);
    assert!(same(&Natural::zero().add(&Natural::zero()), &Natural::zero()));
    assert!(Natural::zero().is_zero());
    assert!(!one.is_zero());
    assert!(Natural::from_limbs(vec![0, 0, 0]).is_zero());
    assert!(same(&Natural::from_limbs(vec![5, 0]), &Natural::from_u64(5)));
}

#[test]
fn natural_subtraction_borrows_across_limbs() {
    let big = natural("18446744073709551616");
    let one = Natural::from_u64(1);
    let difference = big.checked_sub(&one).unwrap();
    assert!(same(&difference, &Natural::from_u64(u64::MAX)));
    assert!(one.checked_sub(&big).is_none());
    assert!(big.checked_sub(&big).unwrap().is_zero());
}

#[test]
fn natural_multiplication() {
    let a = natural("123456789012345678901234567890");
    let b = natural("987654321098765432109876543210");
    let product = a.mul(&b);
    assert!(same(
        &product,
        &natural("121932631137021795226185032733622923332237463801111263526900")
    ));
    assert!(same(&b.mul(&a), &product));
    assert!(a.mul(&Natural::zero()).is_zero());
    assert!(same(&a.mul(&Natural::from_u64(1)), &a));
    assert!(same(&Natural::from_u64(7).mul_small_add(6, 5), &Natural::from_u64(47)));
    assert_eq!(Natural::from_u64(0x1_0000_0005).limbs()[0], 5);
}

#[test]
fn integer_arithmetic_with_signs() {
    let a = Integer::from_i64(-7);
    let b = Integer::from_i64(3);
    assert_eq!(a.add(&b).compare(&Integer::from_i64(-4)), Sign::Zero);
    assert_eq!(b.add(&a).compare(&Integer::from_i64(-4)), Sign::Zero);
    assert_eq!(a.sub(&b).compare(&Integer::from_i64(-10)), Sign::Zero);
    assert_eq!(b.sub(&a).compare(&Integer::from_i64(10)), Sign::Zero);
    assert_eq!(a.mul(&b).compare(&Integer::from_i64(-21)), Sign::Zero);
    assert_eq!(a.mul(&a).compare(&Integer::from_i64(49)), Sign::Zero);
    assert_eq!(a.neg().compare(&Integer::from_i64(7)), Sign::Zero);
    assert_eq!(a.sign(), Sign::Negative);
    assert_eq!(b.sign(), Sign::Positive);
    assert_eq!(a.add(&a.neg()).sign(), Sign::Zero);
    assert!(Integer::zero().is_zero());
    assert_eq!(a.compare(&b), Sign::Negative);
    let least = Integer::from_i64(i64::MIN);
    assert_eq!(least.add(&Integer::from_i64(i64::MAX)).compare(&Integer::from_i64(-1)), Sign::Zero);
    assert_eq!(
        Integer::from_parts(true, Natural::from_u64(5)).compare(&Integer::from_i64(-5)),
        Sign::Zero
    );
    assert_eq!(a.magnitude().compare(&Natural::from_u64(7)), Sign::Zero);
    assert_eq!(a.mul_natural(&Natural::from_u64(2)).compare(&Integer::from_i64(-14)), Sign::Zero);
}

#[test]
fn rational_arithmetic_is_exact() {
    let third = rat(1, 3);
    let sixth = rat(1, 6);
    assert!(third.add(&sixth).equals(&rat(1, 2)));
    assert!(third.sub(&sixth).equals(&sixth));
    assert!(third.mul(&sixth).equals(&rat(1, 18)));
    assert!(third.div(&sixth).unwrap().equals(&Rational::from_i64(2)));
    assert!(third.div(&rat(-1, 6)).unwrap().equals(&Rational::from_i64(-2)));
    assert!(third.div(&Rational::zero()).is_none());
    assert!(third.neg().equals(&rat(-1, 3)));
    assert!(rat(2, 6).equals(&third));
    assert!(sixth.lt(&third));
    assert!(!third.lt(&sixth));
    assert!(third.le(&third));
    assert!(rat(-1, 2).lt(&rat(-1, 3)));
    assert_eq!(third.compare(&sixth), Sign::Positive);
    assert_eq!(rat(-5, 7).sign(), Sign::Negative);
    assert!(rat(-5, 7).abs().equals(&rat(5, 7)));
    assert!(rat(0, 9).is_zero());
    assert!(Rational::from_ratio(1, 0).is_none());
    assert!(Rational::new(Integer::from_i64(1), Natural::zero()).is_none());
    assert!(Rational::from_u64(4).equals(&rat(8, 2)));
    // One tenth added ten times is exactly one.
    let tenth = rat(1, 10);
    let mut sum = Rational::zero();
    for _ in 0..10 {
        sum = sum.add(&tenth);
    }
    assert!(sum.equals(&Rational::from_i64(1)));
    assert_eq!(third.denominator().compare(&Natural::from_u64(3)), Sign::Zero);
    assert_eq!(third.numerator().compare(&Integer::from_i64(1)), Sign::Zero);
}

#[test]
fn vector_products() {
    let a = Vec3::from_i64(1, 2, 3);
    let b = Vec3::from_i64(-4, 5, 6);
    assert!(a.dot(&b).equals(&Rational::from_i64(24)));
    assert!(a.cross(&b).equals(&Vec3::from_i64(-3, -18, 13)));
    assert!(b.cross(&a).equals(&Vec3::from_i64(3, 18, -13)));
    assert!(a.add(&b).equals(&Vec3::from_i64(-3, 7, 9)));
    assert!(a.sub(&b).equals(&Vec3::from_i64(5, -3, -3)));
    assert!(a.scale(&rat(1, 2)).equals(&Vec3::new(rat(1, 2), Rational::from_i64(1), rat(3, 2))));
    assert!(a.div(&Rational::from_i64(2)).unwrap().equals(&a.scale(&rat(1, 2))));
    assert!(a.div(&Rational::zero()).is_none());
    assert!(Vec3::zero().is_zero());
    assert!(!a.is_zero());
    assert!(a.cross(&a).is_zero());
    assert!(a.abs_diff_eq(&Vec3::new(rat(1001, 1000), Rational::from_i64(2), rat(2999, 1000)), &rat(1, 1000)));
    assert!(!a.abs_diff_eq(&Vec3::new(rat(1002, 1000), Rational::from_i64(2), Rational::from_i64(3)), &rat(1, 1000)));
    let p = Vec2::new(Rational::from_i64(3), Rational::from_i64(4));
    let q = Vec2::new(Rational::from_i64(-1), Rational::from_i64(2));
    assert!(p.cross(&q).equals(&Rational::from_i64(10)));
    assert!(p.norm_squared().equals(&Rational::from_i64(25)));
    assert!(p.sub(&q).equals(&Vec2::new(Rational::from_i64(4), Rational::from_i64(2))));
}
