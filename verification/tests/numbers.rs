use crunch_eval::number::{
    checked_int_pow, parse_decimal, Add, Div, Mul, Neg, Number, Pow, Rem, Sub,
};
use crunch_eval::EvalError;

fn chars(text: &str) -> Vec<char> {
    text.chars().collect()
}

#[test]
fn i8_sums_and_differences() {
    assert_eq!(Add::add(&3i8, 4), Some(7));
    assert_eq!(Add::add(&i8::MAX, 1), None);
    assert_eq!(Add::add(&i8::MIN, -1), None);
    assert_eq!(Sub::sub(&3i8, 4), Some(-1));
    assert_eq!(Sub::sub(&i8::MIN, 1), None);
    assert_eq!(Sub::sub(&i8::MAX, -1), None);
}

#[test]
fn i8_products() {
    assert_eq!(Mul::mul(&3i8, -4), Some(-12));
    assert_eq!(Mul::mul(&i8::MAX, 2), None);
    assert_eq!(Mul::mul(&i8::MIN, -1), None);
}

#[test]
fn i8_quotients_round_towards_zero() {
    assert_eq!(Div::div(&7i8, 2), Some(3));
    assert_eq!(Div::div(&7i8, -2), Some(-3));
    assert_eq!(Div::div(&-7i8, 2), Some(-3));
    assert_eq!(Div::div(&-7i8, -2), Some(3));
    assert_eq!(Div::div(&7i8, 0), None);
    assert_eq!(Div::div(&i8::MIN, -1), None);
    assert_eq!(Div::div(&i8::MIN, 1), Some(i8::MIN));
}

#[test]
fn i8_remainders_have_the_sign_of_the_dividend() {
    assert_eq!(Rem::rem(&7i8, 2), Some(1));
    assert_eq!(Rem::rem(&7i8, -2), Some(1));
    assert_eq!(Rem::rem(&-7i8, 2), Some(-1));
    assert_eq!(Rem::rem(&-7i8, -2), Some(-1));
    assert_eq!(Rem::rem(&7i8, 0), None);
    assert_eq!(Rem::rem(&i8::MIN, -1), None);
}

#[test]
fn i8_negation() {
    assert_eq!(Neg::checked_neg(&5i8), Some(-5));
    assert_eq!(Neg::checked_neg(&-5i8), Some(5));
    assert_eq!(Neg::checked_neg(&i8::MIN), None);
    assert_eq!(Neg::neg(&5i8), -5);
}

#[test]
fn i8_powers() {
    assert_eq!(Pow::pow(&2i8, 3), Ok(8));
    assert_eq!(Pow::pow(&-2i8, 3), Ok(-8));
    assert_eq!(Pow::pow(&7i8, 0), Ok(1));
    assert_eq!(Pow::pow(&0i8, 0), Ok(1));
    assert_eq!(Pow::pow(&0i8, 5), Ok(0));
    assert_eq!(Pow::pow(&1i8, i8::MAX), Ok(1));
    assert_eq!(Pow::pow(&-1i8, i8::MAX), Ok(-1));
    assert_eq!(Pow::pow(&-1i8, i8::MAX - 1), Ok(1));
    assert_eq!(Pow::pow(&2i8, 6), Ok(i8::MAX / 2 + 1));
    assert_eq!(Pow::pow(&2i8, 7), Err(EvalError::Overflow));
    assert_eq!(Pow::pow(&-2i8, 7), Ok(i8::MIN));
    assert_eq!(Pow::pow(&-2i8, 8), Err(EvalError::Overflow));
    assert_eq!(Pow::pow(&2i8, i8::MAX), Err(EvalError::Overflow));
    assert_eq!(Pow::pow(&2i8, -1), Err(EvalError::NegativeIntegerExponent));
    assert_eq!(Pow::pow(&0i8, -1), Err(EvalError::NegativeIntegerExponent));
}

#[test]
fn i8_literals() {
    assert_eq!(<i8 as Number>::zero(), 0);
    assert_eq!(<i8 as Number>::parse(&chars("42")), Some(42));
    assert_eq!(<i8 as Number>::parse(&chars("007")), Some(7));
    assert_eq!(<i8 as Number>::parse(&chars(&i8::MAX.to_string())), Some(i8::MAX));
    assert_eq!(<i8 as Number>::parse(&chars(&format!("{}0", i8::MAX))), None);
    assert_eq!(<i8 as Number>::parse(&chars("1.5")), None);
    assert_eq!(<i8 as Number>::parse(&chars(".")), None);
    let digits = chars("12");
    assert_eq!(<i8 as Number>::parse(&digits), "12".parse::<i8>().ok());
}

#[test]
fn i16_sums_and_differences() {
    assert_eq!(Add::add(&3i16, 4), Some(7));
    assert_eq!(Add::add(&i16::MAX, 1), None);
    assert_eq!(Add::add(&i16::MIN, -1), None);
    assert_eq!(Sub::sub(&3i16, 4), Some(-1));
    assert_eq!(Sub::sub(&i16::MIN, 1), None);
    assert_eq!(Sub::sub(&i16::MAX, -1), None);
}

#[test]
fn i16_products() {
    assert_eq!(Mul::mul(&3i16, -4), Some(-12));
    assert_eq!(Mul::mul(&i16::MAX, 2), None);
    assert_eq!(Mul::mul(&i16::MIN, -1), None);
}

#[test]
fn i16_quotients_round_towards_zero() {
    assert_eq!(Div::div(&7i16, 2), Some(3));
    assert_eq!(Div::div(&7i16, -2), Some(-3));
    assert_eq!(Div::div(&-7i16, 2), Some(-3));
    assert_eq!(Div::div(&-7i16, -2), Some(3));
    assert_eq!(Div::div(&7i16, 0), None);
    assert_eq!(Div::div(&i16::MIN, -1), None);
    assert_eq!(Div::div(&i16::MIN, 1), Some(i16::MIN));
}

#[test]
fn i16_remainders_have_the_sign_of_the_dividend() {
    assert_eq!(Rem::rem(&7i16, 2), Some(1));
    assert_eq!(Rem::rem(&7i16, -2), Some(1));
    assert_eq!(Rem::rem(&-7i16, 2), Some(-1));
    assert_eq!(Rem::rem(&-7i16, -2), Some(-1));
    assert_eq!(Rem::rem(&7i16, 0), None);
    assert_eq!(Rem::rem(&i16::MIN, -1), None);
}

#[test]
fn i16_negation() {
    assert_eq!(Neg::checked_neg(&5i16), Some(-5));
    assert_eq!(Neg::checked_neg(&-5i16), Some(5));
    assert_eq!(Neg::checked_neg(&i16::MIN), None);
    assert_eq!(Neg::neg(&5i16), -5);
}

#[test]
fn i16_powers() {
    assert_eq!(Pow::pow(&2i16, 3), Ok(8));
    assert_eq!(Pow::pow(&-2i16, 3), Ok(-8));
    assert_eq!(Pow::pow(&7i16, 0), Ok(1));
    assert_eq!(Pow::pow(&0i16, 0), Ok(1));
    assert_eq!(Pow::pow(&0i16, 5), Ok(0));
    assert_eq!(Pow::pow(&1i16, i16::MAX), Ok(1));
    assert_eq!(Pow::pow(&-1i16, i16::MAX), Ok(-1));
    assert_eq!(Pow::pow(&-1i16, i16::MAX - 1), Ok(1));
    assert_eq!(Pow::pow(&2i16, 14), Ok(i16::MAX / 2 + 1));
    assert_eq!(Pow::pow(&2i16, 15), Err(EvalError::Overflow));
    assert_eq!(Pow::pow(&-2i16, 15), Ok(i16::MIN));
    assert_eq!(Pow::pow(&-2i16, 16), Err(EvalError::Overflow));
    assert_eq!(Pow::pow(&2i16, i16::MAX), Err(EvalError::Overflow));
    assert_eq!(Pow::pow(&2i16, -1), Err(EvalError::NegativeIntegerExponent));
    assert_eq!(Pow::pow(&0i16, -1), Err(EvalError::NegativeIntegerExponent));
}

#[test]
fn i16_literals() {
    assert_eq!(<i16 as Number>::zero(), 0);
    assert_eq!(<i16 as Number>::parse(&chars("42")), Some(42));
    assert_eq!(<i16 as Number>::parse(&chars("007")), Some(7));
    assert_eq!(<i16 as Number>::parse(&chars(&i16::MAX.to_string())), Some(i16::MAX));
    assert_eq!(<i16 as Number>::parse(&chars(&format!("{}0", i16::MAX))), None);
    assert_eq!(<i16 as Number>::parse(&chars("1.5")), None);
    assert_eq!(<i16 as Number>::parse(&chars(".")), None);
    let digits = chars("12");
    assert_eq!(<i16 as Number>::parse(&digits), "12".parse::<i16>().ok());
}

#[test]
fn i32_sums_and_differences() {
    assert_eq!(Add::add(&3i32, 4), Some(7));
    assert_eq!(Add::add(&i32::MAX, 1), None);
    assert_eq!(Add::add(&i32::MIN, -1), None);
    assert_eq!(Sub::sub(&3i32, 4), Some(-1));
    assert_eq!(Sub::sub(&i32::MIN, 1), None);
    assert_eq!(Sub::sub(&i32::MAX, -1), None);
}

#[test]
fn i32_products() {
    assert_eq!(Mul::mul(&3i32, -4), Some(-12));
    assert_eq!(Mul::mul(&i32::MAX, 2), None);
    assert_eq!(Mul::mul(&i32::MIN, -1), None);
}

#[test]
fn i32_quotients_round_towards_zero() {
    assert_eq!(Div::div(&7i32, 2), Some(3));
    assert_eq!(Div::div(&7i32, -2), Some(-3));
    assert_eq!(Div::div(&-7i32, 2), Some(-3));
    assert_eq!(Div::div(&-7i32, -2), Some(3));
    assert_eq!(Div::div(&7i32, 0), None);
    assert_eq!(Div::div(&i32::MIN, -1), None);
    assert_eq!(Div::div(&i32::MIN, 1), Some(i32::MIN));
}

#[test]
fn i32_remainders_have_the_sign_of_the_dividend() {
    assert_eq!(Rem::rem(&7i32, 2), Some(1));
    assert_eq!(Rem::rem(&7i32, -2), Some(1));
    assert_eq!(Rem::rem(&-7i32, 2), Some(-1));
    assert_eq!(Rem::rem(&-7i32, -2), Some(-1));
    assert_eq!(Rem::rem(&7i32, 0), None);
    assert_eq!(Rem::rem(&i32::MIN, -1), None);
}

#[test]
fn i32_negation() {
    assert_eq!(Neg::checked_neg(&5i32), Some(-5));
    assert_eq!(Neg::checked_neg(&-5i32), Some(5));
    assert_eq!(Neg::checked_neg(&i32::MIN), None);
    assert_eq!(Neg::neg(&5i32), -5);
}

#[test]
fn i32_powers() {
    assert_eq!(Pow::pow(&2i32, 3), Ok(8));
    assert_eq!(Pow::pow(&-2i32, 3), Ok(-8));
    assert_eq!(Pow::pow(&7i32, 0), Ok(1));
    assert_eq!(Pow::pow(&0i32, 0), Ok(1));
    assert_eq!(Pow::pow(&0i32, 5), Ok(0));
    assert_eq!(Pow::pow(&1i32, i32::MAX), Ok(1));
    assert_eq!(Pow::pow(&-1i32, i32::MAX), Ok(-1));
    assert_eq!(Pow::pow(&-1i32, i32::MAX - 1), Ok(1));
    assert_eq!(Pow::pow(&2i32, 30), Ok(i32::MAX / 2 + 1));
    assert_eq!(Pow::pow(&2i32, 31), Err(EvalError::Overflow));
    assert_eq!(Pow::pow(&-2i32, 31), Ok(i32::MIN));
    assert_eq!(Pow::pow(&-2i32, 32), Err(EvalError::Overflow));
    assert_eq!(Pow::pow(&2i32, i32::MAX), Err(EvalError::Overflow));
    assert_eq!(Pow::pow(&2i32, -1), Err(EvalError::NegativeIntegerExponent));
    assert_eq!(Pow::pow(&0i32, -1), Err(EvalError::NegativeIntegerExponent));
}

#[test]
fn i32_literals() {
    assert_eq!(<i32 as Number>::zero(), 0);
    assert_eq!(<i32 as Number>::parse(&chars("42")), Some(42));
    assert_eq!(<i32 as Number>::parse(&chars("007")), Some(7));
    assert_eq!(<i32 as Number>::parse(&chars(&i32::MAX.to_string())), Some(i32::MAX));
    assert_eq!(<i32 as Number>::parse(&chars(&format!("{}0", i32::MAX))), None);
    assert_eq!(<i32 as Number>::parse(&chars("1.5")), None);
    assert_eq!(<i32 as Number>::parse(&chars(".")), None);
    let digits = chars("12");
    assert_eq!(<i32 as Number>::parse(&digits), "12".parse::<i32>().ok());
}

#[test]
fn i64_sums_and_differences() {
    assert_eq!(Add::add(&3i64, 4), Some(7));
    assert_eq!(Add::add(&i64::MAX, 1), None);
    assert_eq!(Add::add(&i64::MIN, -1), None);
    assert_eq!(Sub::sub(&3i64, 4), Some(-1));
    assert_eq!(Sub::sub(&i64::MIN, 1), None);
    assert_eq!(Sub::sub(&i64::MAX, -1), None);
}

#[test]
fn i64_products() {
    assert_eq!(Mul::mul(&3i64, -4), Some(-12));
    assert_eq!(Mul::mul(&i64::MAX, 2), None);
    assert_eq!(Mul::mul(&i64::MIN, -1), None);
}

#[test]
fn i64_quotients_round_towards_zero() {
    assert_eq!(Div::div(&7i64, 2), Some(3));
    assert_eq!(Div::div(&7i64, -2), Some(-3));
    assert_eq!(Div::div(&-7i64, 2), Some(-3));
    assert_eq!(Div::div(&-7i64, -2), Some(3));
    assert_eq!(Div::div(&7i64, 0), None);
    assert_eq!(Div::div(&i64::MIN, -1), None);
    assert_eq!(Div::div(&i64::MIN, 1), Some(i64::MIN));
}

#[test]
fn i64_remainders_have_the_sign_of_the_dividend() {
    assert_eq!(Rem::rem(&7i64, 2), Some(1));
    assert_eq!(Rem::rem(&7i64, -2), Some(1));
    assert_eq!(Rem::rem(&-7i64, 2), Some(-1));
    assert_eq!(Rem::rem(&-7i64, -2), Some(-1));
    assert_eq!(Rem::rem(&7i64, 0), None);
    assert_eq!(Rem::rem(&i64::MIN, -1), None);
}

#[test]
fn i64_negation() {
    assert_eq!(Neg::checked_neg(&5i64), Some(-5));
    assert_eq!(Neg::checked_neg(&-5i64), Some(5));
    assert_eq!(Neg::checked_neg(&i64::MIN), None);
    assert_eq!(Neg::neg(&5i64), -5);
}

#[test]
fn i64_powers() {
    assert_eq!(Pow::pow(&2i64, 3), Ok(8));
    assert_eq!(Pow::pow(&-2i64, 3), Ok(-8));
    assert_eq!(Pow::pow(&7i64, 0), Ok(1));
    assert_eq!(Pow::pow(&0i64, 0), Ok(1));
    assert_eq!(Pow::pow(&0i64, 5), Ok(0));
    assert_eq!(Pow::pow(&1i64, i64::MAX), Ok(1));
    assert_eq!(Pow::pow(&-1i64, i64::MAX), Ok(-1));
    assert_eq!(Pow::pow(&-1i64, i64::MAX - 1), Ok(1));
    assert_eq!(Pow::pow(&2i64, 62), Ok(i64::MAX / 2 + 1));
    assert_eq!(Pow::pow(&2i64, 63), Err(EvalError::Overflow));
    assert_eq!(Pow::pow(&-2i64, 63), Ok(i64::MIN));
    assert_eq!(Pow::pow(&-2i64, 64), Err(EvalError::Overflow));
    assert_eq!(Pow::pow(&2i64, i64::MAX), Err(EvalError::Overflow));
    assert_eq!(Pow::pow(&2i64, -1), Err(EvalError::NegativeIntegerExponent));
    assert_eq!(Pow::pow(&0i64, -1), Err(EvalError::NegativeIntegerExponent));
}

#[test]
fn i64_literals() {
    assert_eq!(<i64 as Number>::zero(), 0);
    assert_eq!(<i64 as Number>::parse(&chars("42")), Some(42));
    assert_eq!(<i64 as Number>::parse(&chars("007")), Some(7));
    assert_eq!(<i64 as Number>::parse(&chars(&i64::MAX.to_string())), Some(i64::MAX));
    assert_eq!(<i64 as Number>::parse(&chars(&format!("{}0", i64::MAX))), None);
    assert_eq!(<i64 as Number>::parse(&chars("1.5")), None);
    assert_eq!(<i64 as Number>::parse(&chars(".")), None);
    let digits = chars("12");
    assert_eq!(<i64 as Number>::parse(&digits), "12".parse::<i64>().ok());
}

#[test]
fn i128_sums_and_differences() {
    assert_eq!(Add::add(&3i128, 4), Some(7));
    assert_eq!(Add::add(&i128::MAX, 1), None);
    assert_eq!(Add::add(&i128::MIN, -1), None);
    assert_eq!(Sub::sub(&3i128, 4), Some(-1));
    assert_eq!(Sub::sub(&i128::MIN, 1), None);
    assert_eq!(Sub::sub(&i128::MAX, -1), None);
}

#[test]
fn i128_products() {
    assert_eq!(Mul::mul(&3i128, -4), Some(-12));
    assert_eq!(Mul::mul(&i128::MAX, 2), None);
    assert_eq!(Mul::mul(&i128::MIN, -1), None);
}

#[test]
fn i128_quotients_round_towards_zero() {
    assert_eq!(Div::div(&7i128, 2), Some(3));
    assert_eq!(Div::div(&7i128, -2), Some(-3));
    assert_eq!(Div::div(&-7i128, 2), Some(-3));
    assert_eq!(Div::div(&-7i128, -2), Some(3));
    assert_eq!(Div::div(&7i128, 0), None);
    assert_eq!(Div::div(&i128::MIN, -1), None);
    assert_eq!(Div::div(&i128::MIN, 1), Some(i128::MIN));
}

#[test]
fn i128_remainders_have_the_sign_of_the_dividend() {
    assert_eq!(Rem::rem(&7i128, 2), Some(1));
    assert_eq!(Rem::rem(&7i128, -2), Some(1));
    assert_eq!(Rem::rem(&-7i128, 2), Some(-1));
    assert_eq!(Rem::rem(&-7i128, -2), Some(-1));
    assert_eq!(Rem::rem(&7i128, 0), None);
    assert_eq!(Rem::rem(&i128::MIN, -1), None);
}

#[test]
fn i128_negation() {
    assert_eq!(Neg::checked_neg(&5i128), Some(-5));
    assert_eq!(Neg::checked_neg(&-5i128), Some(5));
    assert_eq!(Neg::checked_neg(&i128::MIN), None);
    assert_eq!(Neg::neg(&5i128), -5);
}

#[test]
fn i128_powers() {
    assert_eq!(Pow::pow(&2i128, 3), Ok(8));
    assert_eq!(Pow::pow(&-2i128, 3), Ok(-8));
    assert_eq!(Pow::pow(&7i128, 0), Ok(1));
    assert_eq!(Pow::pow(&0i128, 0), Ok(1));
    assert_eq!(Pow::pow(&0i128, 5), Ok(0));
    assert_eq!(Pow::pow(&1i128, i128::MAX), Ok(1));
    assert_eq!(Pow::pow(&-1i128, i128::MAX), Ok(-1));
    assert_eq!(Pow::pow(&-1i128, i128::MAX - 1), Ok(1));
    assert_eq!(Pow::pow(&2i128, 126), Ok(i128::MAX / 2 + 1));
    assert_eq!(Pow::pow(&2i128, 127), Err(EvalError::Overflow));
    assert_eq!(Pow::pow(&-2i128, 127), Ok(i128::MIN));
    assert_eq!(Pow::pow(&-2i128, 128), Err(EvalError::Overflow));
    assert_eq!(Pow::pow(&2i128, i128::MAX), Err(EvalError::Overflow));
    assert_eq!(Pow::pow(&2i128, -1), Err(EvalError::NegativeIntegerExponent));
    assert_eq!(Pow::pow(&0i128, -1), Err(EvalError::NegativeIntegerExponent));
}

#[test]
fn i128_literals() {
    assert_eq!(<i128 as Number>::zero(), 0);
    assert_eq!(<i128 as Number>::parse(&chars("42")), Some(42));
    assert_eq!(<i128 as Number>::parse(&chars("007")), Some(7));
    assert_eq!(<i128 as Number>::parse(&chars(&i128::MAX.to_string())), Some(i128::MAX));
    assert_eq!(<i128 as Number>::parse(&chars(&format!("{}0", i128::MAX))), None);
    assert_eq!(<i128 as Number>::parse(&chars("1.5")), None);
    assert_eq!(<i128 as Number>::parse(&chars(".")), None);
    let digits = chars("12");
    assert_eq!(<i128 as Number>::parse(&digits), "12".parse::<i128>().ok());
}

#[test]
fn u8_sums_and_differences() {
    assert_eq!(Add::add(&3u8, 4), Some(7));
    assert_eq!(Add::add(&u8::MAX, 1), None);
    assert_eq!(Sub::sub(&4u8, 3), Some(1));
    assert_eq!(Sub::sub(&3u8, 4), None);
}

#[test]
fn u8_products() {
    assert_eq!(Mul::mul(&3u8, 4), Some(12));
    assert_eq!(Mul::mul(&u8::MAX, 2), None);
}

#[test]
fn u8_quotients_and_remainders() {
    assert_eq!(Div::div(&7u8, 2), Some(3));
    assert_eq!(Div::div(&7u8, 0), None);
    assert_eq!(Rem::rem(&7u8, 2), Some(1));
    assert_eq!(Rem::rem(&7u8, 0), None);
}

#[test]
fn u8_negation() {
    assert_eq!(Neg::checked_neg(&0u8), Some(0));
    assert_eq!(Neg::checked_neg(&1u8), None);
    assert_eq!(Neg::neg(&0u8), 0);
}

#[test]
fn u8_powers() {
    assert_eq!(Pow::pow(&2u8, 3), Ok(8));
    assert_eq!(Pow::pow(&7u8, 0), Ok(1));
    assert_eq!(Pow::pow(&0u8, 0), Ok(1));
    assert_eq!(Pow::pow(&0u8, 5), Ok(0));
    assert_eq!(Pow::pow(&1u8, u8::MAX), Ok(1));
    assert_eq!(Pow::pow(&2u8, 7), Ok(u8::MAX / 2 + 1));
    assert_eq!(Pow::pow(&2u8, 8), Err(EvalError::Overflow));
    assert_eq!(Pow::pow(&3u8, u8::MAX), Err(EvalError::Overflow));
}

#[test]
fn u8_literals() {
    assert_eq!(<u8 as Number>::zero(), 0);
    assert_eq!(<u8 as Number>::parse(&chars("42")), Some(42));
    assert_eq!(<u8 as Number>::parse(&chars("007")), Some(7));
    assert_eq!(<u8 as Number>::parse(&chars(&u8::MAX.to_string())), Some(u8::MAX));
    assert_eq!(<u8 as Number>::parse(&chars(&format!("{}0", u8::MAX))), None);
    assert_eq!(<u8 as Number>::parse(&chars("1.5")), None);
}

#[test]
fn u16_sums_and_differences() {
    assert_eq!(Add::add(&3u16, 4), Some(7));
    assert_eq!(Add::add(&u16::MAX, 1), None);
    assert_eq!(Sub::sub(&4u16, 3), Some(1));
    assert_eq!(Sub::sub(&3u16, 4), None);
}

#[test]
fn u16_products() {
    assert_eq!(Mul::mul(&3u16, 4), Some(12));
    assert_eq!(Mul::mul(&u16::MAX, 2), None);
}

#[test]
fn u16_quotients_and_remainders() {
    assert_eq!(Div::div(&7u16, 2), Some(3));
    assert_eq!(Div::div(&7u16, 0), None);
    assert_eq!(Rem::rem(&7u16, 2), Some(1));
    assert_eq!(Rem::rem(&7u16, 0), None);
}

#[test]
fn u16_negation() {
    assert_eq!(Neg::checked_neg(&0u16), Some(0));
    assert_eq!(Neg::checked_neg(&1u16), None);
    assert_eq!(Neg::neg(&0u16), 0);
}

#[test]
fn u16_powers() {
    assert_eq!(Pow::pow(&2u16, 3), Ok(8));
    assert_eq!(Pow::pow(&7u16, 0), Ok(1));
    assert_eq!(Pow::pow(&0u16, 0), Ok(1));
    assert_eq!(Pow::pow(&0u16, 5), Ok(0));
    assert_eq!(Pow::pow(&1u16, u16::MAX), Ok(1));
    assert_eq!(Pow::pow(&2u16, 15), Ok(u16::MAX / 2 + 1));
    assert_eq!(Pow::pow(&2u16, 16), Err(EvalError::Overflow));
    assert_eq!(Pow::pow(&3u16, u16::MAX), Err(EvalError::Overflow));
}

#[test]
fn u16_literals() {
    assert_eq!(<u16 as Number>::zero(), 0);
    assert_eq!(<u16 as Number>::parse(&chars("42")), Some(42));
    assert_eq!(<u16 as Number>::parse(&chars("007")), Some(7));
    assert_eq!(<u16 as Number>::parse(&chars(&u16::MAX.to_string())), Some(u16::MAX));
    assert_eq!(<u16 as Number>::parse(&chars(&format!("{}0", u16::MAX))), None);
    assert_eq!(<u16 as Number>::parse(&chars("1.5")), None);
}

#[test]
fn u32_sums_and_differences() {
    assert_eq!(Add::add(&3u32, 4), Some(7));
    assert_eq!(Add::add(&u32::MAX, 1), None);
    assert_eq!(Sub::sub(&4u32, 3), Some(1));
    assert_eq!(Sub::sub(&3u32, 4), None);
}

#[test]
fn u32_products() {
    assert_eq!(Mul::mul(&3u32, 4), Some(12));
    assert_eq!(Mul::mul(&u32::MAX, 2), None);
}

#[test]
fn u32_quotients_and_remainders() {
    assert_eq!(Div::div(&7u32, 2), Some(3));
    assert_eq!(Div::div(&7u32, 0), None);
    assert_eq!(Rem::rem(&7u32, 2), Some(1));
    assert_eq!(Rem::rem(&7u32, 0), None);
}

#[test]
fn u32_negation() {
    assert_eq!(Neg::checked_neg(&0u32), Some(0));
    assert_eq!(Neg::checked_neg(&1u32), None);
    assert_eq!(Neg::neg(&0u32), 0);
}

#[test]
fn u32_powers() {
    assert_eq!(Pow::pow(&2u32, 3), Ok(8));
    assert_eq!(Pow::pow(&7u32, 0), Ok(1));
    assert_eq!(Pow::pow(&0u32, 0), Ok(1));
    assert_eq!(Pow::pow(&0u32, 5), Ok(0));
    assert_eq!(Pow::pow(&1u32, u32::MAX), Ok(1));
    assert_eq!(Pow::pow(&2u32, 31), Ok(u32::MAX / 2 + 1));
    assert_eq!(Pow::pow(&2u32, 32), Err(EvalError::Overflow));
    assert_eq!(Pow::pow(&3u32, u32::MAX), Err(EvalError::Overflow));
}

#[test]
fn u32_literals() {
    assert_eq!(<u32 as Number>::zero(), 0);
    assert_eq!(<u32 as Number>::parse(&chars("42")), Some(42));
    assert_eq!(<u32 as Number>::parse(&chars("007")), Some(7));
    assert_eq!(<u32 as Number>::parse(&chars(&u32::MAX.to_string())), Some(u32::MAX));
    assert_eq!(<u32 as Number>::parse(&chars(&format!("{}0", u32::MAX))), None);
    assert_eq!(<u32 as Number>::parse(&chars("1.5")), None);
}

#[test]
fn u64_sums_and_differences() {
    assert_eq!(Add::add(&3u64, 4), Some(7));
    assert_eq!(Add::add(&u64::MAX, 1), None);
    assert_eq!(Sub::sub(&4u64, 3), Some(1));
    assert_eq!(Sub::sub(&3u64, 4), None);
}

#[test]
fn u64_products() {
    assert_eq!(Mul::mul(&3u64, 4), Some(12));
    assert_eq!(Mul::mul(&u64::MAX, 2), None);
}

#[test]
fn u64_quotients_and_remainders() {
    assert_eq!(Div::div(&7u64, 2), Some(3));
    assert_eq!(Div::div(&7u64, 0), None);
    assert_eq!(Rem::rem(&7u64, 2), Some(1));
    assert_eq!(Rem::rem(&7u64, 0), None);
}

#[test]
fn u64_negation() {
    assert_eq!(Neg::checked_neg(&0u64), Some(0));
    assert_eq!(Neg::checked_neg(&1u64), None);
    assert_eq!(Neg::neg(&0u64), 0);
}

#[test]
fn u64_powers() {
    assert_eq!(Pow::pow(&2u64, 3), Ok(8));
    assert_eq!(Pow::pow(&7u64, 0), Ok(1));
    assert_eq!(Pow::pow(&0u64, 0), Ok(1));
    assert_eq!(Pow::pow(&0u64, 5), Ok(0));
    assert_eq!(Pow::pow(&1u64, u64::MAX), Ok(1));
    assert_eq!(Pow::pow(&2u64, 63), Ok(u64::MAX / 2 + 1));
    assert_eq!(Pow::pow(&2u64, 64), Err(EvalError::Overflow));
    assert_eq!(Pow::pow(&3u64, u64::MAX), Err(EvalError::Overflow));
}

#[test]
fn u64_literals() {
    assert_eq!(<u64 as Number>::zero(), 0);
    assert_eq!(<u64 as Number>::parse(&chars("42")), Some(42));
    assert_eq!(<u64 as Number>::parse(&chars("007")), Some(7));
    assert_eq!(<u64 as Number>::parse(&chars(&u64::MAX.to_string())), Some(u64::MAX));
    assert_eq!(<u64 as Number>::parse(&chars(&format!("{}0", u64::MAX))), None);
    assert_eq!(<u64 as Number>::parse(&chars("1.5")), None);
}

#[test]
fn u128_sums_and_differences() {
    assert_eq!(Add::add(&3u128, 4), Some(7));
    assert_eq!(Add::add(&u128::MAX, 1), None);
    assert_eq!(Sub::sub(&4u128, 3), Some(1));
    assert_eq!(Sub::sub(&3u128, 4), None);
}

#[test]
fn u128_products() {
    assert_eq!(Mul::mul(&3u128, 4), Some(12));
    assert_eq!(Mul::mul(&u128::MAX, 2), None);
}

#[test]
fn u128_quotients_and_remainders() {
    assert_eq!(Div::div(&7u128, 2), Some(3));
    assert_eq!(Div::div(&7u128, 0), None);
    assert_eq!(Rem::rem(&7u128, 2), Some(1));
    assert_eq!(Rem::rem(&7u128, 0), None);
}

#[test]
fn u128_negation() {
    assert_eq!(Neg::checked_neg(&0u128), Some(0));
    assert_eq!(Neg::checked_neg(&1u128), None);
    assert_eq!(Neg::neg(&0u128), 0);
}

#[test]
fn decimal_digits_up_to_a_bound() {
    assert_eq!(parse_decimal(&chars("255"), 255), Some(255));
    assert_eq!(parse_decimal(&chars("256"), 255), None);
    assert_eq!(parse_decimal(&chars(""), 255), None);
    assert_eq!(parse_decimal(&chars("12a"), 255), None);
    assert_eq!(parse_decimal(&chars("0000000000000000000000000000000000000000001"), 255), Some(1));
    assert_eq!(
        parse_decimal(&chars("340282366920938463463374607431768211455"), u128::MAX),
        Some(u128::MAX)
    );
    assert_eq!(parse_decimal(&chars("340282366920938463463374607431768211456"), u128::MAX), None);
}

#[test]
fn powers_within_bounds() {
    assert_eq!(checked_int_pow(3, 4, -128, 127), Ok(81));
    assert_eq!(checked_int_pow(3, 5, -128, 127), Err(EvalError::Overflow));
    assert_eq!(checked_int_pow(-2, 7, -128, 127), Ok(-128));
    assert_eq!(checked_int_pow(2, 7, -128, 127), Err(EvalError::Overflow));
    assert_eq!(checked_int_pow(2, 8, 0, 255), Err(EvalError::Overflow));
    assert_eq!(checked_int_pow(2, -1, 0, 255), Err(EvalError::NegativeIntegerExponent));
    assert_eq!(checked_int_pow(10, 38, i128::MIN, i128::MAX), Ok(100000000000000000000000000000000000000));
    assert_eq!(checked_int_pow(10, 39, i128::MIN, i128::MAX), Err(EvalError::Overflow));
}
