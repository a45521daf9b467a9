//! The signed integer types as expression values: each operation is the checked
//! operation of the type.

use vstd::prelude::*;
use crate::number::{Add, Div, Mul, Neg, Number, Pow, Rem, Sub};
use crate::{BinaryOp, EvalError};

verus! {

// i8

/// `<i8 as num::CheckedAdd>::checked_add`, which hands both operands to `i8::checked_add`:
/// the sum where it is an `i8`, otherwise `None`.
#[verifier::external_body]
fn i8_checked_add(a: i8, b: i8) -> (r: Option<i8>)
    ensures
        r == a.checked_add(b),
{
    num::CheckedAdd::checked_add(&a, &b)
}

/// `<i8 as num::CheckedSub>::checked_sub`, which hands both operands to `i8::checked_sub`:
/// the difference where it is an `i8`, otherwise `None`.
#[verifier::external_body]
fn i8_checked_sub(a: i8, b: i8) -> (r: Option<i8>)
    ensures
        r == a.checked_sub(b),
{
    num::CheckedSub::checked_sub(&a, &b)
}

/// `<i8 as num::CheckedMul>::checked_mul`, which hands both operands to `i8::checked_mul`:
/// the product where it is an `i8`, otherwise `None`.
#[verifier::external_body]
fn i8_checked_mul(a: i8, b: i8) -> (r: Option<i8>)
    ensures
        r == a.checked_mul(b),
{
    num::CheckedMul::checked_mul(&a, &b)
}

/// `<i8 as num::CheckedDiv>::checked_div`, which hands both operands to `i8::checked_div`:
/// the quotient rounded towards zero, `None` for a zero divisor and for `i8::MIN` by `-1`.
#[verifier::external_body]
fn i8_checked_div(a: i8, b: i8) -> (r: Option<i8>)
    ensures
        r == a.checked_div(b),
{
    num::CheckedDiv::checked_div(&a, &b)
}

/// `<i8 as num::traits::CheckedRem>::checked_rem`, which hands both operands to `i8::checked_rem`:
/// the remainder of that division, `None` for a zero divisor and for `i8::MIN` by `-1`.
#[verifier::external_body]
fn i8_checked_rem(a: i8, b: i8) -> (r: Option<i8>)
    ensures
        r == a.checked_rem(b),
{
    num::traits::CheckedRem::checked_rem(&a, &b)
}

impl Add for i8 {
    open spec fn add_spec(&self, other: i8) -> Option<i8> {
        if i8::MIN <= *self + other <= i8::MAX {
            Some((*self + other) as i8)
        } else {
            None
        }
    }

    fn add(&self, other: i8) -> (r: Option<i8>) {
        i8_checked_add(*self, other)
    }
}

impl Sub for i8 {
    open spec fn sub_spec(&self, other: i8) -> Option<i8> {
        if i8::MIN <= *self - other <= i8::MAX {
            Some((*self - other) as i8)
        } else {
            None
        }
    }

    fn sub(&self, other: i8) -> (r: Option<i8>) {
        i8_checked_sub(*self, other)
    }
}

impl Mul for i8 {
    open spec fn mul_spec(&self, other: i8) -> Option<i8> {
        if i8::MIN <= *self * other <= i8::MAX {
            Some((*self * other) as i8)
        } else {
            None
        }
    }

    fn mul(&self, other: i8) -> (r: Option<i8>) {
        i8_checked_mul(*self, other)
    }
}

impl Div for i8 {
    open spec fn div_spec(&self, other: i8) -> Option<i8> {
        if other == 0 || (*self == i8::MIN && other == -1) {
            None
        } else {
            Some(crate::number::trunc_div(*self as int, other as int) as i8)
        }
    }

    fn div(&self, other: i8) -> (r: Option<i8>) {
        proof {
            if other != 0 {
                crate::number::lemma_trunc_bounds(*self as int, other as int);
            }
        }
        i8_checked_div(*self, other)
    }
}

impl Rem for i8 {
    open spec fn rem_spec(&self, other: i8) -> Option<i8> {
        if other == 0 || (*self == i8::MIN && other == -1) {
            None
        } else {
            Some(crate::number::trunc_rem(*self as int, other as int) as i8)
        }
    }

    fn rem(&self, other: i8) -> (r: Option<i8>) {
        proof {
            if other != 0 {
                crate::number::lemma_trunc_bounds(*self as int, other as int);
            }
        }
        i8_checked_rem(*self, other)
    }
}

impl Neg for i8 {
    open spec fn neg_spec(&self) -> Option<i8> {
        0i8.sub_spec(*self)
    }

    fn checked_neg(&self) -> (r: Option<i8>) {
        i8::default().sub(*self)
    }

    fn neg(&self) -> (r: i8) {
        i8::default().sub(*self).unwrap()
    }
}

impl Pow<i8> for i8 {
    open spec fn pow_spec(&self, exp: i8) -> Result<i8, EvalError> {
        match crate::number::int_pow(*self as int, exp as int, i8::MIN as int, i8::MAX as int) {
            Ok(p) => Ok(p as i8),
            Err(e) => Err(e),
        }
    }

    fn pow(&self, exp: i8) -> (r: Result<i8, EvalError>) {
        match crate::number::checked_int_pow(*self as i128, exp as i128, i8::MIN as i128, i8::MAX as i128) {
            Ok(p) => Ok(p as i8),
            Err(e) => Err(e),
        }
    }
}

impl Number for i8 {
    open spec fn zero_spec() -> i8 {
        0
    }

    fn zero() -> (r: i8) {
        i8::default()
    }

    open spec fn parse_spec(text: Seq<char>) -> Option<i8> {
        match crate::number::decimal(text, i8::MAX as nat) {
            Some(n) => Some(n as i8),
            None => None,
        }
    }

    fn parse(text: &[char]) -> (r: Option<i8>) {
        match crate::number::parse_decimal(text, i8::MAX as u128) {
            Some(n) => Some(n as i8),
            None => None,
        }
    }
}

/// Dividing by zero fails as a division by zero, whatever is divided.
pub proof fn lemma_i8_divide_by_zero(a: i8)
    ensures
        BinaryOp::Div.apply_spec(a, 0i8) == Err::<i8, EvalError>(EvalError::DivideByZero),
        BinaryOp::Rem.apply_spec(a, 0i8) == Err::<i8, EvalError>(EvalError::DivideByZero),
{
}

/// Raising to a negative power fails as a negative exponent, whatever is raised.
pub proof fn lemma_i8_negative_exponent(a: i8, exp: i8)
    requires
        exp < 0,
    ensures
        BinaryOp::Pow.apply_spec(a, exp) == Err::<i8, EvalError>(
            EvalError::NegativeIntegerExponent,
        ),
{
}

// i16

/// `<i16 as num::CheckedAdd>::checked_add`, which hands both operands to `i16::checked_add`:
/// the sum where it is an `i16`, otherwise `None`.
#[verifier::external_body]
fn i16_checked_add(a: i16, b: i16) -> (r: Option<i16>)
    ensures
        r == a.checked_add(b),
{
    num::CheckedAdd::checked_add(&a, &b)
}

/// `<i16 as num::CheckedSub>::checked_sub`, which hands both operands to `i16::checked_sub`:
/// the difference where it is an `i16`, otherwise `None`.
#[verifier::external_body]
fn i16_checked_sub(a: i16, b: i16) -> (r: Option<i16>)
    ensures
        r == a.checked_sub(b),
{
    num::CheckedSub::checked_sub(&a, &b)
}

/// `<i16 as num::CheckedMul>::checked_mul`, which hands both operands to `i16::checked_mul`:
/// the product where it is an `i16`, otherwise `None`.
#[verifier::external_body]
fn i16_checked_mul(a: i16, b: i16) -> (r: Option<i16>)
    ensures
        r == a.checked_mul(b),
{
    num::CheckedMul::checked_mul(&a, &b)
}

/// `<i16 as num::CheckedDiv>::checked_div`, which hands both operands to `i16::checked_div`:
/// the quotient rounded towards zero, `None` for a zero divisor and for `i16::MIN` by `-1`.
#[verifier::external_body]
fn i16_checked_div(a: i16, b: i16) -> (r: Option<i16>)
    ensures
        r == a.checked_div(b),
{
    num::CheckedDiv::checked_div(&a, &b)
}

/// `<i16 as num::traits::CheckedRem>::checked_rem`, which hands both operands to `i16::checked_rem`:
/// the remainder of that division, `None` for a zero divisor and for `i16::MIN` by `-1`.
#[verifier::external_body]
fn i16_checked_rem(a: i16, b: i16) -> (r: Option<i16>)
    ensures
        r == a.checked_rem(b),
{
    num::traits::CheckedRem::checked_rem(&a, &b)
}

impl Add for i16 {
    open spec fn add_spec(&self, other: i16) -> Option<i16> {
        if i16::MIN <= *self + other <= i16::MAX {
            Some((*self + other) as i16)
        } else {
            None
        }
    }

    fn add(&self, other: i16) -> (r: Option<i16>) {
        i16_checked_add(*self, other)
    }
}

impl Sub for i16 {
    open spec fn sub_spec(&self, other: i16) -> Option<i16> {
        if i16::MIN <= *self - other <= i16::MAX {
            Some((*self - other) as i16)
        } else {
            None
        }
    }

    fn sub(&self, other: i16) -> (r: Option<i16>) {
        i16_checked_sub(*self, other)
    }
}

impl Mul for i16 {
    open spec fn mul_spec(&self, other: i16) -> Option<i16> {
        if i16::MIN <= *self * other <= i16::MAX {
            Some((*self * other) as i16)
        } else {
            None
        }
    }

    fn mul(&self, other: i16) -> (r: Option<i16>) {
        i16_checked_mul(*self, other)
    }
}

impl Div for i16 {
    open spec fn div_spec(&self, other: i16) -> Option<i16> {
        if other == 0 || (*self == i16::MIN && other == -1) {
            None
        } else {
            Some(crate::number::trunc_div(*self as int, other as int) as i16)
        }
    }

    fn div(&self, other: i16) -> (r: Option<i16>) {
        proof {
            if other != 0 {
                crate::number::lemma_trunc_bounds(*self as int, other as int);
            }
        }
        i16_checked_div(*self, other)
    }
}

impl Rem for i16 {
    open spec fn rem_spec(&self, other: i16) -> Option<i16> {
        if other == 0 || (*self == i16::MIN && other == -1) {
            None
        } else {
            Some(crate::number::trunc_rem(*self as int, other as int) as i16)
        }
    }

    fn rem(&self, other: i16) -> (r: Option<i16>) {
        proof {
            if other != 0 {
                crate::number::lemma_trunc_bounds(*self as int, other as int);
            }
        }
        i16_checked_rem(*self, other)
    }
}

impl Neg for i16 {
    open spec fn neg_spec(&self) -> Option<i16> {
        0i16.sub_spec(*self)
    }

    fn checked_neg(&self) -> (r: Option<i16>) {
        i16::default().sub(*self)
    }

    fn neg(&self) -> (r: i16) {
        i16::default().sub(*self).unwrap()
    }
}

impl Pow<i16> for i16 {
    open spec fn pow_spec(&self, exp: i16) -> Result<i16, EvalError> {
        match crate::number::int_pow(*self as int, exp as int, i16::MIN as int, i16::MAX as int) {
            Ok(p) => Ok(p as i16),
            Err(e) => Err(e),
        }
    }

    fn pow(&self, exp: i16) -> (r: Result<i16, EvalError>) {
        match crate::number::checked_int_pow(*self as i128, exp as i128, i16::MIN as i128, i16::MAX as i128) {
            Ok(p) => Ok(p as i16),
            Err(e) => Err(e),
        }
    }
}

impl Number for i16 {
    open spec fn zero_spec() -> i16 {
        0
    }

    fn zero() -> (r: i16) {
        i16::default()
    }

    open spec fn parse_spec(text: Seq<char>) -> Option<i16> {
        match crate::number::decimal(text, i16::MAX as nat) {
            Some(n) => Some(n as i16),
            None => None,
        }
    }

    fn parse(text: &[char]) -> (r: Option<i16>) {
        match crate::number::parse_decimal(text, i16::MAX as u128) {
            Some(n) => Some(n as i16),
            None => None,
        }
    }
}

/// Dividing by zero fails as a division by zero, whatever is divided.
pub proof fn lemma_i16_divide_by_zero(a: i16)
    ensures
        BinaryOp::Div.apply_spec(a, 0i16) == Err::<i16, EvalError>(EvalError::DivideByZero),
        BinaryOp::Rem.apply_spec(a, 0i16) == Err::<i16, EvalError>(EvalError::DivideByZero),
{
}

/// Raising to a negative power fails as a negative exponent, whatever is raised.
pub proof fn lemma_i16_negative_exponent(a: i16, exp: i16)
    requires
        exp < 0,
    ensures
        BinaryOp::Pow.apply_spec(a, exp) == Err::<i16, EvalError>(
            EvalError::NegativeIntegerExponent,
        ),
{
}

// i32

/// `<i32 as num::CheckedAdd>::checked_add`, which hands both operands to `i32::checked_add`:
/// the sum where it is an `i32`, otherwise `None`.
#[verifier::external_body]
fn i32_checked_add(a: i32, b: i32) -> (r: Option<i32>)
    ensures
        r == a.checked_add(b),
{
    num::CheckedAdd::checked_add(&a, &b)
}

/// `<i32 as num::CheckedSub>::checked_sub`, which hands both operands to `i32::checked_sub`:
/// the difference where it is an `i32`, otherwise `None`.
#[verifier::external_body]
fn i32_checked_sub(a: i32, b: i32) -> (r: Option<i32>)
    ensures
        r == a.checked_sub(b),
{
    num::CheckedSub::checked_sub(&a, &b)
}

/// `<i32 as num::CheckedMul>::checked_mul`, which hands both operands to `i32::checked_mul`:
/// the product where it is an `i32`, otherwise `None`.
#[verifier::external_body]
fn i32_checked_mul(a: i32, b: i32) -> (r: Option<i32>)
    ensures
        r == a.checked_mul(b),
{
    num::CheckedMul::checked_mul(&a, &b)
}

/// `<i32 as num::CheckedDiv>::checked_div`, which hands both operands to `i32::checked_div`:
/// the quotient rounded towards zero, `None` for a zero divisor and for `i32::MIN` by `-1`.
#[verifier::external_body]
fn i32_checked_div(a: i32, b: i32) -> (r: Option<i32>)
    ensures
        r == a.checked_div(b),
{
    num::CheckedDiv::checked_div(&a, &b)
}

/// `<i32 as num::traits::CheckedRem>::checked_rem`, which hands both operands to `i32::checked_rem`:
/// the remainder of that division, `None` for a zero divisor and for `i32::MIN` by `-1`.
#[verifier::external_body]
fn i32_checked_rem(a: i32, b: i32) -> (r: Option<i32>)
    ensures
        r == a.checked_rem(b),
{
    num::traits::CheckedRem::checked_rem(&a, &b)
}

impl Add for i32 {
    open spec fn add_spec(&self, other: i32) -> Option<i32> {
        if i32::MIN <= *self + other <= i32::MAX {
            Some((*self + other) as i32)
        } else {
            None
        }
    }

    fn add(&self, other: i32) -> (r: Option<i32>) {
        i32_checked_add(*self, other)
    }
}

impl Sub for i32 {
    open spec fn sub_spec(&self, other: i32) -> Option<i32> {
        if i32::MIN <= *self - other <= i32::MAX {
            Some((*self - other) as i32)
        } else {
            None
        }
    }

    fn sub(&self, other: i32) -> (r: Option<i32>) {
        i32_checked_sub(*self, other)
    }
}

impl Mul for i32 {
    open spec fn mul_spec(&self, other: i32) -> Option<i32> {
        if i32::MIN <= *self * other <= i32::MAX {
            Some((*self * other) as i32)
        } else {
            None
        }
    }

    fn mul(&self, other: i32) -> (r: Option<i32>) {
        i32_checked_mul(*self, other)
    }
}

impl Div for i32 {
    open spec fn div_spec(&self, other: i32) -> Option<i32> {
        if other == 0 || (*self == i32::MIN && other == -1) {
            None
        } else {
            Some(crate::number::trunc_div(*self as int, other as int) as i32)
        }
    }

    fn div(&self, other: i32) -> (r: Option<i32>) {
        proof {
            if other != 0 {
                crate::number::lemma_trunc_bounds(*self as int, other as int);
            }
        }
        i32_checked_div(*self, other)
    }
}

impl Rem for i32 {
    open spec fn rem_spec(&self, other: i32) -> Option<i32> {
        if other == 0 || (*self == i32::MIN && other == -1) {
            None
        } else {
            Some(crate::number::trunc_rem(*self as int, other as int) as i32)
        }
    }

    fn rem(&self, other: i32) -> (r: Option<i32>) {
        proof {
            if other != 0 {
                crate::number::lemma_trunc_bounds(*self as int, other as int);
            }
        }
        i32_checked_rem(*self, other)
    }
}

impl Neg for i32 {
    open spec fn neg_spec(&self) -> Option<i32> {
        0i32.sub_spec(*self)
    }

    fn checked_neg(&self) -> (r: Option<i32>) {
        i32::default().sub(*self)
    }

    fn neg(&self) -> (r: i32) {
        i32::default().sub(*self).unwrap()
    }
}

impl Pow<i32> for i32 {
    open spec fn pow_spec(&self, exp: i32) -> Result<i32, EvalError> {
        match crate::number::int_pow(*self as int, exp as int, i32::MIN as int, i32::MAX as int) {
            Ok(p) => Ok(p as i32),
            Err(e) => Err(e),
        }
    }

    fn pow(&self, exp: i32) -> (r: Result<i32, EvalError>) {
        match crate::number::checked_int_pow(*self as i128, exp as i128, i32::MIN as i128, i32::MAX as i128) {
            Ok(p) => Ok(p as i32),
            Err(e) => Err(e),
        }
    }
}

impl Number for i32 {
    open spec fn zero_spec() -> i32 {
        0
    }

    fn zero() -> (r: i32) {
        i32::default()
    }

    open spec fn parse_spec(text: Seq<char>) -> Option<i32> {
        match crate::number::decimal(text, i32::MAX as nat) {
            Some(n) => Some(n as i32),
            None => None,
        }
    }

    fn parse(text: &[char]) -> (r: Option<i32>) {
        match crate::number::parse_decimal(text, i32::MAX as u128) {
            Some(n) => Some(n as i32),
            None => None,
        }
    }
}

/// Dividing by zero fails as a division by zero, whatever is divided.
pub proof fn lemma_i32_divide_by_zero(a: i32)
    ensures
        BinaryOp::Div.apply_spec(a, 0i32) == Err::<i32, EvalError>(EvalError::DivideByZero),
        BinaryOp::Rem.apply_spec(a, 0i32) == Err::<i32, EvalError>(EvalError::DivideByZero),
{
}

/// Raising to a negative power fails as a negative exponent, whatever is raised.
pub proof fn lemma_i32_negative_exponent(a: i32, exp: i32)
    requires
        exp < 0,
    ensures
        BinaryOp::Pow.apply_spec(a, exp) == Err::<i32, EvalError>(
            EvalError::NegativeIntegerExponent,
        ),
{
}

// i64

/// `<i64 as num::CheckedAdd>::checked_add`, which hands both operands to `i64::checked_add`:
/// the sum where it is an `i64`, otherwise `None`.
#[verifier::external_body]
fn i64_checked_add(a: i64, b: i64) -> (r: Option<i64>)
    ensures
        r == a.checked_add(b),
{
    num::CheckedAdd::checked_add(&a, &b)
}

/// `<i64 as num::CheckedSub>::checked_sub`, which hands both operands to `i64::checked_sub`:
/// the difference where it is an `i64`, otherwise `None`.
#[verifier::external_body]
fn i64_checked_sub(a: i64, b: i64) -> (r: Option<i64>)
    ensures
        r == a.checked_sub(b),
{
    num::CheckedSub::checked_sub(&a, &b)
}

/// `<i64 as num::CheckedMul>::checked_mul`, which hands both operands to `i64::checked_mul`:
/// the product where it is an `i64`, otherwise `None`.
#[verifier::external_body]
fn i64_checked_mul(a: i64, b: i64) -> (r: Option<i64>)
    ensures
        r == a.checked_mul(b),
{
    num::CheckedMul::checked_mul(&a, &b)
}

/// `<i64 as num::CheckedDiv>::checked_div`, which hands both operands to `i64::checked_div`:
/// the quotient rounded towards zero, `None` for a zero divisor and for `i64::MIN` by `-1`.
#[verifier::external_body]
fn i64_checked_div(a: i64, b: i64) -> (r: Option<i64>)
    ensures
        r == a.checked_div(b),
{
    num::CheckedDiv::checked_div(&a, &b)
}

/// `<i64 as num::traits::CheckedRem>::checked_rem`, which hands both operands to `i64::checked_rem`:
/// the remainder of that division, `None` for a zero divisor and for `i64::MIN` by `-1`.
#[verifier::external_body]
fn i64_checked_rem(a: i64, b: i64) -> (r: Option<i64>)
    ensures
        r == a.checked_rem(b),
{
    num::traits::CheckedRem::checked_rem(&a, &b)
}

impl Add for i64 {
    open spec fn add_spec(&self, other: i64) -> Option<i64> {
        if i64::MIN <= *self + other <= i64::MAX {
            Some((*self + other) as i64)
        } else {
            None
        }
    }

    fn add(&self, other: i64) -> (r: Option<i64>) {
        i64_checked_add(*self, other)
    }
}

impl Sub for i64 {
    open spec fn sub_spec(&self, other: i64) -> Option<i64> {
        if i64::MIN <= *self - other <= i64::MAX {
            Some((*self - other) as i64)
        } else {
            None
        }
    }

    fn sub(&self, other: i64) -> (r: Option<i64>) {
        i64_checked_sub(*self, other)
    }
}

impl Mul for i64 {
    open spec fn mul_spec(&self, other: i64) -> Option<i64> {
        if i64::MIN <= *self * other <= i64::MAX {
            Some((*self * other) as i64)
        } else {
            None
        }
    }

    fn mul(&self, other: i64) -> (r: Option<i64>) {
        i64_checked_mul(*self, other)
    }
}

impl Div for i64 {
    open spec fn div_spec(&self, other: i64) -> Option<i64> {
        if other == 0 || (*self == i64::MIN && other == -1) {
            None
        } else {
            Some(crate::number::trunc_div(*self as int, other as int) as i64)
        }
    }

    fn div(&self, other: i64) -> (r: Option<i64>) {
        proof {
            if other != 0 {
                crate::number::lemma_trunc_bounds(*self as int, other as int);
            }
        }
        i64_checked_div(*self, other)
    }
}

impl Rem for i64 {
    open spec fn rem_spec(&self, other: i64) -> Option<i64> {
        if other == 0 || (*self == i64::MIN && other == -1) {
            None
        } else {
            Some(crate::number::trunc_rem(*self as int, other as int) as i64)
        }
    }

    fn rem(&self, other: i64) -> (r: Option<i64>) {
        proof {
            if other != 0 {
                crate::number::lemma_trunc_bounds(*self as int, other as int);
            }
        }
        i64_checked_rem(*self, other)
    }
}

impl Neg for i64 {
    open spec fn neg_spec(&self) -> Option<i64> {
        0i64.sub_spec(*self)
    }

    fn checked_neg(&self) -> (r: Option<i64>) {
        i64::default().sub(*self)
    }

    fn neg(&self) -> (r: i64) {
        i64::default().sub(*self).unwrap()
    }
}

impl Pow<i64> for i64 {
    open spec fn pow_spec(&self, exp: i64) -> Result<i64, EvalError> {
        match crate::number::int_pow(*self as int, exp as int, i64::MIN as int, i64::MAX as int) {
            Ok(p) => Ok(p as i64),
            Err(e) => Err(e),
        }
    }

    fn pow(&self, exp: i64) -> (r: Result<i64, EvalError>) {
        match crate::number::checked_int_pow(*self as i128, exp as i128, i64::MIN as i128, i64::MAX as i128) {
            Ok(p) => Ok(p as i64),
            Err(e) => Err(e),
        }
    }
}

impl Number for i64 {
    open spec fn zero_spec() -> i64 {
        0
    }

    fn zero() -> (r: i64) {
        i64::default()
    }

    open spec fn parse_spec(text: Seq<char>) -> Option<i64> {
        match crate::number::decimal(text, i64::MAX as nat) {
            Some(n) => Some(n as i64),
            None => None,
        }
    }

    fn parse(text: &[char]) -> (r: Option<i64>) {
        match crate::number::parse_decimal(text, i64::MAX as u128) {
            Some(n) => Some(n as i64),
            None => None,
        }
    }
}

/// Dividing by zero fails as a division by zero, whatever is divided.
pub proof fn lemma_i64_divide_by_zero(a: i64)
    ensures
        BinaryOp::Div.apply_spec(a, 0i64) == Err::<i64, EvalError>(EvalError::DivideByZero),
        BinaryOp::Rem.apply_spec(a, 0i64) == Err::<i64, EvalError>(EvalError::DivideByZero),
{
}

/// Raising to a negative power fails as a negative exponent, whatever is raised.
pub proof fn lemma_i64_negative_exponent(a: i64, exp: i64)
    requires
        exp < 0,
    ensures
        BinaryOp::Pow.apply_spec(a, exp) == Err::<i64, EvalError>(
            EvalError::NegativeIntegerExponent,
        ),
{
}

// i128

/// `<i128 as num::CheckedAdd>::checked_add`, which hands both operands to `i128::checked_add`:
/// the sum where it is an `i128`, otherwise `None`.
#[verifier::external_body]
fn i128_checked_add(a: i128, b: i128) -> (r: Option<i128>)
    ensures
        r == a.checked_add(b),
{
    num::CheckedAdd::checked_add(&a, &b)
}

/// `<i128 as num::CheckedSub>::checked_sub`, which hands both operands to `i128::checked_sub`:
/// the difference where it is an `i128`, otherwise `None`.
#[verifier::external_body]
fn i128_checked_sub(a: i128, b: i128) -> (r: Option<i128>)
    ensures
        r == a.checked_sub(b),
{
    num::CheckedSub::checked_sub(&a, &b)
}

/// `<i128 as num::CheckedMul>::checked_mul`, which hands both operands to `i128::checked_mul`:
/// the product where it is an `i128`, otherwise `None`.
#[verifier::external_body]
fn i128_checked_mul(a: i128, b: i128) -> (r: Option<i128>)
    ensures
        r == a.checked_mul(b),
{
    num::CheckedMul::checked_mul(&a, &b)
}

/// `<i128 as num::CheckedDiv>::checked_div`, which hands both operands to `i128::checked_div`:
/// the quotient rounded towards zero, `None` for a zero divisor and for `i128::MIN` by `-1`.
#[verifier::external_body]
fn i128_checked_div(a: i128, b: i128) -> (r: Option<i128>)
    ensures
        r == a.checked_div(b),
{
    num::CheckedDiv::checked_div(&a, &b)
}

/// `<i128 as num::traits::CheckedRem>::checked_rem`, which hands both operands to `i128::checked_rem`:
/// the remainder of that division, `None` for a zero divisor and for `i128::MIN` by `-1`.
#[verifier::external_body]
fn i128_checked_rem(a: i128, b: i128) -> (r: Option<i128>)
    ensures
        r == a.checked_rem(b),
{
    num::traits::CheckedRem::checked_rem(&a, &b)
}

impl Add for i128 {
    open spec fn add_spec(&self, other: i128) -> Option<i128> {
        if i128::MIN <= *self + other <= i128::MAX {
            Some((*self + other) as i128)
        } else {
            None
        }
    }

    fn add(&self, other: i128) -> (r: Option<i128>) {
        i128_checked_add(*self, other)
    }
}

impl Sub for i128 {
    open spec fn sub_spec(&self, other: i128) -> Option<i128> {
        if i128::MIN <= *self - other <= i128::MAX {
            Some((*self - other) as i128)
        } else {
            None
        }
    }

    fn sub(&self, other: i128) -> (r: Option<i128>) {
        i128_checked_sub(*self, other)
    }
}

impl Mul for i128 {
    open spec fn mul_spec(&self, other: i128) -> Option<i128> {
        if i128::MIN <= *self * other <= i128::MAX {
            Some((*self * other) as i128)
        } else {
            None
        }
    }

    fn mul(&self, other: i128) -> (r: Option<i128>) {
        i128_checked_mul(*self, other)
    }
}

impl Div for i128 {
    open spec fn div_spec(&self, other: i128) -> Option<i128> {
        if other == 0 || (*self == i128::MIN && other == -1) {
            None
        } else {
            Some(crate::number::trunc_div(*self as int, other as int) as i128)
        }
    }

    fn div(&self, other: i128) -> (r: Option<i128>) {
        proof {
            if other != 0 {
                crate::number::lemma_trunc_bounds(*self as int, other as int);
            }
        }
        i128_checked_div(*self, other)
    }
}

impl Rem for i128 {
    open spec fn rem_spec(&self, other: i128) -> Option<i128> {
        if other == 0 || (*self == i128::MIN && other == -1) {
            None
        } else {
            Some(crate::number::trunc_rem(*self as int, other as int) as i128)
        }
    }

    fn rem(&self, other: i128) -> (r: Option<i128>) {
        proof {
            if other != 0 {
                crate::number::lemma_trunc_bounds(*self as int, other as int);
            }
        }
        i128_checked_rem(*self, other)
    }
}

impl Neg for i128 {
    open spec fn neg_spec(&self) -> Option<i128> {
        0i128.sub_spec(*self)
    }

    fn checked_neg(&self) -> (r: Option<i128>) {
        i128::default().sub(*self)
    }

    fn neg(&self) -> (r: i128) {
        i128::default().sub(*self).unwrap()
    }
}

impl Pow<i128> for i128 {
    open spec fn pow_spec(&self, exp: i128) -> Result<i128, EvalError> {
        match crate::number::int_pow(*self as int, exp as int, i128::MIN as int, i128::MAX as int) {
            Ok(p) => Ok(p as i128),
            Err(e) => Err(e),
        }
    }

    fn pow(&self, exp: i128) -> (r: Result<i128, EvalError>) {
        match crate::number::checked_int_pow(*self, exp, i128::MIN, i128::MAX) {
            Ok(p) => Ok(p as i128),
            Err(e) => Err(e),
        }
    }
}

impl Number for i128 {
    open spec fn zero_spec() -> i128 {
        0
    }

    fn zero() -> (r: i128) {
        i128::default()
    }

    open spec fn parse_spec(text: Seq<char>) -> Option<i128> {
        match crate::number::decimal(text, i128::MAX as nat) {
            Some(n) => Some(n as i128),
            None => None,
        }
    }

    fn parse(text: &[char]) -> (r: Option<i128>) {
        match crate::number::parse_decimal(text, i128::MAX as u128) {
            Some(n) => Some(n as i128),
            None => None,
        }
    }
}

/// Dividing by zero fails as a division by zero, whatever is divided.
pub proof fn lemma_i128_divide_by_zero(a: i128)
    ensures
        BinaryOp::Div.apply_spec(a, 0i128) == Err::<i128, EvalError>(EvalError::DivideByZero),
        BinaryOp::Rem.apply_spec(a, 0i128) == Err::<i128, EvalError>(EvalError::DivideByZero),
{
}

/// Raising to a negative power fails as a negative exponent, whatever is raised.
pub proof fn lemma_i128_negative_exponent(a: i128, exp: i128)
    requires
        exp < 0,
    ensures
        BinaryOp::Pow.apply_spec(a, exp) == Err::<i128, EvalError>(
            EvalError::NegativeIntegerExponent,
        ),
{
}

} // verus!
