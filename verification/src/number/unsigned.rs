//! The unsigned integer types as expression values: each operation is the checked
//! operation of the type.

use vstd::prelude::*;
use crate::number::{Add, Div, Mul, Neg, Number, Pow, Rem, Sub};
use crate::{BinaryOp, EvalError};

verus! {

// u8

/// `<u8 as num::CheckedAdd>::checked_add`, which hands both operands to `u8::checked_add`:
/// the sum where it is a `u8`, otherwise `None`.
#[verifier::external_body]
fn u8_checked_add(a: u8, b: u8) -> (r: Option<u8>)
    ensures
        r == a.checked_add(b),
{
    num::CheckedAdd::checked_add(&a, &b)
}

/// `<u8 as num::CheckedSub>::checked_sub`, which hands both operands to `u8::checked_sub`:
/// the difference where it is a `u8`, otherwise `None`.
#[verifier::external_body]
fn u8_checked_sub(a: u8, b: u8) -> (r: Option<u8>)
    ensures
        r == a.checked_sub(b),
{
    num::CheckedSub::checked_sub(&a, &b)
}

/// `<u8 as num::CheckedMul>::checked_mul`, which hands both operands to `u8::checked_mul`:
/// the product where it is a `u8`, otherwise `None`.
#[verifier::external_body]
fn u8_checked_mul(a: u8, b: u8) -> (r: Option<u8>)
    ensures
        r == a.checked_mul(b),
{
    num::CheckedMul::checked_mul(&a, &b)
}

/// `<u8 as num::CheckedDiv>::checked_div`, which hands both operands to `u8::checked_div`:
/// the quotient rounded towards zero, `None` for a zero divisor.
#[verifier::external_body]
fn u8_checked_div(a: u8, b: u8) -> (r: Option<u8>)
    ensures
        r == a.checked_div(b),
{
    num::CheckedDiv::checked_div(&a, &b)
}

/// `<u8 as num::traits::CheckedRem>::checked_rem`, which hands both operands to `u8::checked_rem`:
/// the remainder of that division, `None` for a zero divisor.
#[verifier::external_body]
fn u8_checked_rem(a: u8, b: u8) -> (r: Option<u8>)
    ensures
        r == a.checked_rem(b),
{
    num::traits::CheckedRem::checked_rem(&a, &b)
}

impl Add for u8 {
    open spec fn add_spec(&self, other: u8) -> Option<u8> {
        if *self + other <= u8::MAX {
            Some((*self + other) as u8)
        } else {
            None
        }
    }

    fn add(&self, other: u8) -> (r: Option<u8>) {
        u8_checked_add(*self, other)
    }
}

impl Sub for u8 {
    open spec fn sub_spec(&self, other: u8) -> Option<u8> {
        if 0 <= *self - other {
            Some((*self - other) as u8)
        } else {
            None
        }
    }

    fn sub(&self, other: u8) -> (r: Option<u8>) {
        u8_checked_sub(*self, other)
    }
}

impl Mul for u8 {
    open spec fn mul_spec(&self, other: u8) -> Option<u8> {
        if *self * other <= u8::MAX {
            Some((*self * other) as u8)
        } else {
            None
        }
    }

    fn mul(&self, other: u8) -> (r: Option<u8>) {
        u8_checked_mul(*self, other)
    }
}

impl Div for u8 {
    open spec fn div_spec(&self, other: u8) -> Option<u8> {
        if other == 0 {
            None
        } else {
            Some((*self / other) as u8)
        }
    }

    fn div(&self, other: u8) -> (r: Option<u8>) {
        u8_checked_div(*self, other)
    }
}

impl Rem for u8 {
    open spec fn rem_spec(&self, other: u8) -> Option<u8> {
        if other == 0 {
            None
        } else {
            Some((*self % other) as u8)
        }
    }

    fn rem(&self, other: u8) -> (r: Option<u8>) {
        u8_checked_rem(*self, other)
    }
}

impl Neg for u8 {
    open spec fn neg_spec(&self) -> Option<u8> {
        0u8.sub_spec(*self)
    }

    fn checked_neg(&self) -> (r: Option<u8>) {
        u8::default().sub(*self)
    }

    fn neg(&self) -> (r: u8) {
        u8::default().sub(*self).unwrap()
    }
}

impl Pow<u8> for u8 {
    open spec fn pow_spec(&self, exp: u8) -> Result<u8, EvalError> {
        match crate::number::int_pow(*self as int, exp as int, 0, u8::MAX as int) {
            Ok(p) => Ok(p as u8),
            Err(e) => Err(e),
        }
    }

    fn pow(&self, exp: u8) -> (r: Result<u8, EvalError>) {
        match crate::number::checked_int_pow(*self as i128, exp as i128, 0, u8::MAX as i128) {
            Ok(p) => Ok(p as u8),
            Err(e) => Err(e),
        }
    }
}

impl Number for u8 {
    open spec fn zero_spec() -> u8 {
        0
    }

    fn zero() -> (r: u8) {
        u8::default()
    }

    open spec fn parse_spec(text: Seq<char>) -> Option<u8> {
        match crate::number::decimal(text, u8::MAX as nat) {
            Some(n) => Some(n as u8),
            None => None,
        }
    }

    fn parse(text: &[char]) -> (r: Option<u8>) {
        match crate::number::parse_decimal(text, u8::MAX as u128) {
            Some(n) => Some(n as u8),
            None => None,
        }
    }
}

/// Dividing by zero fails as a division by zero, whatever is divided.
pub proof fn lemma_u8_divide_by_zero(a: u8)
    ensures
        BinaryOp::Div.apply_spec(a, 0u8) == Err::<u8, EvalError>(EvalError::DivideByZero),
        BinaryOp::Rem.apply_spec(a, 0u8) == Err::<u8, EvalError>(EvalError::DivideByZero),
{
}

// u16

/// `<u16 as num::CheckedAdd>::checked_add`, which hands both operands to `u16::checked_add`:
/// the sum where it is a `u16`, otherwise `None`.
#[verifier::external_body]
fn u16_checked_add(a: u16, b: u16) -> (r: Option<u16>)
    ensures
        r == a.checked_add(b),
{
    num::CheckedAdd::checked_add(&a, &b)
}

/// `<u16 as num::CheckedSub>::checked_sub`, which hands both operands to `u16::checked_sub`:
/// the difference where it is a `u16`, otherwise `None`.
#[verifier::external_body]
fn u16_checked_sub(a: u16, b: u16) -> (r: Option<u16>)
    ensures
        r == a.checked_sub(b),
{
    num::CheckedSub::checked_sub(&a, &b)
}

/// `<u16 as num::CheckedMul>::checked_mul`, which hands both operands to `u16::checked_mul`:
/// the product where it is a `u16`, otherwise `None`.
#[verifier::external_body]
fn u16_checked_mul(a: u16, b: u16) -> (r: Option<u16>)
    ensures
        r == a.checked_mul(b),
{
    num::CheckedMul::checked_mul(&a, &b)
}

/// `<u16 as num::CheckedDiv>::checked_div`, which hands both operands to `u16::checked_div`:
/// the quotient rounded towards zero, `None` for a zero divisor.
#[verifier::external_body]
fn u16_checked_div(a: u16, b: u16) -> (r: Option<u16>)
    ensures
        r == a.checked_div(b),
{
    num::CheckedDiv::checked_div(&a, &b)
}

/// `<u16 as num::traits::CheckedRem>::checked_rem`, which hands both operands to `u16::checked_rem`:
/// the remainder of that division, `None` for a zero divisor.
#[verifier::external_body]
fn u16_checked_rem(a: u16, b: u16) -> (r: Option<u16>)
    ensures
        r == a.checked_rem(b),
{
    num::traits::CheckedRem::checked_rem(&a, &b)
}

impl Add for u16 {
    open spec fn add_spec(&self, other: u16) -> Option<u16> {
        if *self + other <= u16::MAX {
            Some((*self + other) as u16)
        } else {
            None
        }
    }

    fn add(&self, other: u16) -> (r: Option<u16>) {
        u16_checked_add(*self, other)
    }
}

impl Sub for u16 {
    open spec fn sub_spec(&self, other: u16) -> Option<u16> {
        if 0 <= *self - other {
            Some((*self - other) as u16)
        } else {
            None
        }
    }

    fn sub(&self, other: u16) -> (r: Option<u16>) {
        u16_checked_sub(*self, other)
    }
}

impl Mul for u16 {
    open spec fn mul_spec(&self, other: u16) -> Option<u16> {
        if *self * other <= u16::MAX {
            Some((*self * other) as u16)
        } else {
            None
        }
    }

    fn mul(&self, other: u16) -> (r: Option<u16>) {
        u16_checked_mul(*self, other)
    }
}

impl Div for u16 {
    open spec fn div_spec(&self, other: u16) -> Option<u16> {
        if other == 0 {
            None
        } else {
            Some((*self / other) as u16)
        }
    }

    fn div(&self, other: u16) -> (r: Option<u16>) {
        u16_checked_div(*self, other)
    }
}

impl Rem for u16 {
    open spec fn rem_spec(&self, other: u16) -> Option<u16> {
        if other == 0 {
            None
        } else {
            Some((*self % other) as u16)
        }
    }

    fn rem(&self, other: u16) -> (r: Option<u16>) {
        u16_checked_rem(*self, other)
    }
}

impl Neg for u16 {
    open spec fn neg_spec(&self) -> Option<u16> {
        0u16.sub_spec(*self)
    }

    fn checked_neg(&self) -> (r: Option<u16>) {
        u16::default().sub(*self)
    }

    fn neg(&self) -> (r: u16) {
        u16::default().sub(*self).unwrap()
    }
}

impl Pow<u16> for u16 {
    open spec fn pow_spec(&self, exp: u16) -> Result<u16, EvalError> {
        match crate::number::int_pow(*self as int, exp as int, 0, u16::MAX as int) {
            Ok(p) => Ok(p as u16),
            Err(e) => Err(e),
        }
    }

    fn pow(&self, exp: u16) -> (r: Result<u16, EvalError>) {
        match crate::number::checked_int_pow(*self as i128, exp as i128, 0, u16::MAX as i128) {
            Ok(p) => Ok(p as u16),
            Err(e) => Err(e),
        }
    }
}

impl Number for u16 {
    open spec fn zero_spec() -> u16 {
        0
    }

    fn zero() -> (r: u16) {
        u16::default()
    }

    open spec fn parse_spec(text: Seq<char>) -> Option<u16> {
        match crate::number::decimal(text, u16::MAX as nat) {
            Some(n) => Some(n as u16),
            None => None,
        }
    }

    fn parse(text: &[char]) -> (r: Option<u16>) {
        match crate::number::parse_decimal(text, u16::MAX as u128) {
            Some(n) => Some(n as u16),
            None => None,
        }
    }
}

/// Dividing by zero fails as a division by zero, whatever is divided.
pub proof fn lemma_u16_divide_by_zero(a: u16)
    ensures
        BinaryOp::Div.apply_spec(a, 0u16) == Err::<u16, EvalError>(EvalError::DivideByZero),
        BinaryOp::Rem.apply_spec(a, 0u16) == Err::<u16, EvalError>(EvalError::DivideByZero),
{
}

// u32

/// `<u32 as num::CheckedAdd>::checked_add`, which hands both operands to `u32::checked_add`:
/// the sum where it is a `u32`, otherwise `None`.
#[verifier::external_body]
fn u32_checked_add(a: u32, b: u32) -> (r: Option<u32>)
    ensures
        r == a.checked_add(b),
{
    num::CheckedAdd::checked_add(&a, &b)
}

/// `<u32 as num::CheckedSub>::checked_sub`, which hands both operands to `u32::checked_sub`:
/// the difference where it is a `u32`, otherwise `None`.
#[verifier::external_body]
fn u32_checked_sub(a: u32, b: u32) -> (r: Option<u32>)
    ensures
        r == a.checked_sub(b),
{
    num::CheckedSub::checked_sub(&a, &b)
}

/// `<u32 as num::CheckedMul>::checked_mul`, which hands both operands to `u32::checked_mul`:
/// the product where it is a `u32`, otherwise `None`.
#[verifier::external_body]
fn u32_checked_mul(a: u32, b: u32) -> (r: Option<u32>)
    ensures
        r == a.checked_mul(b),
{
    num::CheckedMul::checked_mul(&a, &b)
}

/// `<u32 as num::CheckedDiv>::checked_div`, which hands both operands to `u32::checked_div`:
/// the quotient rounded towards zero, `None` for a zero divisor.
#[verifier::external_body]
fn u32_checked_div(a: u32, b: u32) -> (r: Option<u32>)
    ensures
        r == a.checked_div(b),
{
    num::CheckedDiv::checked_div(&a, &b)
}

/// `<u32 as num::traits::CheckedRem>::checked_rem`, which hands both operands to `u32::checked_rem`:
/// the remainder of that division, `None` for a zero divisor.
#[verifier::external_body]
fn u32_checked_rem(a: u32, b: u32) -> (r: Option<u32>)
    ensures
        r == a.checked_rem(b),
{
    num::traits::CheckedRem::checked_rem(&a, &b)
}

impl Add for u32 {
    open spec fn add_spec(&self, other: u32) -> Option<u32> {
        if *self + other <= u32::MAX {
            Some((*self + other) as u32)
        } else {
            None
        }
    }

    fn add(&self, other: u32) -> (r: Option<u32>) {
        u32_checked_add(*self, other)
    }
}

impl Sub for u32 {
    open spec fn sub_spec(&self, other: u32) -> Option<u32> {
        if 0 <= *self - other {
            Some((*self - other) as u32)
        } else {
            None
        }
    }

    fn sub(&self, other: u32) -> (r: Option<u32>) {
        u32_checked_sub(*self, other)
    }
}

impl Mul for u32 {
    open spec fn mul_spec(&self, other: u32) -> Option<u32> {
        if *self * other <= u32::MAX {
            Some((*self * other) as u32)
        } else {
            None
        }
    }

    fn mul(&self, other: u32) -> (r: Option<u32>) {
        u32_checked_mul(*self, other)
    }
}

impl Div for u32 {
    open spec fn div_spec(&self, other: u32) -> Option<u32> {
        if other == 0 {
            None
        } else {
            Some((*self / other) as u32)
        }
    }

    fn div(&self, other: u32) -> (r: Option<u32>) {
        u32_checked_div(*self, other)
    }
}

impl Rem for u32 {
    open spec fn rem_spec(&self, other: u32) -> Option<u32> {
        if other == 0 {
            None
        } else {
            Some((*self % other) as u32)
        }
    }

    fn rem(&self, other: u32) -> (r: Option<u32>) {
        u32_checked_rem(*self, other)
    }
}

impl Neg for u32 {
    open spec fn neg_spec(&self) -> Option<u32> {
        0u32.sub_spec(*self)
    }

    fn checked_neg(&self) -> (r: Option<u32>) {
        u32::default().sub(*self)
    }

    fn neg(&self) -> (r: u32) {
        u32::default().sub(*self).unwrap()
    }
}

impl Pow<u32> for u32 {
    open spec fn pow_spec(&self, exp: u32) -> Result<u32, EvalError> {
        match crate::number::int_pow(*self as int, exp as int, 0, u32::MAX as int) {
            Ok(p) => Ok(p as u32),
            Err(e) => Err(e),
        }
    }

    fn pow(&self, exp: u32) -> (r: Result<u32, EvalError>) {
        match crate::number::checked_int_pow(*self as i128, exp as i128, 0, u32::MAX as i128) {
            Ok(p) => Ok(p as u32),
            Err(e) => Err(e),
        }
    }
}

impl Number for u32 {
    open spec fn zero_spec() -> u32 {
        0
    }

    fn zero() -> (r: u32) {
        u32::default()
    }

    open spec fn parse_spec(text: Seq<char>) -> Option<u32> {
        match crate::number::decimal(text, u32::MAX as nat) {
            Some(n) => Some(n as u32),
            None => None,
        }
    }

    fn parse(text: &[char]) -> (r: Option<u32>) {
        match crate::number::parse_decimal(text, u32::MAX as u128) {
            Some(n) => Some(n as u32),
            None => None,
        }
    }
}

/// Dividing by zero fails as a division by zero, whatever is divided.
pub proof fn lemma_u32_divide_by_zero(a: u32)
    ensures
        BinaryOp::Div.apply_spec(a, 0u32) == Err::<u32, EvalError>(EvalError::DivideByZero),
        BinaryOp::Rem.apply_spec(a, 0u32) == Err::<u32, EvalError>(EvalError::DivideByZero),
{
}

// u64

/// `<u64 as num::CheckedAdd>::checked_add`, which hands both operands to `u64::checked_add`:
/// the sum where it is a `u64`, otherwise `None`.
#[verifier::external_body]
fn u64_checked_add(a: u64, b: u64) -> (r: Option<u64>)
    ensures
        r == a.checked_add(b),
{
    num::CheckedAdd::checked_add(&a, &b)
}

/// `<u64 as num::CheckedSub>::checked_sub`, which hands both operands to `u64::checked_sub`:
/// the difference where it is a `u64`, otherwise `None`.
#[verifier::external_body]
fn u64_checked_sub(a: u64, b: u64) -> (r: Option<u64>)
    ensures
        r == a.checked_sub(b),
{
    num::CheckedSub::checked_sub(&a, &b)
}

/// `<u64 as num::CheckedMul>::checked_mul`, which hands both operands to `u64::checked_mul`:
/// the product where it is a `u64`, otherwise `None`.
#[verifier::external_body]
fn u64_checked_mul(a: u64, b: u64) -> (r: Option<u64>)
    ensures
        r == a.checked_mul(b),
{
    num::CheckedMul::checked_mul(&a, &b)
}

/// `<u64 as num::CheckedDiv>::checked_div`, which hands both operands to `u64::checked_div`:
/// the quotient rounded towards zero, `None` for a zero divisor.
#[verifier::external_body]
fn u64_checked_div(a: u64, b: u64) -> (r: Option<u64>)
    ensures
        r == a.checked_div(b),
{
    num::CheckedDiv::checked_div(&a, &b)
}

/// `<u64 as num::traits::CheckedRem>::checked_rem`, which hands both operands to `u64::checked_rem`:
/// the remainder of that division, `None` for a zero divisor.
#[verifier::external_body]
fn u64_checked_rem(a: u64, b: u64) -> (r: Option<u64>)
    ensures
        r == a.checked_rem(b),
{
    num::traits::CheckedRem::checked_rem(&a, &b)
}

impl Add for u64 {
    open spec fn add_spec(&self, other: u64) -> Option<u64> {
        if *self + other <= u64::MAX {
            Some((*self + other) as u64)
        } else {
            None
        }
    }

    fn add(&self, other: u64) -> (r: Option<u64>) {
        u64_checked_add(*self, other)
    }
}

impl Sub for u64 {
    open spec fn sub_spec(&self, other: u64) -> Option<u64> {
        if 0 <= *self - other {
            Some((*self - other) as u64)
        } else {
            None
        }
    }

    fn sub(&self, other: u64) -> (r: Option<u64>) {
        u64_checked_sub(*self, other)
    }
}

impl Mul for u64 {
    open spec fn mul_spec(&self, other: u64) -> Option<u64> {
        if *self * other <= u64::MAX {
            Some((*self * other) as u64)
        } else {
            None
        }
    }

    fn mul(&self, other: u64) -> (r: Option<u64>) {
        u64_checked_mul(*self, other)
    }
}

impl Div for u64 {
    open spec fn div_spec(&self, other: u64) -> Option<u64> {
        if other == 0 {
            None
        } else {
            Some((*self / other) as u64)
        }
    }

    fn div(&self, other: u64) -> (r: Option<u64>) {
        u64_checked_div(*self, other)
    }
}

impl Rem for u64 {
    open spec fn rem_spec(&self, other: u64) -> Option<u64> {
        if other == 0 {
            None
        } else {
            Some((*self % other) as u64)
        }
    }

    fn rem(&self, other: u64) -> (r: Option<u64>) {
        u64_checked_rem(*self, other)
    }
}

impl Neg for u64 {
    open spec fn neg_spec(&self) -> Option<u64> {
        0u64.sub_spec(*self)
    }

    fn checked_neg(&self) -> (r: Option<u64>) {
        u64::default().sub(*self)
    }

    fn neg(&self) -> (r: u64) {
        u64::default().sub(*self).unwrap()
    }
}

impl Pow<u64> for u64 {
    open spec fn pow_spec(&self, exp: u64) -> Result<u64, EvalError> {
        match crate::number::int_pow(*self as int, exp as int, 0, u64::MAX as int) {
            Ok(p) => Ok(p as u64),
            Err(e) => Err(e),
        }
    }

    fn pow(&self, exp: u64) -> (r: Result<u64, EvalError>) {
        match crate::number::checked_int_pow(*self as i128, exp as i128, 0, u64::MAX as i128) {
            Ok(p) => Ok(p as u64),
            Err(e) => Err(e),
        }
    }
}

impl Number for u64 {
    open spec fn zero_spec() -> u64 {
        0
    }

    fn zero() -> (r: u64) {
        u64::default()
    }

    open spec fn parse_spec(text: Seq<char>) -> Option<u64> {
        match crate::number::decimal(text, u64::MAX as nat) {
            Some(n) => Some(n as u64),
            None => None,
        }
    }

    fn parse(text: &[char]) -> (r: Option<u64>) {
        match crate::number::parse_decimal(text, u64::MAX as u128) {
            Some(n) => Some(n as u64),
            None => None,
        }
    }
}

/// Dividing by zero fails as a division by zero, whatever is divided.
pub proof fn lemma_u64_divide_by_zero(a: u64)
    ensures
        BinaryOp::Div.apply_spec(a, 0u64) == Err::<u64, EvalError>(EvalError::DivideByZero),
        BinaryOp::Rem.apply_spec(a, 0u64) == Err::<u64, EvalError>(EvalError::DivideByZero),
{
}

// u128

/// `<u128 as num::CheckedAdd>::checked_add`, which hands both operands to `u128::checked_add`:
/// the sum where it is a `u128`, otherwise `None`.
#[verifier::external_body]
fn u128_checked_add(a: u128, b: u128) -> (r: Option<u128>)
    ensures
        r == a.checked_add(b),
{
    num::CheckedAdd::checked_add(&a, &b)
}

/// `<u128 as num::CheckedSub>::checked_sub`, which hands both operands to `u128::checked_sub`:
/// the difference where it is a `u128`, otherwise `None`.
#[verifier::external_body]
fn u128_checked_sub(a: u128, b: u128) -> (r: Option<u128>)
    ensures
        r == a.checked_sub(b),
{
    num::CheckedSub::checked_sub(&a, &b)
}

/// `<u128 as num::CheckedMul>::checked_mul`, which hands both operands to `u128::checked_mul`:
/// the product where it is a `u128`, otherwise `None`.
#[verifier::external_body]
fn u128_checked_mul(a: u128, b: u128) -> (r: Option<u128>)
    ensures
        r == a.checked_mul(b),
{
    num::CheckedMul::checked_mul(&a, &b)
}

/// `<u128 as num::CheckedDiv>::checked_div`, which hands both operands to `u128::checked_div`:
/// the quotient rounded towards zero, `None` for a zero divisor.
#[verifier::external_body]
fn u128_checked_div(a: u128, b: u128) -> (r: Option<u128>)
    ensures
        r == a.checked_div(b),
{
    num::CheckedDiv::checked_div(&a, &b)
}

/// `<u128 as num::traits::CheckedRem>::checked_rem`, which hands both operands to `u128::checked_rem`:
/// the remainder of that division, `None` for a zero divisor.
#[verifier::external_body]
fn u128_checked_rem(a: u128, b: u128) -> (r: Option<u128>)
    ensures
        r == a.checked_rem(b),
{
    num::traits::CheckedRem::checked_rem(&a, &b)
}

impl Add for u128 {
    open spec fn add_spec(&self, other: u128) -> Option<u128> {
        if *self + other <= u128::MAX {
            Some((*self + other) as u128)
        } else {
            None
        }
    }

    fn add(&self, other: u128) -> (r: Option<u128>) {
        u128_checked_add(*self, other)
    }
}

impl Sub for u128 {
    open spec fn sub_spec(&self, other: u128) -> Option<u128> {
        if 0 <= *self - other {
            Some((*self - other) as u128)
        } else {
            None
        }
    }

    fn sub(&self, other: u128) -> (r: Option<u128>) {
        u128_checked_sub(*self, other)
    }
}

impl Mul for u128 {
    open spec fn mul_spec(&self, other: u128) -> Option<u128> {
        if *self * other <= u128::MAX {
            Some((*self * other) as u128)
        } else {
            None
        }
    }

    fn mul(&self, other: u128) -> (r: Option<u128>) {
        u128_checked_mul(*self, other)
    }
}

impl Div for u128 {
    open spec fn div_spec(&self, other: u128) -> Option<u128> {
        if other == 0 {
            None
        } else {
            Some((*self / other) as u128)
        }
    }

    fn div(&self, other: u128) -> (r: Option<u128>) {
        u128_checked_div(*self, other)
    }
}

impl Rem for u128 {
    open spec fn rem_spec(&self, other: u128) -> Option<u128> {
        if other == 0 {
            None
        } else {
            Some((*self % other) as u128)
        }
    }

    fn rem(&self, other: u128) -> (r: Option<u128>) {
        u128_checked_rem(*self, other)
    }
}

impl Neg for u128 {
    open spec fn neg_spec(&self) -> Option<u128> {
        0u128.sub_spec(*self)
    }

    fn checked_neg(&self) -> (r: Option<u128>) {
        u128::default().sub(*self)
    }

    fn neg(&self) -> (r: u128) {
        u128::default().sub(*self).unwrap()
    }
}

/// Nothing can be divided by zero.
pub proof fn lemma_u128_divide_by_zero(a: u128)
    ensures
        a.div_spec(0u128) is None,
        a.rem_spec(0u128) is None,
{
}

} // verus!
