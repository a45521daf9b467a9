//! What a value type offers so that expressions can be compiled and evaluated
//! over it, and the integer types that offer it.

use vstd::prelude::*;
use vstd::arithmetic::power::pow;
use crate::EvalError;

mod signed;
mod unsigned;

verus! {

/// Addition that reports when the sum is not a value of the type.
pub trait Add: Sized {
    /// The sum, where the type has it. It is left open until a type says what it is.
    open spec fn add_spec(&self, other: Self) -> Option<Self> {
        arbitrary()
    }

    /// The sum, or `None` where the type has none.
    fn add(&self, other: Self) -> (r: Option<Self>)
        ensures
            r == self.add_spec(other),
    ;
}

/// Subtraction that reports when the difference is not a value of the type.
pub trait Sub: Sized {
    /// The difference, where the type has it. It is left open until a type says what it is.
    open spec fn sub_spec(&self, other: Self) -> Option<Self> {
        arbitrary()
    }

    /// The difference, or `None` where the type has none.
    fn sub(&self, other: Self) -> (r: Option<Self>)
        ensures
            r == self.sub_spec(other),
    ;
}

/// Multiplication that reports when the product is not a value of the type.
pub trait Mul: Sized {
    /// The product, where the type has it. It is left open until a type says what it is.
    open spec fn mul_spec(&self, other: Self) -> Option<Self> {
        arbitrary()
    }

    /// The product, or `None` where the type has none.
    fn mul(&self, other: Self) -> (r: Option<Self>)
        ensures
            r == self.mul_spec(other),
    ;
}

/// Division that reports when the quotient is not a value of the type.
pub trait Div: Sized {
    /// The quotient, where the type has it. It is left open until a type says what it is.
    open spec fn div_spec(&self, other: Self) -> Option<Self> {
        arbitrary()
    }

    /// The quotient, or `None` where the type has none.
    fn div(&self, other: Self) -> (r: Option<Self>)
        ensures
            r == self.div_spec(other),
    ;
}

/// Remainder that reports when it is not a value of the type.
pub trait Rem: Sized {
    /// The remainder, where the type has it. It is left open until a type says what it is.
    open spec fn rem_spec(&self, other: Self) -> Option<Self> {
        arbitrary()
    }

    /// The remainder, or `None` where the type has none.
    fn rem(&self, other: Self) -> (r: Option<Self>)
        ensures
            r == self.rem_spec(other),
    ;
}

/// Raising to a power.
pub trait Pow<Rhs> {
    /// The power, or why there is none. It is left open until a type says what it is.
    open spec fn pow_spec(&self, exp: Rhs) -> Result<Rhs, EvalError> {
        arbitrary()
    }

    /// The power, or why there is none.
    fn pow(&self, exp: Rhs) -> (r: Result<Rhs, EvalError>)
        ensures
            r == self.pow_spec(exp),
    ;
}

/// Negation: the type's default value minus the operand.
pub trait Neg: Sized {
    /// The negated value, where the type has it. It is left open until a type says what it is.
    open spec fn neg_spec(&self) -> Option<Self> {
        arbitrary()
    }

    /// The negated value, or `None` where the type has none.
    fn checked_neg(&self) -> (r: Option<Self>)
        ensures
            r == self.neg_spec(),
    ;

    /// The negated value of an operand that has one.
    fn neg(&self) -> (r: Self)
        requires
            self.neg_spec() is Some,
        ensures
            self.neg_spec() == Some(r),
    ;
}

/// The functions of the circle, for the value types that have them.
pub trait Trig: Sized {
    fn sin(&self) -> Self;

    fn cos(&self) -> Self;

    fn tan(&self) -> Self;
}

/// The operators that an expression can apply to its values.
pub trait NumberOps: Add + Sub + Mul + Div + Rem + Neg + Pow<Self> {
}

impl<T: Add + Sub + Mul + Div + Rem + Neg + Pow<Self>> NumberOps for T {
}

/// A value type over which expressions are compiled and evaluated.
pub trait Number: Copy + NumberOps {
    /// The value of a variable that was given none. It is left open until a type
    /// says what it is.
    open spec fn zero_spec() -> Self {
        arbitrary()
    }

    /// The value of a variable that was given none.
    fn zero() -> (r: Self)
        ensures
            r == Self::zero_spec(),
    ;

    /// The value that a literal denotes, where it denotes one of the type. It is
    /// left open until a type says what it is.
    open spec fn parse_spec(text: Seq<char>) -> Option<Self> {
        arbitrary()
    }

    /// Reads a literal: a run of digits and points, as the compiler cuts it out of
    /// the source.
    fn parse(text: &[char]) -> (r: Option<Self>)
        requires
            is_literal(text@),
        ensures
            r == Self::parse_spec(text@),
    ;
}

/// A decimal digit.
pub open spec fn is_digit(c: char) -> bool {
    '0' <= c <= '9'
}

/// A nonempty run of digits and points.
pub open spec fn is_literal(text: Seq<char>) -> bool {
    &&& text.len() > 0
    &&& forall|i: int| 0 <= i < text.len() ==> is_digit(#[trigger] text[i]) || text[i] == '.'
}

/// The number that a digit stands for; zero for any other character.
pub open spec fn digit_value(c: char) -> nat {
    if is_digit(c) {
        (c as int - '0' as int) as nat
    } else {
        0
    }
}

/// The number that a run of digits denotes in base ten.
pub open spec fn decimal_value(digits: Seq<char>) -> nat
    decreases digits.len(),
{
    if digits.len() == 0 {
        0
    } else {
        10 * decimal_value(digits.drop_last()) + digit_value(digits.last())
    }
}

/// The number up to `max` that `text` denotes: `text` is a nonempty run of digits
/// and denotes no more than `max`.
pub open spec fn decimal(text: Seq<char>, max: nat) -> Option<nat> {
    if text.len() > 0 && (forall|i: int| 0 <= i < text.len() ==> is_digit(#[trigger] text[i]))
        && decimal_value(text) <= max {
        Some(decimal_value(text))
    } else {
        None
    }
}

/// A longer run of digits denotes no less than its beginning.
proof fn lemma_decimal_value_grows(digits: Seq<char>, i: int)
    requires
        0 <= i <= digits.len(),
    ensures
        decimal_value(digits.subrange(0, i)) <= decimal_value(digits),
    decreases digits.len(),
{
    if i < digits.len() {
        lemma_decimal_value_grows(digits.drop_last(), i);
        assert(digits.drop_last().subrange(0, i) == digits.subrange(0, i));
    } else {
        assert(digits.subrange(0, i) == digits);
    }
}

/// Reads a run of decimal digits that denotes no more than `max`.
pub fn parse_decimal(text: &[char], max: u128) -> (r: Option<u128>)
    ensures
        match decimal(text@, max as nat) {
            Some(n) => r == Some(n as u128),
            None => r is None,
        },
{
    if text.len() == 0 {
        return None;
    }
    let mut acc: u128 = 0;
    let mut i: usize = 0;
    while i < text.len()
        invariant
            i <= text.len(),
            forall|j: int| 0 <= j < i ==> is_digit(#[trigger] text@[j]),
            acc == decimal_value(text@.subrange(0, i as int)),
            acc <= max,
        decreases text.len() - i,
    {
        let c: char = text[i];
        if !(c >= '0' && c <= '9') {
            return None;
        }
        let digit: u128 = (c as u32 - '0' as u32) as u128;
        proof {
            let next = text@.subrange(0, i + 1);
            assert(next.drop_last() == text@.subrange(0, i as int));
            assert(decimal_value(next) == 10 * acc + digit);
            lemma_decimal_value_grows(text@, i + 1);
        }
        let shifted: u128 = match acc.checked_mul(10) {
            Some(m) => m,
            None => {
                return None;
            },
        };
        acc = match shifted.checked_add(digit) {
            Some(n) => n,
            None => {
                return None;
            },
        };
        if acc > max {
            return None;
        }
        i = i + 1;
    }
    assert(text@.subrange(0, i as int) == text@);
    Some(acc)
}

/// Quotient of `x` by a nonzero `d`, rounded towards zero.
pub open spec fn trunc_div(x: int, d: int) -> int {
    if x >= 0 && d > 0 {
        x / d
    } else if x < 0 && d < 0 {
        (-x) / (-d)
    } else if x < 0 {
        -((-x) / d)
    } else {
        -(x / (-d))
    }
}

/// What is left of `x` after `trunc_div(x, d)` times `d`: it has the sign of `x`.
pub open spec fn trunc_rem(x: int, d: int) -> int {
    if x >= 0 && d > 0 {
        x % d
    } else if x < 0 && d < 0 {
        -((-x) % (-d))
    } else if x < 0 {
        -((-x) % d)
    } else {
        x % (-d)
    }
}

/// Rounding towards zero keeps the quotient and the remainder within the dividend's magnitude.
pub proof fn lemma_trunc_bounds(x: int, d: int)
    requires
        d != 0,
    ensures
        x >= 0 ==> -x <= trunc_div(x, d) <= x && 0 <= trunc_rem(x, d) <= x,
        x <= 0 ==> x <= trunc_div(x, d) <= -x && x <= trunc_rem(x, d) <= 0,
        x == 0 ==> trunc_div(x, d) == 0 && trunc_rem(x, d) == 0,
        d == 1 ==> trunc_div(x, d) == x,
        d == -1 ==> trunc_div(x, d) == -x,
        x < 0 && d != 1 && d != -1 ==> x < trunc_div(x, d) < -x,
{
    let ax = if x >= 0 { x } else { -x };
    let ad = if d > 0 { d } else { -d };
    vstd::arithmetic::div_mod::lemma_div_pos_is_pos(ax, ad);
    vstd::arithmetic::div_mod::lemma_div_nonincreasing(ax, ad);
    vstd::arithmetic::div_mod::lemma_mod_decreases(ax as nat, ad as nat);
    vstd::arithmetic::div_mod::lemma_mod_pos_bound(ax, ad);
    if x == 0 {
        vstd::arithmetic::div_mod::lemma_div_of0(ad);
    } else if ad > 1 {
        vstd::arithmetic::div_mod::lemma_div_decreases(ax, ad);
    } else {
        vstd::arithmetic::div_mod::lemma_div_basics(ax);
    }
}

/// `base` raised to `exp` among the integers from `lo` to `hi`.
pub open spec fn int_pow(base: int, exp: int, lo: int, hi: int) -> Result<int, EvalError> {
    if exp < 0 {
        Err(EvalError::NegativeIntegerExponent)
    } else if lo <= pow(base, exp as nat) <= hi {
        Ok(pow(base, exp as nat))
    } else {
        Err(EvalError::Overflow)
    }
}

/// One more factor of magnitude two or more takes a power that has left the range further away.
proof fn lemma_pow_step_escapes(base: int, p: int, lo: int, hi: int)
    requires
        hi >= 1,
        lo == 0 || lo == -hi - 1,
        lo <= base <= hi,
        base >= 2 || base <= -2,
        lo == 0 ==> p >= 0,
        !(lo <= p <= hi),
    ensures
        !(lo <= base * p <= hi),
        lo == 0 ==> base * p >= 0,
{
    if p > hi {
        if base >= 2 {
            assert(base * p >= 2 * p) by (nonlinear_arith)
                requires
                    base >= 2,
                    p >= 0,
            ;
        } else {
            assert(base * p <= -2 * p) by (nonlinear_arith)
                requires
                    base <= -2,
                    p >= 0,
            ;
        }
    } else {
        if base >= 2 {
            assert(base * p <= 2 * p) by (nonlinear_arith)
                requires
                    base >= 2,
                    p <= 0,
            ;
        } else {
            assert(base * p >= -2 * p) by (nonlinear_arith)
                requires
                    base <= -2,
                    p <= 0,
            ;
        }
    }
}

/// Once a power of a base of magnitude two or more has left the range, every later power is outside it.
proof fn lemma_pow_escapes(base: int, i: nat, j: nat, lo: int, hi: int)
    requires
        hi >= 1,
        lo == 0 || lo == -hi - 1,
        lo <= base <= hi,
        base >= 2 || base <= -2,
        i <= j,
        !(lo <= pow(base, i) <= hi),
    ensures
        !(lo <= pow(base, j) <= hi),
        lo == 0 ==> pow(base, j) >= 0,
    decreases j,
{
    if lo == 0 {
        vstd::arithmetic::power::lemma_pow_positive(base, j);
        vstd::arithmetic::power::lemma_pow_positive(base, i);
    }
    if i < j {
        lemma_pow_escapes(base, i, (j - 1) as nat, lo, hi);
        reveal(pow);
        lemma_pow_step_escapes(base, pow(base, (j - 1) as nat), lo, hi);
    }
}

/// The powers of one and of minus one.
proof fn lemma_pow_unit(base: int, e: nat)
    requires
        base == 1 || base == -1,
    ensures
        pow(base, e) == if base == 1 || e % 2 == 0 { 1int } else { -1int },
    decreases e,
{
    reveal(pow);
    if e > 0 {
        lemma_pow_unit(base, (e - 1) as nat);
    }
}

/// `base` raised to `exp`, computed among the integers from `lo` to `hi`, which are
/// the bounds of an integer type: `lo` is zero or `-hi - 1`.
pub fn checked_int_pow(base: i128, exp: i128, lo: i128, hi: i128) -> (r: Result<i128, EvalError>)
    requires
        hi >= 1,
        lo == 0 || lo == -hi - 1,
        lo <= base <= hi,
    ensures
        match int_pow(base as int, exp as int, lo as int, hi as int) {
            Ok(p) => r == Ok::<i128, EvalError>(p as i128),
            Err(e) => r == Err::<i128, EvalError>(e),
        },
{
    if exp < 0 {
        return Err(EvalError::NegativeIntegerExponent);
    }
    proof {
        vstd::arithmetic::power::lemma_pow0(base as int);
        vstd::arithmetic::power::lemma_pow1(base as int);
    }
    if exp == 0 {
        return Ok(1);
    }
    if base == 0 {
        proof {
            vstd::arithmetic::power::lemma0_pow(exp as nat);
        }
        return Ok(0);
    }
    if base == 1 || base == -1 {
        proof {
            lemma_pow_unit(base as int, exp as nat);
        }
        return Ok(if base == 1 || exp % 2 == 0 { 1 } else { -1 });
    }
    let mut acc: i128 = base;
    let mut i: i128 = 1;
    while i < exp
        invariant
            hi >= 1,
            lo == 0 || lo == -hi - 1,
            lo <= base <= hi,
            base >= 2 || base <= -2,
            1 <= i <= exp,
            acc == pow(base as int, i as nat),
            lo <= acc <= hi,
        decreases exp - i,
    {
        proof {
            reveal(pow);
            assert(pow(base as int, (i + 1) as nat) == base * pow(base as int, i as nat));
        }
        match acc.checked_mul(base) {
            Some(next) => {
                assert(next == base * acc) by (nonlinear_arith)
                    requires
                        next == acc * base,
                ;
                if next < lo || next > hi {
                    proof {
                        lemma_pow_escapes(base as int, (i + 1) as nat, exp as nat, lo as int, hi as int);
                    }
                    return Err(EvalError::Overflow);
                }
                acc = next;
            },
            None => {
                proof {
                    assert(acc * base == base * acc) by (nonlinear_arith);
                    lemma_pow_escapes(base as int, (i + 1) as nat, exp as nat, lo as int, hi as int);
                }
                return Err(EvalError::Overflow);
            },
        }
        i = i + 1;
    }
    Ok(acc)
}

} // verus!
