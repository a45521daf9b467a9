use crunch_eval::env::ExprEnv;
use crunch_eval::expr::Expr;
use crunch_eval::number::{Add, Div, Mul, Neg, Number, Pow, Rem, Sub, Trig};
use crunch_eval::parser::ParserError;
use crunch_eval::EvalError;
use std::cell::Cell;
use std::rc::Rc;

/// A double-precision value for expressions.
#[derive(Clone, Copy, Debug, PartialEq, Default)]
struct Float(f64);

impl Add for Float {
    fn add(&self, other: Float) -> Option<Float> {
        Some(Float(self.0 + other.0))
    }
}

impl Sub for Float {
    fn sub(&self, other: Float) -> Option<Float> {
        Some(Float(self.0 - other.0))
    }
}

impl Mul for Float {
    fn mul(&self, other: Float) -> Option<Float> {
        Some(Float(self.0 * other.0))
    }
}

impl Div for Float {
    fn div(&self, other: Float) -> Option<Float> {
        Some(Float(self.0 / other.0))
    }
}

impl Rem for Float {
    fn rem(&self, other: Float) -> Option<Float> {
        Some(Float(self.0 % other.0))
    }
}

impl Pow<Float> for Float {
    fn pow(&self, exp: Float) -> Result<Float, EvalError> {
        Ok(Float(self.0.powf(exp.0)))
    }
}

impl Neg for Float {
    fn checked_neg(&self) -> Option<Float> {
        Some(Float(0.0 - self.0))
    }

    fn neg(&self) -> Float {
        Float(0.0 - self.0)
    }
}

impl Number for Float {
    fn zero() -> Float {
        Float(0.0)
    }

    fn parse(text: &[char]) -> Option<Float> {
        text.iter().collect::<String>().parse().ok().map(Float)
    }
}

impl Trig for Float {
    fn sin(&self) -> Float {
        Float(self.0.sin())
    }

    fn cos(&self) -> Float {
        Float(self.0.cos())
    }

    fn tan(&self) -> Float {
        Float(self.0.tan())
    }
}

#[test]
fn test() {
    assert_eq!(
        Expr::<i32, 0>::compile_env("1 + 1", Default::default())
            .unwrap()
            .evaluate(&[])
            .unwrap(),
        2
    );
    Expr::<i32, 0>::compile_env("1 / 0", Default::default())
        .unwrap()
        .evaluate(&[])
        .expect_err("divide by zero");
    assert_eq!(Expr::<Float, 0>::compile_env("6.5*7.8^2.3 + (3.5^3+7/2)^3 -(5*4/(2-3))*4 + 6.5*7.8^2.3 + (3.5^3+7/2)^3 -(5*4/(2-3))*4 + 6.5*7.8^2.3 + (3.5^3+7/2)^3 -(5*4/(2-3))*4 + 6.5*7.8^2.3 + (3.5^3+7/2)^3 -(5*4/(2-3))*4", Default::default())
            .unwrap()
            .evaluate(&[])
            .unwrap(),
        Float(402193.3186140596f64)
    );
}

#[test]
fn precedence_of_multiplication_over_addition() {
    let expr = Expr::<i32, 0>::compile("2+3*4").unwrap();
    assert_eq!(expr.evaluate_blank().unwrap(), 14);
}

#[test]
fn operators_of_one_priority_from_the_left() {
    assert_eq!(Expr::<i32, 0>::compile("8-3-2").unwrap().evaluate_blank().unwrap(), 3);
    assert_eq!(Expr::<i32, 0>::compile("2^3^2").unwrap().evaluate_blank().unwrap(), 64);
}

#[test]
fn variables_and_a_function() {
    let env = ExprEnv::new(["x", "y"]).with_func("abs", |[x]: [i32; 1]| x.abs());
    let expr = Expr::compile_env("x * abs(y)", env).unwrap();
    let val: i32 = expr.evaluate(&[4, -7]).unwrap();
    assert_eq!(val, 28);
}

#[test]
fn unbalanced_parenthesis_is_reported() {
    match Expr::<i32, 0>::compile("(1+2") {
        Err(ParserError::ExpectedChar(4, ')')) => {}
        other => panic!("{:?}", other.map(|_| ())),
    }
}

#[test]
fn trigonometry_on_floats() {
    let env = ExprEnv::<Float, 0>::default().with_trig();
    let expr = Expr::compile_env("sin(0) + cos(0)", env).unwrap();
    assert_eq!(expr.evaluate_blank().unwrap(), Float(1.0));
}

fn error_of(text: &str) -> ParserError {
    match Expr::<i32, 0>::compile(text) {
        Ok(_) => panic!("{} compiles", text),
        Err(e) => e,
    }
}

fn value_of(text: &str) -> Result<i32, EvalError> {
    Expr::<i32, 0>::compile(text).unwrap().evaluate_blank()
}

#[test]
fn exact_values_of_each_operator() {
    assert_eq!(value_of("7+2"), Ok(9));
    assert_eq!(value_of("7-9"), Ok(-2));
    assert_eq!(value_of("7*6"), Ok(42));
    assert_eq!(value_of("7/2"), Ok(3));
    assert_eq!(value_of("7%4"), Ok(3));
    assert_eq!(value_of("7^2"), Ok(49));
    assert_eq!(value_of("-7"), Ok(-7));
    assert_eq!(value_of("2+3*4^2"), Ok(50));
    assert_eq!(value_of("(2+3)*4"), Ok(20));
    assert_eq!(value_of("2*3+4*5"), Ok(26));
    assert_eq!(value_of("100/10/5"), Ok(2));
    assert_eq!(value_of("100-10-5"), Ok(85));
    assert_eq!(value_of("2^2*3"), Ok(12));
    assert_eq!(value_of("3*2^2"), Ok(12));
    assert_eq!(value_of("17%5%2"), Ok(0));
    assert_eq!(value_of("((((5))))"), Ok(5));
}

#[test]
fn division_and_remainder_by_zero() {
    assert_eq!(value_of("1/0"), Err(EvalError::DivideByZero));
    assert_eq!(value_of("1%0"), Err(EvalError::DivideByZero));
    assert_eq!(value_of("1/(2-2)"), Err(EvalError::DivideByZero));
    let float = Expr::<Float, 0>::compile("1.0/0.0").unwrap().evaluate_blank().unwrap();
    assert!(float.0.is_infinite());
}

#[test]
fn negative_integer_exponent() {
    assert_eq!(value_of("2^-1"), Err(EvalError::NegativeIntegerExponent));
    let folded = Expr::<i32, 0>::compile("2^-1").unwrap().flatten();
    assert!(matches!(folded, Err(EvalError::NegativeIntegerExponent)));
}

#[test]
fn overflow_is_an_error() {
    assert_eq!(value_of("2147483647+1"), Err(EvalError::Overflow));
    assert_eq!(value_of("0-2147483647-2"), Err(EvalError::Overflow));
    assert_eq!(value_of("65536*65536"), Err(EvalError::Overflow));
    assert_eq!(value_of("2^31"), Err(EvalError::Overflow));
    assert_eq!(value_of("2^30"), Ok(1073741824));
    let env = ExprEnv::<i32, 1>::new(["x"]);
    let negated = Expr::compile_env("-x", env).unwrap();
    assert_eq!(negated.evaluate(&[i32::MIN]), Err(EvalError::Overflow));
    assert_eq!(negated.evaluate(&[i32::MAX]), Ok(-i32::MAX));
}

#[test]
fn the_first_failure_from_the_left_is_reported() {
    assert_eq!(value_of("1/0+2^-1"), Err(EvalError::DivideByZero));
    assert_eq!(value_of("2^-1+1/0"), Err(EvalError::NegativeIntegerExponent));
}

#[test]
fn unary_minus() {
    assert_eq!(value_of("-3+5"), Ok(2));
    assert_eq!(value_of("2*-3"), Ok(-6));
    assert_eq!(value_of("-(-3)"), Ok(3));
    assert_eq!(value_of("-2^2"), Ok(4));
    assert_eq!(value_of("2--3"), Ok(5));
    assert_eq!(error_of("--3"), ParserError::ExpectedToken(1, "name"));
}

#[test]
fn whitespace_is_left_out() {
    assert_eq!(value_of("1 + 1"), value_of("1+1"));
    assert_eq!(value_of(" 1\t+\n1 "), Ok(2));
    assert_eq!(value_of("1 2 + 3"), Ok(15));
    let env = ExprEnv::<i32, 1>::new(["speed"]);
    let expr = Expr::compile_env("sp eed * 2", env).unwrap();
    assert_eq!(expr.evaluate(&[21]), Ok(42));
    assert_eq!(error_of("   "), ParserError::ExpectedToken(0, "name"));
}

#[test]
fn malformed_input_is_reported_with_its_position() {
    assert_eq!(error_of(""), ParserError::ExpectedToken(0, "name"));
    assert_eq!(error_of("(1+2"), ParserError::ExpectedChar(4, ')'));
    assert_eq!(error_of("1+"), ParserError::ExpectedToken(2, "name"));
    assert_eq!(error_of("1)"), ParserError::ExpectedToken(2, "operator"));
    assert_eq!(error_of("1,2"), ParserError::ExpectedToken(2, "operator"));
    assert_eq!(error_of("1 1.5"), ParserError::ExpectedToken(4, "number"));
    assert_eq!(error_of("1.2.3"), ParserError::ExpectedToken(5, "number"));
    assert_eq!(error_of("99999999999"), ParserError::ExpectedToken(11, "number"));
    assert_eq!(error_of("x"), ParserError::ExpectedToken(1, "name"));
    assert_eq!(error_of("2*(3+)"), ParserError::ExpectedToken(5, "name"));
    assert_eq!(error_of("2$3"), ParserError::ExpectedToken(2, "operator"));
    assert_eq!(error_of("()"), ParserError::ExpectedToken(1, "name"));
}

fn functions() -> ExprEnv<i32, 2> {
    ExprEnv::new(["x", "y"])
        .with_func("abs", |[x]: [i32; 1]| x.abs())
        .with_func("max", |[a, b]: [i32; 2]| a.max(b))
        .with_func("seven", |[]: [i32; 0]| 7)
}

fn refusal(text: &str) -> ParserError {
    match Expr::compile_env(text, functions()) {
        Ok(_) => panic!("{} compiles", text),
        Err(e) => e,
    }
}

#[test]
fn functions_of_every_arity() {
    let expr = Expr::compile_env("max(x, abs(y)) + seven()", functions()).unwrap();
    assert_eq!(expr.evaluate(&[4, -9]), Ok(16));
    assert_eq!(expr.evaluate(&[40, -9]), Ok(47));
    let nested = Expr::compile_env("max(max(1, 2), max(x, 3)) * -abs(-2)", functions()).unwrap();
    assert_eq!(nested.evaluate(&[5, 0]), Ok(-10));
}

#[test]
fn a_wrong_number_of_arguments_does_not_compile() {
    assert_eq!(refusal("abs(1,2)"), ParserError::ExpectedToken(6, "operator"));
    assert_eq!(refusal("max(1)"), ParserError::ExpectedToken(6, "operator"));
    assert_eq!(refusal("max(1,2,3)"), ParserError::ExpectedToken(8, "operator"));
    assert_eq!(refusal("seven(1)"), ParserError::ExpectedChar(6, ')'));
    assert_eq!(refusal("abs()"), ParserError::ExpectedToken(4, "name"));
    assert_eq!(refusal("abs"), ParserError::ExpectedChar(3, '('));
    assert_eq!(refusal("abs 1"), ParserError::ExpectedChar(3, '('));
    assert_eq!(refusal("abs(1"), ParserError::ExpectedChar(5, ')'));
    assert_eq!(refusal("x(1)"), ParserError::ExpectedToken(2, "operator"));
    assert_eq!(refusal("-abs"), ParserError::ExpectedChar(4, '('));
}

#[test]
fn a_failing_argument_ends_the_call_before_the_function_runs() {
    let calls = Rc::new(Cell::new(0));
    let seen = calls.clone();
    let env = ExprEnv::<i32, 0>::default().with_func("count", move |[a, b]: [i32; 2]| {
        seen.set(seen.get() + 1);
        a + b
    });
    let expr = Expr::compile_env("count(1, 2) + count(3, 1/0) + count(5, 6)", env).unwrap();
    assert_eq!(expr.evaluate_blank(), Err(EvalError::DivideByZero));
    assert_eq!(calls.get(), 1);
}

#[test]
fn each_call_runs_its_function_once_per_evaluation() {
    let calls = Rc::new(Cell::new(0));
    let seen = calls.clone();
    let env = ExprEnv::<i32, 0>::default().with_func("next", move |[]: [i32; 0]| {
        seen.set(seen.get() + 1);
        seen.get()
    });
    let expr = Expr::compile_env("next() * 10 + next()", env).unwrap();
    assert_eq!(expr.evaluate_blank(), Ok(12));
    assert_eq!(expr.evaluate_blank(), Ok(34));
    assert_eq!(calls.get(), 4);
    let copy = expr.clone();
    assert_eq!(copy.evaluate_blank(), Ok(56));
}

#[test]
fn the_later_of_two_names_is_meant() {
    let twice = ExprEnv::<i32, 3>::new(["a", "b", "a"]);
    let expr = Expr::compile_env("a*10+b", twice).unwrap();
    assert_eq!(expr.evaluate(&[1, 2, 3]), Ok(32));
    let shadowed = ExprEnv::<i32, 1>::new(["f"]).with_func("f", |[x]: [i32; 1]| x + 1);
    let call = Expr::compile_env("f(1)", shadowed).unwrap();
    assert_eq!(call.evaluate(&[100]), Ok(2));
    let replaced = ExprEnv::<i32, 0>::default()
        .with_func("f", |[x]: [i32; 1]| x + 1)
        .with_func("f", |[x, y]: [i32; 2]| x * y);
    let product = Expr::compile_env("f(6, 7)", replaced).unwrap();
    assert_eq!(product.evaluate_blank(), Ok(42));
}

#[test]
fn names_are_runs_of_alphabetic_characters() {
    let env = ExprEnv::<i32, 2>::new(["größe", "x1"]);
    let expr = Expr::compile_env("größe+1", env).unwrap();
    assert_eq!(expr.evaluate(&[41, 0]), Ok(42));
    let digits = ExprEnv::<i32, 2>::new(["größe", "x1"]);
    assert!(matches!(
        Expr::compile_env("x1", digits),
        Err(ParserError::ExpectedToken(1, "name"))
    ));
}

#[test]
fn evaluation_with_zeros() {
    let env = ExprEnv::<i32, 2>::new(["x", "y"]);
    let expr = Expr::compile_env("x*5+y+3", env).unwrap();
    assert_eq!(expr.evaluate_zero(), Ok(3));
    assert_eq!(expr.evaluate(&[2, 1]), Ok(14));
    let float = ExprEnv::<Float, 1>::new(["x"]);
    let half = Expr::compile_env("x+0.5", float).unwrap();
    assert_eq!(half.evaluate_zero(), Ok(Float(0.5)));
}

#[test]
fn other_integer_types() {
    assert_eq!(Expr::<u8, 0>::compile("200+55").unwrap().evaluate_blank(), Ok(255));
    assert_eq!(
        Expr::<u8, 0>::compile("200+56").unwrap().evaluate_blank(),
        Err(EvalError::Overflow)
    );
    assert_eq!(Expr::<u8, 0>::compile("-1").unwrap().evaluate_blank(), Err(EvalError::Overflow));
    assert!(Expr::<u8, 0>::compile("256").is_err());
    assert_eq!(
        Expr::<i64, 0>::compile("3^39").unwrap().evaluate_blank(),
        Ok(4052555153018976267)
    );
    assert_eq!(
        Expr::<i128, 0>::compile("0-170141183460469231731687303715884105727-1")
            .unwrap()
            .evaluate_blank(),
        Ok(i128::MIN)
    );
}
