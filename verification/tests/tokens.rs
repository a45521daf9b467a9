use crunch_eval::compiler::{get_operator, ExpressionCompiler, Token};
use crunch_eval::env::ExprEnv;
use crunch_eval::func::Function;
use crunch_eval::parser::{ParserError, ParserState};
use crunch_eval::{BinaryOp, UnaryOp, Value};
use std::collections::VecDeque;

type Compiler<'a> = ExpressionCompiler<'a, i32, 0>;

fn show(value: &Value<i32, 0>) -> String {
    match value {
        Value::Constant(c) => format!("{}", c),
        Value::Variable(i) => format!("v{}", i),
        Value::BinaryOperation(op, a, b) => format!("({} {:?} {})", show(a), op, show(b)),
        Value::UnaryOperation(UnaryOp::Neg, a) => format!("-{}", show(a)),
        Value::FunctionInvoke(call) => {
            let args: Vec<String> = call.args.iter().map(show).collect();
            format!("f{}({})", call.func.args(), args.join(", "))
        }
    }
}

fn show_token(token: &Token<i32, 0>) -> String {
    match token {
        Token::Value(value) => show(value),
        Token::BinaryOperator(priority, op) => format!("{:?}{}", op, priority),
        Token::Function(function) => format!("f{}", function.args()),
    }
}

fn number(n: i32) -> Token<i32, 0> {
    Token::Value(Value::Constant(n))
}

fn operator(c: char) -> Token<i32, 0> {
    get_operator(c).unwrap()
}

#[test]
fn operators_and_their_priorities() {
    let expected = [
        ('+', 0, BinaryOp::Add),
        ('-', 0, BinaryOp::Sub),
        ('*', 1, BinaryOp::Mul),
        ('/', 1, BinaryOp::Div),
        ('%', 1, BinaryOp::Rem),
        ('^', 2, BinaryOp::Pow),
    ];
    for (c, priority, op) in expected {
        match get_operator::<i32, 0>(c) {
            Some(Token::BinaryOperator(p, o)) => {
                assert_eq!(p, priority);
                assert_eq!(o, op);
            }
            _ => panic!("no operator for {}", c),
        }
    }
    assert!(get_operator::<i32, 0>('(').is_none());
    assert!(get_operator::<i32, 0>('a').is_none());
    assert!(get_operator::<i32, 0>(',').is_none());
}

#[test]
fn only_operators_are_operators() {
    assert!(operator('*').is_operator());
    assert_eq!(operator('*').get_priority(), 1);
    assert_eq!(operator('^').get_priority(), 2);
    assert!(!number(3).is_operator());
    assert_eq!(number(3).get_priority(), 0);
    let function: Token<i32, 0> = Token::Function(Function::new(|[x]: [i32; 1]| x));
    assert!(!function.is_operator());
    assert_eq!(function.get_priority(), 0);
}

#[test]
fn shunting_yard_puts_operators_behind_their_operands() {
    let tokens = vec![number(1), operator('+'), number(2), operator('*'), number(3)];
    let postfix = Compiler::shunting_yard(tokens).unwrap();
    let shown: Vec<String> = postfix.iter().map(show_token).collect();
    assert_eq!(shown, ["1", "2", "3", "Mul1", "Add0"]);
}

#[test]
fn shunting_yard_pops_equal_priorities() {
    let tokens = vec![
        number(8),
        operator('-'),
        number(3),
        operator('-'),
        number(2),
        operator('^'),
        number(2),
        operator('^'),
        number(3),
        operator('*'),
        number(5),
    ];
    let postfix = Compiler::shunting_yard(tokens).unwrap();
    let shown: Vec<String> = postfix.iter().map(show_token).collect();
    assert_eq!(shown, ["8", "3", "Sub0", "2", "2", "Pow2", "3", "Pow2", "5", "Mul1", "Sub0"]);
}

#[test]
fn shunting_yard_of_nothing_is_nothing() {
    assert!(Compiler::shunting_yard(Vec::new()).unwrap().is_empty());
}

#[test]
fn reduce_stack_builds_the_tree() {
    let stack: VecDeque<Token<i32, 0>> =
        vec![number(1), number(2), number(3), operator('*'), operator('+')].into();
    let value = Compiler::reduce_stack(stack).unwrap();
    assert_eq!(show(&value), "(1 Add (2 Mul 3))");
}

#[test]
fn reduce_stack_reports_a_dangling_value() {
    let stack: VecDeque<Token<i32, 0>> = vec![number(1), number(2)].into();
    assert!(matches!(Compiler::reduce_stack(stack), Err(ParserError::DanglingValue)));
}

#[test]
fn reduce_stack_reports_a_missing_value() {
    assert!(matches!(Compiler::reduce_stack(VecDeque::new()), Err(ParserError::NoValue)));
    let short: VecDeque<Token<i32, 0>> = vec![number(1), operator('+')].into();
    assert!(matches!(Compiler::reduce_stack(short), Err(ParserError::NoValue)));
    let function: VecDeque<Token<i32, 0>> =
        vec![Token::Function(Function::new(|[x]: [i32; 1]| x))].into();
    assert!(matches!(Compiler::reduce_stack(function), Err(ParserError::NoValue)));
}

#[test]
fn compile_value_takes_one_tree_off_the_end() {
    let mut stack: VecDeque<Token<i32, 0>> =
        vec![number(9), number(1), number(2), operator('-')].into();
    let value = Compiler::compile_value(&mut stack).unwrap();
    assert_eq!(show(&value), "(1 Sub 2)");
    assert_eq!(stack.len(), 1);
    let rest = Compiler::compile_value(&mut stack).unwrap();
    assert_eq!(show(&rest), "9");
    assert!(matches!(Compiler::compile_value(&mut stack), Err(ParserError::NoValue)));
}

#[test]
fn the_compiler_reads_names_numbers_and_operators() {
    let source: Vec<char> = "abc12.5+".chars().collect();
    let mut compiler: ExpressionCompiler<i32, 0> = ExpressionCompiler {
        parser: ParserState { source: &source, pos: 0 },
        env: ExprEnv::default(),
    };
    assert_eq!(compiler.parse_name(), Ok(vec!['a', 'b', 'c']));
    assert_eq!(compiler.parser.pos, 3);
    assert_eq!(compiler.parse_name(), Err(ParserError::ExpectedToken(3, "name")));
    assert_eq!(compiler.parse_number(), Err(ParserError::ExpectedToken(7, "number")));
    assert_eq!(compiler.parser.pos, 7);
    assert!(matches!(
        compiler.parse_binary_operator(),
        Ok(Token::BinaryOperator(0, BinaryOp::Add))
    ));
    assert_eq!(compiler.parser.pos, 8);
    assert!(matches!(
        compiler.parse_binary_operator(),
        Err(ParserError::ExpectedToken(9, "operator"))
    ));
}

#[test]
fn the_compiler_reads_terms() {
    let source: Vec<char> = "-(1+2)*3".chars().collect();
    let mut compiler: ExpressionCompiler<i32, 0> = ExpressionCompiler {
        parser: ParserState { source: &source, pos: 0 },
        env: ExprEnv::default(),
    };
    match compiler.parse_term_neg() {
        Ok(Token::Value(value)) => assert_eq!(show(&value), "-(1 Add 2)"),
        _ => panic!("no term"),
    }
    assert_eq!(compiler.parser.pos, 6);
    compiler.parser.pos = 0;
    match compiler.parse_expression(None) {
        Ok(value) => assert_eq!(show(&value), "(-(1 Add 2) Mul 3)"),
        Err(e) => panic!("{:?}", e),
    }
    assert_eq!(compiler.parser.pos, 9);
}
