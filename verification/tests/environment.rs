use crunch_eval::compiler::Token;
use crunch_eval::env::{chars_of, same_chars, ExprEnv};
use crunch_eval::Value;

fn chars(text: &str) -> Vec<char> {
    text.chars().collect()
}

#[test]
fn variables_get_the_slots_of_their_places() {
    let env = ExprEnv::<i32, 3>::new(["x", "yy", "z"]);
    assert!(matches!(env.get(&chars("x")), Some(Token::Value(Value::Variable(0)))));
    assert!(matches!(env.get(&chars("yy")), Some(Token::Value(Value::Variable(1)))));
    assert!(matches!(env.get(&chars("z")), Some(Token::Value(Value::Variable(2)))));
    assert!(env.get(&chars("y")).is_none());
    assert!(env.get(&chars("")).is_none());
}

#[test]
fn the_blank_environment_knows_no_name() {
    let env = ExprEnv::<i32, 0>::default();
    assert!(env.get(&chars("x")).is_none());
}

#[test]
fn functions_are_found_under_their_names() {
    let env = ExprEnv::<i32, 1>::new(["x"])
        .with_func("twice", |[x]: [i32; 1]| 2 * x)
        .with_func("sum", |[a, b, c]: [i32; 3]| a + b + c);
    match env.get(&chars("twice")) {
        Some(Token::Function(function)) => {
            assert_eq!(function.args(), 1);
            assert_eq!(function.call(&[21]), 42);
        }
        _ => panic!("no function"),
    }
    match env.get(&chars("sum")) {
        Some(Token::Function(function)) => {
            assert_eq!(function.args(), 3);
            assert_eq!(function.call(&[1, 2, 3]), 6);
        }
        _ => panic!("no function"),
    }
    assert!(matches!(env.get(&chars("x")), Some(Token::Value(Value::Variable(0)))));
}

#[test]
fn texts_as_characters() {
    assert_eq!(chars_of("größe"), vec!['g', 'r', 'ö', 'ß', 'e']);
    assert_eq!(chars_of(""), Vec::<char>::new());
    assert!(same_chars(&chars("abc"), &chars("abc")));
    assert!(!same_chars(&chars("abc"), &chars("abd")));
    assert!(!same_chars(&chars("abc"), &chars("ab")));
    assert!(same_chars(&[], &[]));
}
