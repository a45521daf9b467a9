use crunch_eval::parser::{ParserError, ParserState};

fn chars(text: &str) -> Vec<char> {
    text.chars().collect()
}

#[test]
fn peek_leaves_the_cursor() {
    let source = chars("ab");
    let state = ParserState { source: &source, pos: 1 };
    assert_eq!(state.peek(), Some('b'));
    assert_eq!(state.pos, 1);
    let end = ParserState { source: &source, pos: 2 };
    assert_eq!(end.peek(), None);
    let beyond = ParserState { source: &source, pos: 7 };
    assert_eq!(beyond.peek(), None);
}

#[test]
fn advance_moves_on_even_at_the_end() {
    let source = chars("ab");
    let mut state = ParserState { source: &source, pos: 0 };
    assert_eq!(state.advance(), Some('a'));
    assert_eq!(state.advance(), Some('b'));
    assert_eq!(state.pos, 2);
    assert_eq!(state.advance(), None);
    assert_eq!(state.pos, 3);
}

#[test]
fn assert_char_names_the_position_of_the_missing_character() {
    let source = chars("(x");
    let mut state = ParserState { source: &source, pos: 0 };
    assert_eq!(state.assert_char('('), Ok(()));
    assert_eq!(state.pos, 1);
    assert_eq!(state.assert_char(')'), Err(ParserError::ExpectedChar(1, ')')));
    assert_eq!(state.pos, 2);
    assert_eq!(state.assert_char(')'), Err(ParserError::ExpectedChar(2, ')')));
    assert_eq!(state.pos, 3);
    let single = chars("a");
    let mut start = ParserState { source: &single, pos: 0 };
    assert_eq!(start.assert_char('('), Err(ParserError::ExpectedChar(0, '(')));
}

#[test]
fn check_char_moves_only_over_the_character() {
    let source = chars("-1");
    let mut state = ParserState { source: &source, pos: 0 };
    assert!(!state.check_char('+'));
    assert_eq!(state.pos, 0);
    assert!(state.check_char('-'));
    assert_eq!(state.pos, 1);
    assert!(!state.check_char('-'));
    state.pos = 2;
    assert!(!state.check_char('-'));
    assert_eq!(state.pos, 2);
}

#[test]
fn take_while_takes_the_longest_run() {
    let source = chars("abc12");
    let mut state = ParserState { source: &source, pos: 0 };
    let run = state.take_while("name", |c: char| c.is_alphabetic());
    assert_eq!(run, Ok(chars("abc")));
    assert_eq!(state.pos, 3);
    let digits = state.take_while("number", |c: char| c.is_ascii_digit());
    assert_eq!(digits, Ok(chars("12")));
    assert_eq!(state.pos, 5);
}

#[test]
fn take_while_fails_on_an_empty_run() {
    let source = chars("12");
    let mut state = ParserState { source: &source, pos: 0 };
    let run = state.take_while("name", |c: char| c.is_alphabetic());
    assert_eq!(run, Err(ParserError::ExpectedToken(0, "name")));
    assert_eq!(state.pos, 0);
    state.pos = 2;
    let end = state.take_while("number", |c: char| c.is_ascii_digit());
    assert_eq!(end, Err(ParserError::ExpectedToken(2, "number")));
    assert_eq!(state.pos, 2);
}

#[test]
fn take_while_counts_characters_not_bytes() {
    let source = chars("été+1");
    let mut state = ParserState { source: &source, pos: 0 };
    let run = state.take_while("name", |c: char| c.is_alphabetic());
    assert_eq!(run, Ok(chars("été")));
    assert_eq!(state.pos, 3);
    assert_eq!(state.peek(), Some('+'));
}
