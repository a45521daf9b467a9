//! What a source text means: the grammar of expressions.
//!
//! ```text
//! expression := term (operator term)* terminator
//! term       := '-'? factor
//! factor     := number | '(' expression ')' | variable | function '(' arguments ')'
//! ```
//!
//! Each function here reads from a position of the source and gives what stands
//! there together with the number of characters that it takes up, or the error
//! with which compilation ends.

use vstd::prelude::*;
use crate::compiler::Token;
use crate::func::Function;
use crate::number::Number;
use crate::parser::ParserError;
use crate::tree::Tree;
use crate::{BinaryOp, UnaryOp};

verus! {

/// How much of the source lies at and behind `pos`.
pub open spec fn remaining(source: Seq<char>, pos: int) -> nat {
    if pos <= source.len() {
        (source.len() - pos) as nat
    } else {
        0
    }
}

/// A character of a numeric literal: a digit or a point.
pub open spec fn number_char(c: char) -> bool {
    crate::number::is_digit(c) || c == '.'
}

/// What a numeric literal is made of.
pub open spec fn accepts_number() -> spec_fn(char) -> bool {
    |c: char| number_char(c)
}

/// What a name is made of: alphabetic characters.
pub open spec fn accepts_name() -> spec_fn(char) -> bool {
    |c: char| crate::parser::char_is_alphabetic(c)
}

/// The character that is reported as missing where `terminator` was expected.
pub open spec fn expected(terminator: Option<char>) -> char {
    match terminator {
        Some(c) => c,
        None => '\0',
    }
}

/// A run is no longer than the source behind its start.
pub proof fn lemma_run_within(source: Seq<char>, pos: int, accept: spec_fn(char) -> bool)
    ensures
        crate::parser::run_len(source, pos, accept) <= remaining(source, pos),
        pos < 0 ==> crate::parser::run_len(source, pos, accept) == 0,
    decreases source.len() - pos,
{
    if 0 <= pos < source.len() && accept(source[pos]) {
        lemma_run_within(source, pos + 1, accept);
    }
}

/// The factor at `pos`: a literal, an expression in parentheses, a variable, or
/// a call of a function.
pub open spec fn term<T: Number, const N: usize>(env: Map<Seq<char>, Token<T, N>>, source: Seq<char>, pos: int) -> Result<
    (Tree<T, N>, nat),
    ParserError,
>
    decreases remaining(source, pos), 0nat, 1nat,
{
    let at = crate::parser::char_at(source, pos);
    if at is Some && crate::number::is_digit(at->0) {
        let n = crate::parser::run_len(source, pos, accepts_number());
        match T::parse_spec(source.subrange(pos, pos + n)) {
            Some(value) => Ok((Tree::Constant(value), n)),
            None => Err(ParserError::ExpectedToken((pos + n) as usize, "number")),
        }
    } else if at == Some('(') {
        match expression(env, source, pos + 1, Some(')')) {
            Ok((tree, n)) => Ok((tree, n + 1)),
            Err(e) => Err(e),
        }
    } else {
        let n = crate::parser::run_len(source, pos, accepts_name());
        proof {
            lemma_run_within(source, pos, accepts_name());
        }
        if n == 0 {
            Err(ParserError::ExpectedToken(pos as usize, "name"))
        } else {
            let name = source.subrange(pos, pos + n);
            if !env.contains_key(name) {
                Err(ParserError::ExpectedToken((pos + n) as usize, "name"))
            } else {
                match env[name] {
                    Token::Function(function) => match call(env, source, pos + n, function) {
                        Ok((args, m)) => Ok((Tree::Call(function, args), n + m)),
                        Err(e) => Err(e),
                    },
                    Token::Value(value) => Ok((value@, n)),
                    _ => Err(ParserError::ExpectedToken((pos + n) as usize, "name")),
                }
            }
        }
    }
}

/// The arguments of a call of `function` in their parentheses, which open at `pos`.
pub open spec fn call<T: Number, const N: usize>(
    env: Map<Seq<char>, Token<T, N>>,
    source: Seq<char>,
    pos: int,
    function: Function<T, N>,
) -> Result<(Seq<Tree<T, N>>, nat), ParserError>
    decreases remaining(source, pos), 0nat, 0nat,
{
    if crate::parser::char_at(source, pos) != Some('(') {
        Err(ParserError::ExpectedChar(pos as usize, '('))
    } else if function.arity() == 0 {
        if crate::parser::char_at(source, pos + 1) != Some(')') {
            Err(ParserError::ExpectedChar((pos + 1) as usize, ')'))
        } else {
            Ok((Seq::empty(), 2))
        }
    } else {
        match arguments(env, source, pos + 1, function.arity()) {
            Ok((args, n)) => Ok((args, n + 1)),
            Err(e) => Err(e),
        }
    }
}

/// `count` arguments from `pos` on: expressions that end in a comma, but for the
/// last, which ends in the closing parenthesis.
pub open spec fn arguments<T: Number, const N: usize>(
    env: Map<Seq<char>, Token<T, N>>,
    source: Seq<char>,
    pos: int,
    count: nat,
) -> Result<(Seq<Tree<T, N>>, nat), ParserError>
    decreases remaining(source, pos), count, 5nat,
{
    if count <= 1 {
        match expression(env, source, pos, Some(')')) {
            Ok((tree, n)) => Ok((seq![tree], n)),
            Err(e) => Err(e),
        }
    } else {
        match expression(env, source, pos, Some(',')) {
            Ok((tree, n)) => match arguments(env, source, pos + n, (count - 1) as nat) {
                Ok((rest, m)) => Ok((seq![tree] + rest, n + m)),
                Err(e) => Err(e),
            },
            Err(e) => Err(e),
        }
    }
}

/// The term at `pos`: a factor, or a minus sign and the factor that it negates.
pub open spec fn term_neg<T: Number, const N: usize>(
    env: Map<Seq<char>, Token<T, N>>,
    source: Seq<char>,
    pos: int,
) -> Result<(Tree<T, N>, nat), ParserError>
    decreases remaining(source, pos), 0nat, 2nat,
{
    if crate::parser::char_at(source, pos) == Some('-') {
        match term(env, source, pos + 1) {
            Ok((tree, n)) => Ok((Tree::Unary(UnaryOp::Neg, Box::new(tree)), n + 1)),
            Err(e) => Err(e),
        }
    } else {
        term(env, source, pos)
    }
}

/// The operators and terms that follow a term, from `pos` up to the terminator
/// or the end of the source.
pub open spec fn more_operands<T: Number, const N: usize>(
    env: Map<Seq<char>, Token<T, N>>,
    source: Seq<char>,
    pos: int,
    terminator: Option<char>,
) -> Result<(Seq<Tree<T, N>>, Seq<(usize, BinaryOp)>, nat), ParserError>
    decreases remaining(source, pos), 0nat, 3nat,
{
    let at = crate::parser::char_at(source, pos);
    if at is None || at == terminator {
        Ok((Seq::empty(), Seq::empty(), 0))
    } else {
        match crate::compiler::operator_of(at->0) {
            None => Err(ParserError::ExpectedToken((pos + 1) as usize, "operator")),
            Some(operator) => match term_neg(env, source, pos + 1) {
                Ok((tree, n)) => match more_operands(env, source, pos + 1 + n, terminator) {
                    Ok((trees, operators, m)) => Ok(
                        (seq![tree] + trees, seq![operator] + operators, 1 + n + m),
                    ),
                    Err(e) => Err(e),
                },
                Err(e) => Err(e),
            },
        }
    }
}

/// The expression at `pos`, with the terminator behind it: its terms, with the
/// operators between them applied by their priorities. At the end of the source
/// a terminator of `None` is met; any other terminator is missing there.
pub open spec fn expression<T: Number, const N: usize>(
    env: Map<Seq<char>, Token<T, N>>,
    source: Seq<char>,
    pos: int,
    terminator: Option<char>,
) -> Result<(Tree<T, N>, nat), ParserError>
    decreases remaining(source, pos), 0nat, 4nat,
{
    match term_neg(env, source, pos) {
        Ok((first, n)) => match more_operands(env, source, pos + n, terminator) {
            Ok((trees, operators, m)) => if crate::parser::char_at(source, pos + n + m)
                != terminator {
                Err(ParserError::ExpectedChar((pos + n + m) as usize, expected(terminator)))
            } else {
                Ok(
                    (
                        crate::precedence::precedence_tree(seq![first] + trees, operators),
                        n + m + 1,
                    ),
                )
            },
            Err(e) => Err(e),
        },
        Err(e) => Err(e),
    }
}

/// The text without its whitespace.
pub open spec fn stripped(text: Seq<char>) -> Seq<char> {
    text.filter(|c: char| !crate::parser::char_is_whitespace(c))
}

/// The expression that `text` is, for the names of an environment: the expression that its
/// characters other than whitespace spell from the first to the last.
pub open spec fn compiled<T: Number, const N: usize>(env: Map<Seq<char>, Token<T, N>>, text: Seq<char>) -> Result<
    Tree<T, N>,
    ParserError,
> {
    match expression(env, stripped(text), 0, None) {
        Ok((tree, _)) => Ok(tree),
        Err(e) => Err(e),
    }
}

/// A text without whitespace is left as it is.
pub proof fn lemma_stripped_plain(text: Seq<char>)
    requires
        forall|i: int| 0 <= i < text.len() ==> !crate::parser::char_is_whitespace(#[trigger] text[i]),
    ensures
        stripped(text) == text,
    decreases text.len(),
{
    reveal(Seq::filter);
    if text.len() > 0 {
        let fewer = text.drop_last();
        assert forall|i: int| 0 <= i < fewer.len() implies !crate::parser::char_is_whitespace(
            #[trigger] fewer[i],
        ) by {
            assert(fewer[i] == text[i]);
        }
        lemma_stripped_plain(fewer);
        assert(fewer.push(text.last()) == text);
    }
}

/// What is left of a text holds no whitespace: leaving it out once more changes
/// nothing.
pub proof fn lemma_stripped_twice(text: Seq<char>)
    ensures
        stripped(stripped(text)) == stripped(text),
{
    let keep = |c: char| !crate::parser::char_is_whitespace(c);
    assert forall|i: int| 0 <= i < stripped(text).len() implies !crate::parser::char_is_whitespace(
        #[trigger] stripped(text)[i],
    ) by {
        text.lemma_filter_pred(keep, i);
    }
    lemma_stripped_plain(stripped(text));
}

/// Whitespace is irrelevant: two texts that are the same but for their
/// whitespace are the same expression, or fail in the same way.
pub proof fn lemma_whitespace_irrelevant<T: Number, const N: usize>(
    env: Map<Seq<char>, Token<T, N>>,
    a: Seq<char>,
    b: Seq<char>,
)
    requires
        stripped(a) == stripped(b),
    ensures
        compiled(env, a) == compiled(env, b),
{
}

/// A text and the text without its whitespace are the same expression, or fail
/// in the same way.
pub proof fn lemma_whitespace_removed<T: Number, const N: usize>(
    env: Map<Seq<char>, Token<T, N>>,
    text: Seq<char>,
)
    ensures
        compiled(env, stripped(text)) == compiled(env, text),
{
    lemma_stripped_twice(text);
}

} // verus!
