//! From source text to a compiled expression.

use vstd::prelude::*;
use std::collections::VecDeque;
use crate::env::ExprEnv;
use crate::func::{Function, FunctionInvoke};
use crate::number::Number;
use crate::parser::{ParserError, ParserState};
use crate::precedence::Lexeme;
use crate::tree::Tree;
use crate::{BinaryOp, UnaryOp, Value};

verus! {

/// What the compiler reads in the source: an operand, an operator between two
/// operands, or the name of a function.
#[verifier::reject_recursive_types(T)]
pub enum Token<T: Number, const N: usize> {
    /// An operand: a whole expression as one value.
    Value(Value<T, N>),
    /// An operator with its priority: of two neighbours the one with the higher
    /// priority takes its operands first.
    BinaryOperator(usize, BinaryOp),
    /// A function, as a name stands for it before its arguments are read.
    Function(Function<T, N>),
}

impl<T: Number, const N: usize> View for Token<T, N> {
    type V = Lexeme<T, N>;

    open spec fn view(&self) -> Lexeme<T, N> {
        match *self {
            Token::Value(v) => Lexeme::Operand(v@),
            Token::BinaryOperator(priority, op) => Lexeme::Operator(priority, op),
            Token::Function(f) => Lexeme::Function(f),
        }
    }
}

impl<T: Number, const N: usize> Token<T, N> {
    /// Whether the token is an operator.
    pub fn is_operator(&self) -> (r: bool)
        ensures
            r == (self@ is Operator),
    {
        match self {
            Token::BinaryOperator(_, _) => true,
            _ => false,
        }
    }

    /// The priority of an operator; zero for any other token.
    pub fn get_priority(&self) -> (r: usize)
        ensures
            r == self@.priority(),
    {
        match self {
            Token::BinaryOperator(priority, _) => *priority,
            _ => 0,
        }
    }
}

impl<T: Number, const N: usize> Clone for Token<T, N> {
    fn clone(&self) -> (r: Self)
        ensures
            r@ == self@,
    {
        match self {
            Token::Value(value) => Token::Value(value.duplicate()),
            Token::BinaryOperator(priority, op) => Token::BinaryOperator(*priority, *op),
            Token::Function(function) => Token::Function(function.clone()),
        }
    }
}

/// The operator that a character stands for, with its priority.
pub open spec fn operator_of(c: char) -> Option<(usize, BinaryOp)> {
    if c == '+' {
        Some((0usize, BinaryOp::Add))
    } else if c == '-' {
        Some((0usize, BinaryOp::Sub))
    } else if c == '*' {
        Some((1usize, BinaryOp::Mul))
    } else if c == '/' {
        Some((1usize, BinaryOp::Div))
    } else if c == '%' {
        Some((1usize, BinaryOp::Rem))
    } else if c == '^' {
        Some((2usize, BinaryOp::Pow))
    } else {
        None
    }
}

/// The operator at `pos`, if one stands there.
pub open spec fn operator_at(source: Seq<char>, pos: int) -> Option<(usize, BinaryOp)> {
    match crate::parser::char_at(source, pos) {
        Some(c) => operator_of(c),
        None => None,
    }
}

/// The operator token for `c`: `+ -` have priority 0, `* / %` priority 1, `^`
/// priority 2. No other character is an operator.
pub fn get_operator<T: Number, const N: usize>(c: char) -> (r: Option<Token<T, N>>)
    ensures
        match operator_of(c) {
            Some((priority, op)) => r == Some(Token::<T, N>::BinaryOperator(priority, op)),
            None => r is None,
        },
{
    match c {
        '+' => Some(Token::BinaryOperator(0, BinaryOp::Add)),
        '-' => Some(Token::BinaryOperator(0, BinaryOp::Sub)),
        '*' => Some(Token::BinaryOperator(1, BinaryOp::Mul)),
        '/' => Some(Token::BinaryOperator(1, BinaryOp::Div)),
        '%' => Some(Token::BinaryOperator(1, BinaryOp::Rem)),
        '^' => Some(Token::BinaryOperator(2, BinaryOp::Pow)),
        _ => None,
    }
}

/// The tokens as the rules of precedence see them.
pub open spec fn lexemes<T: Number, const N: usize>(tokens: Seq<Token<T, N>>) -> Seq<Lexeme<T, N>> {
    Seq::new(tokens.len(), |i: int| tokens[i]@)
}

/// One more token is one more lexeme.
pub proof fn lemma_lexemes_push<T: Number, const N: usize>(tokens: Seq<Token<T, N>>, token: Token<T, N>)
    ensures
        lexemes(tokens.push(token)) == lexemes(tokens).push(token@),
        lexemes(tokens.push(token)).drop_last() == lexemes(tokens),
        tokens.push(token).drop_last() == tokens,
{
}

/// One token less is one lexeme less.
pub proof fn lemma_lexemes_drop_last<T: Number, const N: usize>(tokens: Seq<Token<T, N>>)
    requires
        tokens.len() > 0,
    ensures
        lexemes(tokens.drop_last()) == lexemes(tokens).drop_last(),
        lexemes(tokens).last() == tokens.last()@,
{
}

/// Reads source text into compiled expressions.
#[verifier::reject_recursive_types(T)]
pub struct ExpressionCompiler<'a, T: Number, const N: usize> {
    pub parser: ParserState<'a>,
    pub env: ExprEnv<T, N>,
}

impl<'a, T: Number, const N: usize> ExpressionCompiler<'a, T, N> {
    /// Brings the tokens of an expression into postfix order: every operator
    /// stands behind its operands. Of two operators in a row the left one takes
    /// its operands first unless the right one has a higher priority.
    pub fn shunting_yard(tokens: Vec<Token<T, N>>) -> (r: Result<VecDeque<Token<T, N>>, ParserError>)
        ensures
            r is Ok,
            lexemes(r->Ok_0@) == crate::precedence::postfix_order(lexemes(tokens@)),
    {
        let mut ops: VecDeque<Token<T, N>> = VecDeque::new();
        let mut stack: VecDeque<Token<T, N>> = VecDeque::new();
        let ghost given = tokens@;
        proof {
            assert(given.subrange(0, 0) == Seq::<Token<T, N>>::empty());
            assert(lexemes(Seq::<Token<T, N>>::empty()) == Seq::<Lexeme<T, N>>::empty());
        }
        for token in it: tokens.into_iter()
            invariant
                it.seq() == given,
                (lexemes(stack@), lexemes(ops@)) == crate::precedence::shunt(
                    lexemes(given.subrange(0, it.index())),
                ),
        {
            let ghost read = given.subrange(0, it.index() + 1);
            proof {
                assert(read.drop_last() == given.subrange(0, it.index()));
                assert(read.last() == token);
                lemma_lexemes_drop_last(read);
            }
            if token.is_operator() {
                let ghost output0 = lexemes(stack@);
                let ghost stack0 = lexemes(ops@);
                let priority: usize = token.get_priority();
                while ops.len() > 0 && priority <= ops[ops.len() - 1].get_priority()
                    invariant
                        crate::precedence::pop_higher(lexemes(stack@), lexemes(ops@), priority)
                            == crate::precedence::pop_higher(output0, stack0, priority),
                    decreases ops.len(),
                {
                    proof {
                        lemma_lexemes_drop_last(ops@);
                        lemma_lexemes_push(stack@, ops@.last());
                    }
                    let top = ops.pop_back().unwrap();
                    stack.push_back(top);
                }
                proof {
                    if ops@.len() > 0 {
                        lemma_lexemes_drop_last(ops@);
                    }
                    lemma_lexemes_push(ops@, token);
                }
                ops.push_back(token);
            } else {
                proof {
                    lemma_lexemes_push(stack@, token);
                }
                stack.push_back(token);
            }
        }
        proof {
            assert(given.subrange(0, given.len() as int) == given);
        }
        let ghost output = lexemes(stack@);
        let ghost left = lexemes(ops@);
        while ops.len() > 0
            invariant
                lexemes(stack@) + lexemes(ops@).reverse() == output + left.reverse(),
            decreases ops.len(),
        {
            proof {
                lemma_lexemes_drop_last(ops@);
                lemma_lexemes_push(stack@, ops@.last());
                let o = lexemes(ops@);
                assert(lexemes(stack@).push(o.last()) + o.drop_last().reverse() == lexemes(stack@)
                    + o.reverse());
            }
            let top = ops.pop_back().unwrap();
            stack.push_back(top);
        }
        proof {
            assert(lexemes(ops@).reverse() == Seq::<Lexeme<T, N>>::empty());
            assert(lexemes(stack@) + Seq::<Lexeme<T, N>>::empty() == lexemes(stack@));
        }
        Ok(stack)
    }

    /// Takes the tree at the end of a postfix sequence off it: an operand, or an
    /// operator with the two trees in front of it, the right one first.
    pub fn compile_value(stack: &mut VecDeque<Token<T, N>>) -> (r: Result<Value<T, N>, ParserError>)
        ensures
            lexemes(final(stack)@) == crate::precedence::reduce(lexemes(old(stack)@)).1,
            match crate::precedence::reduce(lexemes(old(stack)@)).0 {
                Ok(tree) => r is Ok && r->Ok_0@ == tree,
                Err(e) => r == Err::<Value<T, N>, ParserError>(e),
            },
        decreases old(stack)@.len(),
    {
        proof {
            if stack@.len() > 0 {
                lemma_lexemes_drop_last(stack@);
                crate::precedence::lemma_reduce_rest(lexemes(stack@.drop_last()));
            }
        }
        match stack.pop_back() {
            Some(Token::Value(val)) => Ok(val),
            Some(Token::BinaryOperator(_, op)) => {
                let right = match Self::compile_value(stack) {
                    Ok(v) => v,
                    Err(e) => {
                        return Err(e);
                    },
                };
                let left = match Self::compile_value(stack) {
                    Ok(v) => v,
                    Err(e) => {
                        return Err(e);
                    },
                };
                Ok(Value::BinaryOperation(op, Box::new(left), Box::new(right)))
            },
            _ => Err(ParserError::NoValue),
        }
    }

    /// Reads a postfix sequence as one tree. A sequence that holds more than one
    /// tree leaves a dangling value.
    pub fn reduce_stack(stack: VecDeque<Token<T, N>>) -> (r: Result<Value<T, N>, ParserError>)
        ensures
            match crate::precedence::reduce_all(lexemes(stack@)) {
                Ok(tree) => r is Ok && r->Ok_0@ == tree,
                Err(e) => r == Err::<Value<T, N>, ParserError>(e),
            },
    {
        let mut stack = stack;
        let value = match Self::compile_value(&mut stack) {
            Ok(v) => v,
            Err(e) => {
                return Err(e);
            },
        };
        if stack.len() == 0 {
            Ok(value)
        } else {
            Err(ParserError::DanglingValue)
        }
    }
}

impl<'a, T: Number, const N: usize> ExpressionCompiler<'a, T, N> {
    /// The cursor lies within the source, and the source leaves room for the
    /// position behind its end.
    pub open spec fn wf(&self) -> bool {
        self.parser.pos <= self.parser.source@.len() < usize::MAX
    }

    /// Takes the name under the cursor: the longest run of alphabetic characters.
    /// Where the cursor is on none, the cursor stays and a name is reported as
    /// missing there.
    pub fn parse_name(&mut self) -> (r: Result<Vec<char>, ParserError>)
        ensures
            final(self).env == old(self).env,
            final(self).parser.source == old(self).parser.source,
            final(self).parser.pos == old(self).parser.pos + crate::parser::run_len(
                old(self).parser.source@,
                old(self).parser.pos as int,
                crate::grammar::accepts_name(),
            ),
            match r {
                Ok(name) => name@.len() > 0 && name@ == old(self).parser.source@.subrange(
                    old(self).parser.pos as int,
                    final(self).parser.pos as int,
                ),
                Err(e) => final(self).parser.pos == old(self).parser.pos && e
                    == ParserError::ExpectedToken(old(self).parser.pos, "name"),
            },
    {
        let filter = |c: char| -> (b: bool)
            ensures
                b == crate::parser::char_is_alphabetic(c),
            { crate::parser::is_alphabetic(c) };
        let r = self.parser.take_while("name", filter);
        proof {
            let source = old(self).parser.source@;
            let pos = old(self).parser.pos as int;
            let n = self.parser.pos - pos;
            if pos <= source.len() {
                crate::parser::lemma_run_len(source, pos, n as nat, crate::grammar::accepts_name());
            }
        }
        r
    }

    /// Takes the literal under the cursor, the longest run of digits and points,
    /// and reads it as a value. A run that is no value of the type is reported
    /// as a missing number behind it; no run at all, where the cursor is.
    pub fn parse_number(&mut self) -> (r: Result<T, ParserError>)
        ensures
            final(self).env == old(self).env,
            final(self).parser.source == old(self).parser.source,
            final(self).parser.pos == old(self).parser.pos + crate::parser::run_len(
                old(self).parser.source@,
                old(self).parser.pos as int,
                crate::grammar::accepts_number(),
            ),
            r == match T::parse_spec(
                old(self).parser.source@.subrange(
                    old(self).parser.pos as int,
                    final(self).parser.pos as int,
                ),
            ) {
                Some(value) if final(self).parser.pos > old(self).parser.pos => Ok::<T, ParserError>(
                    value,
                ),
                _ => Err::<T, ParserError>(
                    ParserError::ExpectedToken(final(self).parser.pos, "number"),
                ),
            },
    {
        let filter = |c: char| -> (b: bool)
            ensures
                b == crate::grammar::number_char(c),
            { (c >= '0' && c <= '9') || c == '.' };
        let taken = self.parser.take_while("number", filter);
        proof {
            let source = old(self).parser.source@;
            let pos = old(self).parser.pos as int;
            let n = self.parser.pos - pos;
            if pos <= source.len() {
                crate::parser::lemma_run_len(
                    source,
                    pos,
                    n as nat,
                    crate::grammar::accepts_number(),
                );
            }
        }
        match taken {
            Ok(text) => {
                assert(crate::number::is_literal(text@)) by {
                    assert forall|i: int| 0 <= i < text@.len() implies crate::number::is_digit(
                        #[trigger] text@[i],
                    ) || text@[i] == '.' by {
                        assert(text@[i] == old(self).parser.source@[old(self).parser.pos + i]);
                    }
                }
                match T::parse(text.as_slice()) {
                    Some(value) => Ok(value),
                    None => Err(ParserError::ExpectedToken(self.parser.pos, "number")),
                }
            },
            Err(e) => Err(e),
        }
    }

    /// Takes the operator under the cursor, which moves on by one. Where the
    /// cursor is on no operator, one is reported as missing behind the
    /// character that was read.
    pub fn parse_binary_operator(&mut self) -> (r: Result<Token<T, N>, ParserError>)
        requires
            old(self).parser.pos < usize::MAX,
        ensures
            final(self).env == old(self).env,
            final(self).parser.source == old(self).parser.source,
            final(self).parser.pos == old(self).parser.pos + 1,
            r == match operator_at(old(self).parser.source@, old(self).parser.pos as int) {
                Some((priority, op)) => Ok::<Token<T, N>, ParserError>(
                    Token::BinaryOperator(priority, op),
                ),
                None => Err::<Token<T, N>, ParserError>(
                    ParserError::ExpectedToken((old(self).parser.pos + 1) as usize, "operator"),
                ),
            },
    {
        let found = match self.parser.advance() {
            Some(c) => get_operator(c),
            None => None,
        };
        match found {
            Some(token) => Ok(token),
            None => Err(ParserError::ExpectedToken(self.parser.pos, "operator")),
        }
    }
}

/// What a function of the compiler returns where the grammar gives `meaning`:
/// the same tree as a well-formed value, or the same error.
pub open spec fn renders<T: Number, const N: usize>(
    r: Result<Value<T, N>, ParserError>,
    meaning: Result<(Tree<T, N>, nat), ParserError>,
) -> bool {
    match meaning {
        Ok((tree, _)) => r is Ok && r->Ok_0@ == tree && tree.wf(),
        Err(e) => r == Err::<Value<T, N>, ParserError>(e),
    }
}

/// As `renders`, for a function that returns its value as a token.
pub open spec fn renders_token<T: Number, const N: usize>(
    r: Result<Token<T, N>, ParserError>,
    meaning: Result<(Tree<T, N>, nat), ParserError>,
) -> bool {
    match meaning {
        Ok((tree, _)) => r matches Ok(Token::Value(value)) && value@ == tree && tree.wf(),
        Err(e) => r == Err::<Token<T, N>, ParserError>(e),
    }
}

/// How far the grammar reads from `pos`: nowhere where it fails.
pub open spec fn reach<R>(pos: int, meaning: Result<(R, nat), ParserError>) -> int {
    match meaning {
        Ok((_, n)) => pos + n,
        Err(_) => pos,
    }
}

impl<'a, T: Number, const N: usize> ExpressionCompiler<'a, T, N> {
    /// Reads the factor under the cursor and moves the cursor behind it.
    pub fn parse_term(&mut self) -> (r: Result<Token<T, N>, ParserError>)
        requires
            old(self).wf(),
        ensures
            final(self).env == old(self).env,
            final(self).parser.source == old(self).parser.source,
            renders_token(
                r,
                crate::grammar::term(
                    old(self).env@,
                    old(self).parser.source@,
                    old(self).parser.pos as int,
                ),
            ),
            r is Ok ==> final(self).wf() && final(self).parser.pos == reach(
                old(self).parser.pos as int,
                crate::grammar::term(
                    old(self).env@,
                    old(self).parser.source@,
                    old(self).parser.pos as int,
                ),
            ),
        decreases
            crate::grammar::remaining(old(self).parser.source@, old(self).parser.pos as int),
            0nat,
            1nat,
    {
        let ghost source = self.parser.source@;
        let ghost pos = self.parser.pos as int;
        let at = self.parser.peek();
        let digit = match at {
            Some(c) => c >= '0' && c <= '9',
            None => false,
        };
        let open = match at {
            Some(c) => c == '(',
            None => false,
        };
        if digit {
            proof {
                crate::grammar::lemma_run_within(source, pos, crate::grammar::accepts_number());
                assert(crate::parser::run_len(source, pos, crate::grammar::accepts_number()) > 0);
            }
            match self.parse_number() {
                Ok(value) => Ok(Token::Value(Value::Constant(value))),
                Err(e) => Err(e),
            }
        } else if open {
            self.parser.pos = self.parser.pos + 1;
            match self.parse_expression(Some(')')) {
                Ok(value) => Ok(Token::Value(value)),
                Err(e) => Err(e),
            }
        } else {
            proof {
                crate::grammar::lemma_run_within(source, pos, crate::grammar::accepts_name());
            }
            let name = match self.parse_name() {
                Ok(name) => name,
                Err(e) => {
                    return Err(e);
                },
            };
            match self.env.get(name.as_slice()) {
                None => Err(ParserError::ExpectedToken(self.parser.pos, "name")),
                Some(token) => match token {
                    Token::Function(func) => {
                        let function = func.clone();
                        self.parse_function(function)
                    },
                    Token::Value(Value::Variable(slot)) => Ok(Token::Value(Value::Variable(*slot))),
                    _ => vstd::pervasive::unreached(),
                },
            }
        }
    }

    /// Reads the arguments of a call of `function`, whose name the cursor has
    /// passed, and moves the cursor behind their closing parenthesis.
    pub fn parse_function(&mut self, function: Function<T, N>) -> (r: Result<Token<T, N>, ParserError>)
        requires
            old(self).wf(),
            function.wf(),
        ensures
            final(self).env == old(self).env,
            final(self).parser.source == old(self).parser.source,
            match crate::grammar::call(
                old(self).env@,
                old(self).parser.source@,
                old(self).parser.pos as int,
                function,
            ) {
                Ok((args, n)) => {
                    &&& r matches Ok(Token::Value(value)) && value@ == Tree::Call(function, args)
                        && value.wf()
                    &&& final(self).wf()
                    &&& final(self).parser.pos == old(self).parser.pos + n
                },
                Err(e) => r == Err::<Token<T, N>, ParserError>(e),
            },
        decreases
            crate::grammar::remaining(old(self).parser.source@, old(self).parser.pos as int),
            0nat,
            0nat,
    {
        let ghost source = self.parser.source@;
        let ghost env = self.env@;
        let ghost start = self.parser.pos as int;
        match self.parser.assert_char('(') {
            Ok(()) => {},
            Err(e) => {
                return Err(e);
            },
        }
        let count: usize = function.args();
        let mut args: Vec<Value<T, N>> = Vec::new();
        if count == 0 {
            match self.parser.assert_char(')') {
                Ok(()) => {},
                Err(e) => {
                    return Err(e);
                },
            }
            proof {
                Value::lemma_models(args);
                assert(Value::models(args) == Seq::<Tree<T, N>>::empty());
            }
        } else {
            let ghost first = self.parser.pos as int;
            let ghost whole = crate::grammar::arguments(env, source, first, count as nat);
            let ghost mut trees: Seq<Tree<T, N>> = Seq::empty();
            let mut i: usize = 0;
            while i < count - 1
                invariant
                    self.env@ == env,
                    self.env == old(self).env,
                    self.parser.source == old(self).parser.source,
                    self.parser.source@ == source,
                    start == old(self).parser.pos,
                    crate::parser::char_at(source, start) == Some('('),
                    count == function.arity(),
                    whole == crate::grammar::arguments(env, source, first, count as nat),
                    self.wf(),
                    start < source.len(),
                    first == start + 1,
                    first <= self.parser.pos,
                    count >= 1,
                    i <= count - 1,
                    args.len() == i,
                    trees.len() == i,
                    forall|j: int| 0 <= j < i ==> (#[trigger] args[j])@ == trees[j] && trees[j].wf(),
                    match crate::grammar::arguments(
                        env,
                        source,
                        self.parser.pos as int,
                        (count - i) as nat,
                    ) {
                        Ok((rest, m)) => whole == Ok::<(Seq<Tree<T, N>>, nat), ParserError>(
                            (trees + rest, (self.parser.pos - first + m) as nat),
                        ),
                        Err(e) => whole == Err::<(Seq<Tree<T, N>>, nat), ParserError>(e),
                    },
                decreases count - 1 - i,
            {
                let ghost here = self.parser.pos as int;
                match self.parse_expression(Some(',')) {
                    Ok(value) => {
                        proof {
                            let one = crate::grammar::expression(env, source, here, Some(','));
                            let tree = one->Ok_0.0;
                            let after = crate::grammar::arguments(
                                env,
                                source,
                                self.parser.pos as int,
                                (count - i - 1) as nat,
                            );
                            if after is Ok {
                                assert(trees + (seq![tree] + after->Ok_0.0) == trees.push(tree)
                                    + after->Ok_0.0);
                            }
                            trees = trees.push(tree);
                        }
                        args.push(value);
                    },
                    Err(e) => {
                        return Err(e);
                    },
                }
                i = i + 1;
            }
            match self.parse_expression(Some(')')) {
                Ok(value) => {
                    proof {
                        assert(trees + seq![value@] == trees.push(value@));
                        trees = trees.push(value@);
                    }
                    args.push(value);
                },
                Err(e) => {
                    return Err(e);
                },
            }
            proof {
                Value::lemma_models(args);
                assert(Value::models(args) == trees);
                assert(whole == Ok::<(Seq<Tree<T, N>>, nat), ParserError>(
                    (trees, (self.parser.pos - first) as nat),
                ));
                assert(Tree::Call(function, trees).wf());
            }
        }
        Ok(Token::Value(Value::FunctionInvoke(FunctionInvoke::new(function, args))))
    }

    /// Reads the term under the cursor, a factor that a minus sign may stand in
    /// front of, and moves the cursor behind it.
    pub fn parse_term_neg(&mut self) -> (r: Result<Token<T, N>, ParserError>)
        requires
            old(self).wf(),
        ensures
            final(self).env == old(self).env,
            final(self).parser.source == old(self).parser.source,
            renders_token(
                r,
                crate::grammar::term_neg(
                    old(self).env@,
                    old(self).parser.source@,
                    old(self).parser.pos as int,
                ),
            ),
            r is Ok ==> final(self).wf() && final(self).parser.pos == reach(
                old(self).parser.pos as int,
                crate::grammar::term_neg(
                    old(self).env@,
                    old(self).parser.source@,
                    old(self).parser.pos as int,
                ),
            ),
        decreases
            crate::grammar::remaining(old(self).parser.source@, old(self).parser.pos as int),
            0nat,
            2nat,
    {
        let negative = self.parser.check_char('-');
        let term = match self.parse_term() {
            Ok(term) => term,
            Err(e) => {
                return Err(e);
            },
        };
        if !negative {
            return Ok(term);
        }
        if let Token::Value(val) = term {
            Ok(Token::Value(Value::UnaryOperation(UnaryOp::Neg, Box::new(val))))
        } else {
            Err(ParserError::ExpectedToken(self.parser.pos, "term"))
        }
    }

    /// Reads the expression under the cursor up to its terminator and moves the
    /// cursor behind the terminator. A terminator of `None` is the end of the
    /// source.
    pub fn parse_expression(&mut self, terminator: Option<char>) -> (r: Result<
        Value<T, N>,
        ParserError,
    >)
        requires
            old(self).wf(),
        ensures
            final(self).env == old(self).env,
            final(self).parser.source == old(self).parser.source,
            renders(
                r,
                crate::grammar::expression(
                    old(self).env@,
                    old(self).parser.source@,
                    old(self).parser.pos as int,
                    terminator,
                ),
            ),
            r is Ok ==> final(self).parser.pos == reach(
                old(self).parser.pos as int,
                crate::grammar::expression(
                    old(self).env@,
                    old(self).parser.source@,
                    old(self).parser.pos as int,
                    terminator,
                ),
            ),
            r is Ok && terminator is Some ==> final(self).wf(),
        decreases
            crate::grammar::remaining(old(self).parser.source@, old(self).parser.pos as int),
            0nat,
            4nat,
    {
        let ghost source = self.parser.source@;
        let ghost env = self.env@;
        let ghost start = self.parser.pos as int;
        let mut tokens: Vec<Token<T, N>> = Vec::new();
        let first = match self.parse_term_neg() {
            Ok(token) => token,
            Err(e) => {
                return Err(e);
            },
        };
        let ghost head = first@->Operand_0;
        let ghost begin = self.parser.pos as int;
        let ghost whole = crate::grammar::more_operands(env, source, begin, terminator);
        let ghost mut trees: Seq<Tree<T, N>> = Seq::empty();
        let ghost mut operators: Seq<(usize, BinaryOp)> = Seq::empty();
        tokens.push(first);
        proof {
            assert(lexemes(tokens@) == crate::precedence::interleave(seq![head] + trees, operators));
            let all = crate::grammar::more_operands(env, source, begin, terminator);
            if all is Ok {
                assert(trees + all->Ok_0.0 == all->Ok_0.0);
                assert(operators + all->Ok_0.1 == all->Ok_0.1);
            }
        }
        loop
            invariant
                self.env@ == env,
                self.env == old(self).env,
                self.parser.source == old(self).parser.source,
                self.parser.source@ == source,
                start == old(self).parser.pos,
                crate::grammar::term_neg(env, source, start) == Ok::<(Tree<T, N>, nat), ParserError>(
                    (head, (begin - start) as nat),
                ),
                whole == crate::grammar::more_operands(env, source, begin, terminator),
                self.wf(),
                start <= begin <= self.parser.pos,
                trees.len() == operators.len(),
                head.wf(),
                forall|j: int| 0 <= j < trees.len() ==> (#[trigger] trees[j]).wf(),
                lexemes(tokens@) == crate::precedence::interleave(seq![head] + trees, operators),
                match crate::grammar::more_operands(env, source, self.parser.pos as int, terminator) {
                    Ok((rest, ops, m)) => whole == Ok::<
                        (Seq<Tree<T, N>>, Seq<(usize, BinaryOp)>, nat),
                        ParserError,
                    >((trees + rest, operators + ops, (self.parser.pos - begin + m) as nat)),
                    Err(e) => whole == Err::<
                        (Seq<Tree<T, N>>, Seq<(usize, BinaryOp)>, nat),
                        ParserError,
                    >(e),
                },
            ensures
                self.env@ == env,
                self.parser.source == old(self).parser.source,
                self.parser.source@ == source,
                self.wf(),
                begin <= self.parser.pos,
                trees.len() == operators.len(),
                head.wf(),
                forall|j: int| 0 <= j < trees.len() ==> (#[trigger] trees[j]).wf(),
                lexemes(tokens@) == crate::precedence::interleave(seq![head] + trees, operators),
                whole == Ok::<(Seq<Tree<T, N>>, Seq<(usize, BinaryOp)>, nat), ParserError>(
                    (trees, operators, (self.parser.pos - begin) as nat),
                ),
            decreases crate::grammar::remaining(source, self.parser.pos as int),
        {
            let at = self.parser.peek();
            let go_on = match at {
                Some(c) => match terminator {
                    Some(t) => c != t,
                    None => true,
                },
                None => false,
            };
            if !go_on {
                proof {
                    assert(trees + Seq::<Tree<T, N>>::empty() == trees);
                    assert(operators + Seq::<(usize, BinaryOp)>::empty() == operators);
                }
                break ;
            }
            let ghost here = self.parser.pos as int;
            let op = match self.parse_binary_operator() {
                Ok(op) => op,
                Err(e) => {
                    return Err(e);
                },
            };
            let ghost operator = operator_of(at->0)->0;
            let ghost lexed = lexemes(tokens@);
            proof {
                lemma_lexemes_push(tokens@, op);
            }
            tokens.push(op);
            let term = match self.parse_term_neg() {
                Ok(term) => term,
                Err(e) => {
                    return Err(e);
                },
            };
            proof {
                let tree = term@->Operand_0;
                lemma_lexemes_push(tokens@, term);
                let after = crate::grammar::more_operands(
                    env,
                    source,
                    self.parser.pos as int,
                    terminator,
                );
                if after is Ok {
                    assert(trees + (seq![tree] + after->Ok_0.0) == trees.push(tree) + after->Ok_0.0);
                    assert(operators + (seq![operator] + after->Ok_0.1) == operators.push(operator)
                        + after->Ok_0.1);
                }
                assert(lexed.push(op@).push(term@) == crate::precedence::interleave(
                    seq![head] + trees.push(tree),
                    operators.push(operator),
                ));
                trees = trees.push(tree);
                operators = operators.push(operator);
            }
            tokens.push(term);
        }
        let at = self.parser.peek();
        let met = match at {
            Some(c) => match terminator {
                Some(t) => c == t,
                None => false,
            },
            None => terminator.is_none(),
        };
        if !met {
            return Err(ParserError::ExpectedChar(self.parser.pos, terminator.unwrap_or_default()));
        }
        self.parser.pos = self.parser.pos + 1;
        let stack = match Self::shunting_yard(tokens) {
            Ok(stack) => stack,
            Err(e) => {
                return Err(e);
            },
        };
        proof {
            crate::precedence::lemma_postfix_precedence(seq![head] + trees, operators);
            crate::precedence::lemma_precedence_tree_wf(seq![head] + trees, operators);
        }
        Self::reduce_stack(stack)
    }

    /// Compiles the text into an expression over the variables and functions of
    /// the environment. Whitespace is left out before the text is read, wherever
    /// it stands.
    pub fn compile(s: &str, env: ExprEnv<T, N>) -> (r: Result<Value<T, N>, ParserError>)
        requires
            s@.len() < usize::MAX,
        ensures
            match crate::grammar::compiled(env@, s@) {
                Ok(tree) => r is Ok && r->Ok_0@ == tree && tree.wf(),
                Err(e) => r == Err::<Value<T, N>, ParserError>(e),
            },
    {
        let mut chars: Vec<char> = Vec::new();
        for c in it: s.chars()
            invariant
                it.seq() == s@,
                chars@ == crate::grammar::stripped(s@.subrange(0, it.index())),
                chars@.len() <= it.index(),
        {
            proof {
                let read = s@.subrange(0, it.index() + 1);
                assert(read.drop_last() == s@.subrange(0, it.index()));
                assert(read.last() == c);
                reveal(Seq::filter);
            }
            if !crate::parser::is_whitespace(c) {
                chars.push(c);
            }
        }
        proof {
            assert(s@.subrange(0, s@.len() as int) == s@);
        }
        let mut compiler = ExpressionCompiler {
            parser: ParserState { source: chars.as_slice(), pos: 0 },
            env,
        };
        compiler.parse_expression(None)
    }
}

} // verus!
