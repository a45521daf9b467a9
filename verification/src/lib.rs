//! Arithmetic expressions compiled once from text and evaluated many times.
//!
//! An expression over `+ - * / % ^`, parentheses, named variables and named
//! functions is compiled into a tree, which is then evaluated against an array
//! of variable values. Constant subtrees can be folded ahead of evaluation.

use vstd::prelude::*;
use crate::func::FunctionInvoke;
use crate::tree::Tree;
use crate::number::{Add, Div, Mul, Neg, Number, Pow, Rem, Sub};

pub mod compiler;
pub mod env;
pub mod expr;
pub mod func;
pub mod grammar;
pub mod number;
pub mod parser;
pub mod precedence;
pub mod tree;

verus! {

/// Why evaluating, or folding, an expression failed.
#[derive(Debug, Clone, Copy, PartialEq, Eq, Structural)]
pub enum EvalError {
    /// An integer was raised to a negative power.
    NegativeIntegerExponent,
    /// A quotient or remainder has no value.
    DivideByZero,
    /// A sum, difference, product, power or negation is not a value of the numeric type.
    Overflow,
}

/// An operator between two operands.
#[derive(Debug, Clone, Copy, PartialEq, Eq, Structural)]
pub enum BinaryOp {
    Add,
    Sub,
    Mul,
    Div,
    Rem,
    Pow,
}

/// An operator in front of one operand.
#[derive(Debug, Clone, Copy, PartialEq, Eq, Structural)]
pub enum UnaryOp {
    Neg,
}

/// `Ok` of what is there, the given error of what is not.
pub open spec fn ok_or<T>(value: Option<T>, error: EvalError) -> Result<T, EvalError> {
    match value {
        Some(v) => Ok(v),
        None => Err(error),
    }
}

impl BinaryOp {
    /// What the operator makes of `a` and `b`.
    pub open spec fn apply_spec<T: Number>(self, a: T, b: T) -> Result<T, EvalError> {
        match self {
            BinaryOp::Add => ok_or(a.add_spec(b), EvalError::Overflow),
            BinaryOp::Sub => ok_or(a.sub_spec(b), EvalError::Overflow),
            BinaryOp::Mul => ok_or(a.mul_spec(b), EvalError::Overflow),
            BinaryOp::Div => ok_or(a.div_spec(b), EvalError::DivideByZero),
            BinaryOp::Rem => ok_or(a.rem_spec(b), EvalError::DivideByZero),
            BinaryOp::Pow => a.pow_spec(b),
        }
    }

    /// What the operator makes of the outcomes of its operands: the failure of the
    /// left one, else that of the right one, else the operator applied to their values.
    pub open spec fn apply_to<T: Number>(
        self,
        x: Result<T, EvalError>,
        y: Result<T, EvalError>,
    ) -> Result<T, EvalError> {
        match x {
            Ok(v) => match y {
                Ok(w) => self.apply_spec(v, w),
                Err(e) => Err(e),
            },
            Err(e) => Err(e),
        }
    }

    /// Applies the operator.
    pub fn apply<T: Number>(self, a: T, b: T) -> (r: Result<T, EvalError>)
        ensures
            r == self.apply_spec(a, b),
    {
        match self {
            BinaryOp::Add => a.add(b).ok_or(EvalError::Overflow),
            BinaryOp::Sub => a.sub(b).ok_or(EvalError::Overflow),
            BinaryOp::Mul => a.mul(b).ok_or(EvalError::Overflow),
            BinaryOp::Div => a.div(b).ok_or(EvalError::DivideByZero),
            BinaryOp::Rem => a.rem(b).ok_or(EvalError::DivideByZero),
            BinaryOp::Pow => a.pow(b),
        }
    }
}

impl UnaryOp {
    /// What the operator makes of `a`.
    pub open spec fn apply_spec<T: Number>(self, a: T) -> Result<T, EvalError> {
        match self {
            UnaryOp::Neg => ok_or(a.neg_spec(), EvalError::Overflow),
        }
    }

    /// What the operator makes of the outcome of its operand: its failure, or the
    /// operator applied to its value.
    pub open spec fn apply_to<T: Number>(self, x: Result<T, EvalError>) -> Result<T, EvalError> {
        match x {
            Ok(v) => self.apply_spec(v),
            Err(e) => Err(e),
        }
    }

    /// Applies the operator.
    pub fn apply<T: Number>(self, a: T) -> (r: Result<T, EvalError>)
        ensures
            r == self.apply_spec(a),
    {
        match self {
            UnaryOp::Neg => a.checked_neg().ok_or(EvalError::Overflow),
        }
    }
}

/// A compiled expression: a tree whose leaves are constants and variables.
#[verifier::reject_recursive_types(T)]
pub enum Value<T: Number, const N: usize> {
    /// A literal.
    Constant(T),
    /// The variable in the given slot of the array that evaluation is given.
    Variable(usize),
    /// An operator with its left and right operand.
    BinaryOperation(BinaryOp, Box<Value<T, N>>, Box<Value<T, N>>),
    /// An operator with its operand.
    UnaryOperation(UnaryOp, Box<Value<T, N>>),
    /// A call of a registered function.
    FunctionInvoke(FunctionInvoke<T, N>),
}

impl<T: Number, const N: usize> View for Value<T, N> {
    type V = Tree<T, N>;

    open spec fn view(&self) -> Tree<T, N> {
        self.model()
    }
}

impl<T: Number, const N: usize> Value<T, N> {
    /// The tree that the value stands for.
    pub open spec fn model(self) -> Tree<T, N>
        decreases self,
    {
        match self {
            Value::Constant(c) => Tree::Constant(c),
            Value::Variable(i) => Tree::Variable(i),
            Value::BinaryOperation(op, a, b) => Tree::Binary(
                op,
                Box::new(a.model()),
                Box::new(b.model()),
            ),
            Value::UnaryOperation(op, a) => Tree::Unary(op, Box::new(a.model())),
            Value::FunctionInvoke(call) => Tree::Call(call.func, Self::models(call.args)),
        }
    }

    /// The trees that the values stand for.
    pub open spec fn models(values: Vec<Value<T, N>>) -> Seq<Tree<T, N>>
        decreases values,
    {
        Seq::new(
            values.len() as nat,
            |i: int|
                if 0 <= i < values.len() {
                    values[i].model()
                } else {
                    Tree::Variable(0)
                },
        )
    }

    /// The trees of a call's arguments are the trees of the arguments, one for one.
    pub proof fn lemma_models(values: Vec<Value<T, N>>)
        ensures
            Self::models(values).len() == values.len(),
            forall|i: int| 0 <= i < values.len() ==> Self::models(values)[i] == (#[trigger] values[i])@,
    {
    }

    /// Every variable has a slot among the `N`, and every call hands its function
    /// as many arguments as it takes.
    pub open spec fn wf(self) -> bool {
        self@.wf()
    }

    /// Evaluates the expression against the values of its variables.
    pub fn evaluate(&self, params: &[T; N]) -> (r: Result<T, EvalError>)
        requires
            self.wf(),
        ensures
            self@.evaluates_to(params@, r),
            self@.value(params@) matches Some(v) ==> r == v,
        decreases self,
    {
        let r = match self {
            Value::Constant(val) => Ok(*val),
            Value::Variable(ind) => Ok(params[*ind]),
            Value::BinaryOperation(op, a, b) => {
                let x = a.evaluate(params);
                match x {
                    Ok(v) => {
                        let y = b.evaluate(params);
                        let r = match y {
                            Ok(w) => op.apply(v, w),
                            Err(e) => Err(e),
                        };
                        assert(r == op.apply_to(x, y));
                        r
                    },
                    Err(e) => {
                        assert(Err::<T, EvalError>(e) == op.apply_to(x, x));
                        Err(e)
                    },
                }
            },
            Value::UnaryOperation(op, a) => {
                let x = a.evaluate(params);
                let r = match x {
                    Ok(v) => op.apply(v),
                    Err(e) => Err(e),
                };
                assert(r == op.apply_to(x));
                r
            },
            Value::FunctionInvoke(call) => call.invoke(params),
        };
        proof {
            if self@.value(params@) is Some {
                self@.lemma_value(params@, r);
            }
        }
        r
    }
}

impl<T: Number, const N: usize> Value<T, N> {
    /// A copy of the expression: the same tree, which shares the callbacks of its
    /// functions.
    pub fn duplicate(&self) -> (r: Value<T, N>)
        ensures
            r@ == self@,
        decreases self,
    {
        match self {
            Value::Constant(c) => Value::Constant(*c),
            Value::Variable(i) => Value::Variable(*i),
            Value::BinaryOperation(op, a, b) => Value::BinaryOperation(
                *op,
                Box::new(a.duplicate()),
                Box::new(b.duplicate()),
            ),
            Value::UnaryOperation(op, a) => Value::UnaryOperation(*op, Box::new(a.duplicate())),
            Value::FunctionInvoke(call) => Value::FunctionInvoke(call.duplicate()),
        }
    }

    /// Folds the constants of the expression: each operator whose operands have
    /// folded to constants is replaced by the constant that it gives. Calls are
    /// kept, with their arguments folded. An operator that fails on its constants
    /// fails the folding.
    pub fn flatten(self) -> (r: Result<Value<T, N>, EvalError>)
        ensures
            match self@.fold() {
                Ok(tree) => r is Ok && r->Ok_0@ == tree,
                Err(e) => r == Err::<Value<T, N>, EvalError>(e),
            },
        decreases self,
    {
        match self {
            Value::Constant(c) => Ok(Value::Constant(c)),
            Value::Variable(i) => Ok(Value::Variable(i)),
            Value::FunctionInvoke(call) => {
                let FunctionInvoke { func, args } = call;
                let ghost trees = Self::models(args);
                let ghost given = args;
                proof {
                    Self::lemma_models(args);
                }
                let mut folded: Vec<Value<T, N>> = Vec::new();
                proof {
                    assert(Self::models(folded) == Seq::<Tree<T, N>>::empty());
                    assert(trees.subrange(0, 0) == Seq::<Tree<T, N>>::empty());
                }
                for arg in it: args.into_iter()
                    invariant
                        it.seq() == given@,
                        self == Value::FunctionInvoke(FunctionInvoke { func, args: given }),
                        self@ == Tree::Call(func, trees),
                        trees.len() == given.len(),
                        forall|j: int| 0 <= j < given.len() ==> trees[j] == (#[trigger] given[j])@,
                        Tree::fold_all(trees.subrange(0, it.index())) == Ok::<Seq<Tree<T, N>>, EvalError>(
                            Self::models(folded),
                        ),
                {
                    let ghost i = it.index();
                    proof {
                        assert(arg == given[i]);
                        assert(trees.subrange(0, i + 1).drop_last() == trees.subrange(0, i));
                        assert(trees.subrange(0, i + 1).last() == given[i]@);
                    }
                    match arg.flatten() {
                        Ok(v) => {
                            proof {
                                Self::lemma_models(folded);
                            }
                            let ghost before = Self::models(folded);
                            folded.push(v);
                            proof {
                                Self::lemma_models(folded);
                                assert(Self::models(folded) == before.push(v@));
                            }
                        },
                        Err(e) => {
                            proof {
                                Tree::lemma_fold_all_fails(trees, i + 1);
                            }
                            return Err(e);
                        },
                    }
                }
                assert(trees.subrange(0, trees.len() as int) == trees);
                Ok(Value::FunctionInvoke(FunctionInvoke { func, args: folded }))
            },
            Value::BinaryOperation(op, a, b) => {
                let left = match (*a).flatten() {
                    Ok(v) => v,
                    Err(e) => {
                        return Err(e);
                    },
                };
                let right = match (*b).flatten() {
                    Ok(v) => v,
                    Err(e) => {
                        return Err(e);
                    },
                };
                match (left, right) {
                    (Value::Constant(x), Value::Constant(y)) => match op.apply(x, y) {
                        Ok(v) => Ok(Value::Constant(v)),
                        Err(e) => Err(e),
                    },
                    (left, right) => Ok(Value::BinaryOperation(op, Box::new(left), Box::new(right))),
                }
            },
            Value::UnaryOperation(op, a) => {
                let arg = match (*a).flatten() {
                    Ok(v) => v,
                    Err(e) => {
                        return Err(e);
                    },
                };
                match arg {
                    Value::Constant(x) => match op.apply(x) {
                        Ok(v) => Ok(Value::Constant(v)),
                        Err(e) => Err(e),
                    },
                    arg => Ok(Value::UnaryOperation(op, Box::new(arg))),
                }
            },
        }
    }
}

impl<T: Number, const N: usize> Clone for Value<T, N> {
    fn clone(&self) -> (r: Self)
        ensures
            r@ == self@,
    {
        self.duplicate()
    }
}

} // verus!
