//! Compiled expressions.

use vstd::prelude::*;
use crate::compiler::{ExpressionCompiler, Token};
use crate::env::ExprEnv;
use crate::number::Number;
use crate::parser::ParserError;
use crate::tree::Tree;
use crate::{EvalError, Value};

verus! {

/// A compiled expression which evaluates to the numeric type `T` and requires
/// `N` variable values to evaluate.
#[verifier::reject_recursive_types(T)]
pub struct Expr<T: Number, const N: usize>(Value<T, N>);

impl<T: Number, const N: usize> View for Expr<T, N> {
    type V = Tree<T, N>;

    /// The tree of the expression.
    closed spec fn view(&self) -> Tree<T, N> {
        self.0@
    }
}

impl<T: Number, const N: usize> Expr<T, N> {
    #[verifier::type_invariant]
    spec fn inv(self) -> bool {
        self.0.wf()
    }

    /// Compiles the text into an expression over the variables and functions of
    /// the environment.
    pub fn compile_env(s: &str, env: ExprEnv<T, N>) -> (r: Result<Expr<T, N>, ParserError>)
        requires
            s@.len() < usize::MAX,
        ensures
            match crate::grammar::compiled(env@, s@) {
                Ok(tree) => r is Ok && r->Ok_0@ == tree && tree.wf(),
                Err(e) => r == Err::<Expr<T, N>, ParserError>(e),
            },
    {
        match ExpressionCompiler::compile(s, env) {
            Ok(value) => Ok(Expr(value)),
            Err(e) => Err(e),
        }
    }

    /// Evaluates the expression by supplying its variable values.
    pub fn evaluate(&self, vars: &[T; N]) -> (r: Result<T, EvalError>)
        ensures
            self@.wf(),
            self@.evaluates_to(vars@, r),
            self@.value(vars@) matches Some(v) ==> r == v,
    {
        proof {
            use_type_invariant(self);
        }
        self.0.evaluate(vars)
    }

    /// Evaluates by passing zero for all variable values.
    pub fn evaluate_zero(&self) -> (r: Result<T, EvalError>)
        ensures
            self@.evaluates_to(Seq::new(N as nat, |i: int| T::zero_spec()), r),
            self@.value(Seq::new(N as nat, |i: int| T::zero_spec())) matches Some(v) ==> r == v,
    {
        let zeros: [T; N] = vstd::array::array_fill_for_copy_types(T::zero());
        assert(zeros@ == Seq::new(N as nat, |i: int| T::zero_spec()));
        self.evaluate(&zeros)
    }

    /// Folds the operations on constant values, so that evaluation need not
    /// repeat them.
    pub fn flatten(self) -> (r: Result<Expr<T, N>, EvalError>)
        ensures
            match self@.fold() {
                Ok(tree) => r is Ok && r->Ok_0@ == tree,
                Err(e) => r == Err::<Expr<T, N>, EvalError>(e),
            },
    {
        proof {
            use_type_invariant(&self);
            if self.0@.fold() is Ok {
                self.0@.lemma_fold_wf();
            }
        }
        match self.0.flatten() {
            Ok(value) => Ok(Expr(value)),
            Err(e) => Err(e),
        }
    }
}

impl<T: Number, const N: usize> Clone for Expr<T, N> {
    fn clone(&self) -> (r: Self)
        ensures
            r@ == self@,
    {
        proof {
            use_type_invariant(self);
        }
        Expr(self.0.duplicate())
    }
}

impl<T: Number> Expr<T, 0> {
    /// Compiles an expression with a blank environment: one without variables
    /// and functions.
    pub fn compile(s: &str) -> (r: Result<Expr<T, 0>, ParserError>)
        requires
            s@.len() < usize::MAX,
        ensures
            match crate::grammar::compiled(Map::<Seq<char>, Token<T, 0>>::empty(), s@) {
                Ok(tree) => r is Ok && r->Ok_0@ == tree && tree.wf(),
                Err(e) => r == Err::<Expr<T, 0>, ParserError>(e),
            },
    {
        Self::compile_env(s, ExprEnv::default())
    }

    /// Evaluates by passing no variable values.
    pub fn evaluate_blank(&self) -> (r: Result<T, EvalError>)
        ensures
            self@.evaluates_to(Seq::<T>::empty(), r),
            self@.value(Seq::<T>::empty()) matches Some(v) ==> r == v,
    {
        let none: [T; 0] = [];
        assert(none@ == Seq::<T>::empty());
        self.evaluate(&none)
    }
}

} // verus!
