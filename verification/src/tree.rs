//! The mathematical model of a compiled expression: what it is, what evaluating
//! it can give, and what folding its constants makes of it.

use vstd::prelude::*;
use crate::func::Function;
use crate::number::Number;
use crate::{BinaryOp, EvalError, UnaryOp};

verus! {

/// An expression as a tree of constants, variables, operators and calls.
#[verifier::reject_recursive_types(T)]
pub enum Tree<T: Number, const N: usize> {
    /// A literal.
    Constant(T),
    /// The variable in the given slot.
    Variable(usize),
    /// An operator with its left and right operand.
    Binary(BinaryOp, Box<Tree<T, N>>, Box<Tree<T, N>>),
    /// An operator with its operand.
    Unary(UnaryOp, Box<Tree<T, N>>),
    /// A function with its arguments.
    Call(Function<T, N>, Seq<Tree<T, N>>),
}

impl<T: Number, const N: usize> Tree<T, N> {
    /// Every variable has a slot among the `N`, and every call hands its function
    /// as many arguments as it takes.
    pub open spec fn wf(self) -> bool
        decreases self,
    {
        match self {
            Tree::Constant(_) => true,
            Tree::Variable(i) => i < N,
            Tree::Binary(_, a, b) => a.wf() && b.wf(),
            Tree::Unary(_, a) => a.wf(),
            Tree::Call(func, args) => {
                &&& func.wf()
                &&& args.len() == func.arity()
                &&& forall|i: int| 0 <= i < args.len() ==> (#[trigger] args[i]).wf()
            },
        }
    }

    /// The arguments `args[0]`, .., `args[vals.len() - 1]` can evaluate to `vals`.
    pub open spec fn args_yield(args: Seq<Tree<T, N>>, vars: Seq<T>, vals: Seq<T>) -> bool
        decreases args,
    {
        &&& vals.len() <= args.len()
        &&& forall|j: int|
            0 <= j < vals.len() ==> (#[trigger] args[j]).evaluates_to(
                vars,
                Ok::<T, EvalError>(vals[j]),
            )
    }

    /// Evaluation against `vars` can end in `r`.
    ///
    /// Operands are evaluated from left to right and the first failure ends the
    /// evaluation. A call evaluates its arguments in that way and then hands their
    /// values to the function: what the function returns is the value of the call.
    pub open spec fn evaluates_to(self, vars: Seq<T>, r: Result<T, EvalError>) -> bool
        decreases self,
    {
        match self {
            Tree::Constant(c) => r == Ok::<T, EvalError>(c),
            Tree::Variable(i) => r == Ok::<T, EvalError>(vars[i as int]),
            Tree::Unary(op, a) => exists|x: Result<T, EvalError>|
                a.evaluates_to(vars, x) && r == #[trigger] op.apply_to(x),
            Tree::Binary(op, a, b) => exists|x: Result<T, EvalError>, y: Result<T, EvalError>|
                {
                    &&& a.evaluates_to(vars, x)
                    &&& x is Ok ==> b.evaluates_to(vars, y)
                    &&& r == #[trigger] op.apply_to(x, y)
                },
            Tree::Call(func, args) => {
                ||| exists|vals: Seq<T>, out: T|
                    {
                        &&& Self::args_yield(args, vars, vals)
                        &&& vals.len() == args.len()
                        &&& #[trigger] func.relates(vals, out)
                        &&& r == Ok::<T, EvalError>(out)
                    }
                ||| exists|vals: Seq<T>|
                    #![trigger vals.len()]
                    {
                        &&& Self::args_yield(args, vars, vals)
                        &&& vals.len() < args.len()
                        &&& r is Err
                        &&& args[vals.len() as int].evaluates_to(vars, r)
                    }
            },
        }
    }

    /// What evaluation against `vars` gives, as long as no call stands in its way:
    /// `None` where evaluation comes to a call.
    pub open spec fn value(self, vars: Seq<T>) -> Option<Result<T, EvalError>>
        decreases self,
    {
        match self {
            Tree::Constant(c) => Some(Ok(c)),
            Tree::Variable(i) => Some(Ok(vars[i as int])),
            Tree::Unary(op, a) => match a.value(vars) {
                Some(x) => Some(op.apply_to(x)),
                None => None,
            },
            Tree::Binary(op, a, b) => match a.value(vars) {
                Some(Ok(v)) => match b.value(vars) {
                    Some(y) => Some(op.apply_to(Ok(v), y)),
                    None => None,
                },
                Some(Err(e)) => Some(Err(e)),
                None => None,
            },
            Tree::Call(_, _) => None,
        }
    }

    /// The trees in `args` with their constants folded, or the first failure among them.
    pub open spec fn fold_all(args: Seq<Tree<T, N>>) -> Result<Seq<Tree<T, N>>, EvalError>
        decreases args,
    {
        if args.len() == 0 {
            Ok(Seq::empty())
        } else {
            match Self::fold_all(args.drop_last()) {
                Ok(done) => match args.last().fold() {
                    Ok(last) => Ok(done.push(last)),
                    Err(e) => Err(e),
                },
                Err(e) => Err(e),
            }
        }
    }

    /// The tree with its constants folded: every operator whose operands have
    /// become constants is replaced by the constant that it gives. No call is
    /// replaced, whatever its arguments are. An operator that fails on its
    /// constants fails the folding; of several the leftmost does.
    pub open spec fn fold(self) -> Result<Tree<T, N>, EvalError>
        decreases self,
    {
        match self {
            Tree::Constant(_) => Ok(self),
            Tree::Variable(_) => Ok(self),
            Tree::Call(func, args) => match Self::fold_all(args) {
                Ok(folded) => Ok(Tree::Call(func, folded)),
                Err(e) => Err(e),
            },
            Tree::Binary(op, a, b) => match a.fold() {
                Ok(left) => match b.fold() {
                    Ok(right) => match (left, right) {
                        (Tree::Constant(x), Tree::Constant(y)) => match op.apply_spec(x, y) {
                            Ok(v) => Ok(Tree::Constant(v)),
                            Err(e) => Err(e),
                        },
                        _ => Ok(Tree::Binary(op, Box::new(left), Box::new(right))),
                    },
                    Err(e) => Err(e),
                },
                Err(e) => Err(e),
            },
            Tree::Unary(op, a) => match a.fold() {
                Ok(arg) => match arg {
                    Tree::Constant(x) => match op.apply_spec(x) {
                        Ok(v) => Ok(Tree::Constant(v)),
                        Err(e) => Err(e),
                    },
                    _ => Ok(Tree::Unary(op, Box::new(arg))),
                },
                Err(e) => Err(e),
            },
        }
    }
}

impl<T: Number, const N: usize> Tree<T, N> {
    /// Folding a sequence folds each of its trees.
    pub proof fn lemma_fold_all_each(args: Seq<Tree<T, N>>)
        requires
            Self::fold_all(args) is Ok,
        ensures
            Self::fold_all(args)->Ok_0.len() == args.len(),
            forall|j: int|
                0 <= j < args.len() ==> (#[trigger] args[j]).fold() == Ok::<Tree<T, N>, EvalError>(
                    Self::fold_all(args)->Ok_0[j],
                ),
        decreases args.len(),
    {
        if args.len() > 0 {
            Self::lemma_fold_all_each(args.drop_last());
            let folded = Self::fold_all(args)->Ok_0;
            let done = Self::fold_all(args.drop_last())->Ok_0;
            assert forall|j: int| 0 <= j < args.len() implies (#[trigger] args[j]).fold() == Ok::<
                Tree<T, N>,
                EvalError,
            >(folded[j]) by {
                if j < args.len() - 1 {
                    assert(args.drop_last()[j] == args[j]);
                    assert(folded[j] == done[j]);
                }
            }
        }
    }

    /// A sequence whose trees each fold folds to what they fold to.
    pub proof fn lemma_fold_all_from_each(args: Seq<Tree<T, N>>, folded: Seq<Tree<T, N>>)
        requires
            folded.len() == args.len(),
            forall|j: int|
                0 <= j < args.len() ==> (#[trigger] args[j]).fold() == Ok::<Tree<T, N>, EvalError>(
                    folded[j],
                ),
        ensures
            Self::fold_all(args) == Ok::<Seq<Tree<T, N>>, EvalError>(folded),
        decreases args.len(),
    {
        if args.len() > 0 {
            Self::lemma_fold_all_from_each(args.drop_last(), folded.drop_last());
            assert(folded.drop_last().push(folded.last()) == folded);
        } else {
            assert(folded == Seq::<Tree<T, N>>::empty());
        }
    }

    /// Folding is idempotent: a folded tree folds to itself.
    pub proof fn lemma_fold_idempotent(self)
        requires
            self.fold() is Ok,
        ensures
            self.fold()->Ok_0.fold() == self.fold(),
        decreases self,
    {
        match self {
            Tree::Constant(_) => {},
            Tree::Variable(_) => {},
            Tree::Unary(op, a) => {
                a.lemma_fold_idempotent();
            },
            Tree::Binary(op, a, b) => {
                a.lemma_fold_idempotent();
                b.lemma_fold_idempotent();
            },
            Tree::Call(func, args) => {
                let folded = Self::fold_all(args)->Ok_0;
                Self::lemma_fold_all_each(args);
                assert forall|j: int| 0 <= j < folded.len() implies (#[trigger] folded[j]).fold()
                    == Ok::<Tree<T, N>, EvalError>(folded[j]) by {
                    args[j].lemma_fold_idempotent();
                }
                Self::lemma_fold_all_from_each(folded, folded);
            },
        }
    }

    /// Folding keeps a tree well formed.
    pub proof fn lemma_fold_wf(self)
        requires
            self.wf(),
            self.fold() is Ok,
        ensures
            self.fold()->Ok_0.wf(),
        decreases self,
    {
        match self {
            Tree::Constant(_) => {},
            Tree::Variable(_) => {},
            Tree::Unary(op, a) => {
                a.lemma_fold_wf();
            },
            Tree::Binary(op, a, b) => {
                a.lemma_fold_wf();
                b.lemma_fold_wf();
            },
            Tree::Call(func, args) => {
                let folded = Self::fold_all(args)->Ok_0;
                Self::lemma_fold_all_each(args);
                assert forall|j: int| 0 <= j < folded.len() implies (#[trigger] folded[j]).wf() by {
                    args[j].lemma_fold_wf();
                }
            },
        }
    }

    /// Folding preserves evaluation: whatever the variables hold, the folded tree
    /// can evaluate to exactly what the tree can evaluate to, failures included.
    pub proof fn lemma_fold_evaluates(self, vars: Seq<T>, r: Result<T, EvalError>)
        requires
            self.fold() is Ok,
        ensures
            self.fold()->Ok_0.evaluates_to(vars, r) <==> self.evaluates_to(vars, r),
        decreases self,
    {
        let folded = self.fold()->Ok_0;
        match self {
            Tree::Constant(_) => {},
            Tree::Variable(_) => {},
            Tree::Unary(op, a) => {
                let arg = a.fold()->Ok_0;
                assert forall|x: Result<T, EvalError>|
                    arg.evaluates_to(vars, x) <==> a.evaluates_to(vars, x) by {
                    a.lemma_fold_evaluates(vars, x);
                }
                if self.evaluates_to(vars, r) {
                    let x = choose|x: Result<T, EvalError>|
                        a.evaluates_to(vars, x) && r == #[trigger] op.apply_to(x);
                    assert(arg.evaluates_to(vars, x));
                }
                if folded.evaluates_to(vars, r) {
                    if arg is Constant {
                        let x = Ok::<T, EvalError>(arg->Constant_0);
                        assert(arg.evaluates_to(vars, x));
                        assert(r == op.apply_to(x));
                    } else {
                        let x = choose|x: Result<T, EvalError>|
                            arg.evaluates_to(vars, x) && r == #[trigger] op.apply_to(x);
                        assert(a.evaluates_to(vars, x));
                    }
                }
            },
            Tree::Binary(op, a, b) => {
                let left = a.fold()->Ok_0;
                let right = b.fold()->Ok_0;
                assert forall|x: Result<T, EvalError>|
                    left.evaluates_to(vars, x) <==> a.evaluates_to(vars, x) by {
                    a.lemma_fold_evaluates(vars, x);
                }
                assert forall|y: Result<T, EvalError>|
                    right.evaluates_to(vars, y) <==> b.evaluates_to(vars, y) by {
                    b.lemma_fold_evaluates(vars, y);
                }
                if self.evaluates_to(vars, r) {
                    let (x, y) = choose|x: Result<T, EvalError>, y: Result<T, EvalError>|
                        {
                            &&& a.evaluates_to(vars, x)
                            &&& x is Ok ==> b.evaluates_to(vars, y)
                            &&& r == #[trigger] op.apply_to(x, y)
                        };
                    assert(left.evaluates_to(vars, x));
                    assert(x is Ok ==> right.evaluates_to(vars, y));
                }
                if folded.evaluates_to(vars, r) {
                    if left is Constant && right is Constant {
                        let x = Ok::<T, EvalError>(left->Constant_0);
                        let y = Ok::<T, EvalError>(right->Constant_0);
                        assert(left.evaluates_to(vars, x));
                        assert(right.evaluates_to(vars, y));
                        assert(r == op.apply_to(x, y));
                    } else {
                        let (x, y) = choose|x: Result<T, EvalError>, y: Result<T, EvalError>|
                            {
                                &&& left.evaluates_to(vars, x)
                                &&& x is Ok ==> right.evaluates_to(vars, y)
                                &&& r == #[trigger] op.apply_to(x, y)
                            };
                        assert(a.evaluates_to(vars, x));
                        assert(x is Ok ==> b.evaluates_to(vars, y));
                    }
                }
            },
            Tree::Call(func, args) => {
                let done = Self::fold_all(args)->Ok_0;
                Self::lemma_fold_all_each(args);
                assert forall|j: int, x: Result<T, EvalError>| 0 <= j < args.len() implies (
                #[trigger] done[j].evaluates_to(vars, x) <==> args[j].evaluates_to(vars, x)) by {
                    args[j].lemma_fold_evaluates(vars, x);
                }
                assert forall|vals: Seq<T>|
                    Self::args_yield(done, vars, vals) <==> Self::args_yield(args, vars, vals) by {
                    if Self::args_yield(done, vars, vals) {
                        Self::lemma_args_yield_alike(done, args, vars, vals);
                    }
                    if Self::args_yield(args, vars, vals) {
                        Self::lemma_args_yield_alike(args, done, vars, vals);
                    }
                }
                if self.evaluates_to(vars, r) {
                    if r is Ok {
                        let (vals, out) = choose|vals: Seq<T>, out: T|
                            {
                                &&& Self::args_yield(args, vars, vals)
                                &&& vals.len() == args.len()
                                &&& #[trigger] func.relates(vals, out)
                                &&& r == Ok::<T, EvalError>(out)
                            };
                        assert(Self::args_yield(done, vars, vals));
                        assert(folded->Call_0.relates(vals, out));
                        assert(folded.evaluates_to(vars, r));
                    } else {
                        let vals = choose|vals: Seq<T>|
                            #![trigger vals.len()]
                            {
                                &&& Self::args_yield(args, vars, vals)
                                &&& vals.len() < args.len()
                                &&& r is Err
                                &&& args[vals.len() as int].evaluates_to(vars, r)
                            };
                        assert(Self::args_yield(done, vars, vals));
                        assert(done[vals.len() as int].evaluates_to(vars, r));
                        assert(folded.evaluates_to(vars, r));
                    }
                }
                if folded.evaluates_to(vars, r) {
                    if r is Ok {
                        let (vals, out) = choose|vals: Seq<T>, out: T|
                            {
                                &&& Self::args_yield(done, vars, vals)
                                &&& vals.len() == done.len()
                                &&& #[trigger] func.relates(vals, out)
                                &&& r == Ok::<T, EvalError>(out)
                            };
                        assert(Self::args_yield(args, vars, vals));
                    } else {
                        let vals = choose|vals: Seq<T>|
                            #![trigger vals.len()]
                            {
                                &&& Self::args_yield(done, vars, vals)
                                &&& vals.len() < done.len()
                                &&& r is Err
                                &&& done[vals.len() as int].evaluates_to(vars, r)
                            };
                        assert(Self::args_yield(args, vars, vals));
                        assert(args[vals.len() as int].evaluates_to(vars, r));
                    }
                }
            },
        }
    }

    /// Where no call stands in the way, evaluation has one outcome.
    pub proof fn lemma_value(self, vars: Seq<T>, r: Result<T, EvalError>)
        requires
            self.value(vars) is Some,
        ensures
            self.evaluates_to(vars, r) <==> r == self.value(vars)->Some_0,
        decreases self,
    {
        match self {
            Tree::Constant(_) => {},
            Tree::Variable(_) => {},
            Tree::Unary(op, a) => {
                let x = a.value(vars)->Some_0;
                a.lemma_value(vars, x);
                if self.evaluates_to(vars, r) {
                    let z = choose|z: Result<T, EvalError>|
                        a.evaluates_to(vars, z) && r == #[trigger] op.apply_to(z);
                    a.lemma_value(vars, z);
                }
                if r == op.apply_to(x) {
                    assert(self.evaluates_to(vars, r));
                }
            },
            Tree::Binary(op, a, b) => {
                let x = a.value(vars)->Some_0;
                a.lemma_value(vars, x);
                if self.evaluates_to(vars, r) {
                    let (z, w) = choose|z: Result<T, EvalError>, w: Result<T, EvalError>|
                        {
                            &&& a.evaluates_to(vars, z)
                            &&& z is Ok ==> b.evaluates_to(vars, w)
                            &&& r == #[trigger] op.apply_to(z, w)
                        };
                    a.lemma_value(vars, z);
                    if x is Ok {
                        b.lemma_value(vars, w);
                    }
                }
                if r == self.value(vars)->Some_0 {
                    if x is Ok {
                        let y = b.value(vars)->Some_0;
                        b.lemma_value(vars, y);
                        assert(r == op.apply_to(x, y));
                    } else {
                        assert(r == op.apply_to(x, x));
                    }
                    assert(self.evaluates_to(vars, r));
                }
            },
            Tree::Call(_, _) => {},
        }
    }

    /// Where folding a sequence fails, the trees in front of some tree fold and that
    /// tree fails as the sequence does.
    pub proof fn lemma_fold_all_failure(args: Seq<Tree<T, N>>) -> (k: int)
        requires
            Self::fold_all(args) is Err,
        ensures
            0 <= k < args.len(),
            args[k].fold() is Err,
            args[k].fold()->Err_0 == Self::fold_all(args)->Err_0,
            forall|j: int| 0 <= j < k ==> (#[trigger] args[j]).fold() is Ok,
        decreases args.len(),
    {
        let fewer = args.drop_last();
        if Self::fold_all(fewer) is Err {
            let k = Self::lemma_fold_all_failure(fewer);
            assert(fewer[k] == args[k]);
            assert forall|j: int| 0 <= j < k implies (#[trigger] args[j]).fold() is Ok by {
                assert(fewer[j] == args[j]);
            }
            k
        } else {
            Self::lemma_fold_all_each(fewer);
            assert forall|j: int| 0 <= j < args.len() - 1 implies (#[trigger] args[j]).fold() is Ok by {
                assert(fewer[j] == args[j]);
            }
            args.len() - 1
        }
    }

    /// Folding fails only where evaluation fails: a tree whose folding fails
    /// evaluates to no value, whatever the variables hold.
    pub proof fn lemma_fold_fails(self, vars: Seq<T>, r: Result<T, EvalError>)
        requires
            self.fold() is Err,
            self.evaluates_to(vars, r),
        ensures
            r is Err,
        decreases self,
    {
        match self {
            Tree::Constant(_) => {},
            Tree::Variable(_) => {},
            Tree::Unary(op, a) => {
                let x = choose|x: Result<T, EvalError>|
                    a.evaluates_to(vars, x) && r == #[trigger] op.apply_to(x);
                if a.fold() is Err {
                    a.lemma_fold_fails(vars, x);
                } else {
                    a.lemma_fold_evaluates(vars, x);
                }
            },
            Tree::Binary(op, a, b) => {
                let (x, y) = choose|x: Result<T, EvalError>, y: Result<T, EvalError>|
                    {
                        &&& a.evaluates_to(vars, x)
                        &&& x is Ok ==> b.evaluates_to(vars, y)
                        &&& r == #[trigger] op.apply_to(x, y)
                    };
                if a.fold() is Err {
                    a.lemma_fold_fails(vars, x);
                } else if x is Ok {
                    if b.fold() is Err {
                        b.lemma_fold_fails(vars, y);
                    } else {
                        a.lemma_fold_evaluates(vars, x);
                        b.lemma_fold_evaluates(vars, y);
                    }
                }
            },
            Tree::Call(func, args) => {
                let k = Self::lemma_fold_all_failure(args);
                if r is Ok {
                    let (vals, out) = choose|vals: Seq<T>, out: T|
                        {
                            &&& Self::args_yield(args, vars, vals)
                            &&& vals.len() == args.len()
                            &&& #[trigger] func.relates(vals, out)
                            &&& r == Ok::<T, EvalError>(out)
                        };
                    args[k].lemma_fold_fails(vars, Ok(vals[k]));
                }
            },
        }
    }

    /// Arguments that evaluate alike, one for one, yield the same values.
    pub proof fn lemma_args_yield_alike(
        a: Seq<Tree<T, N>>,
        b: Seq<Tree<T, N>>,
        vars: Seq<T>,
        vals: Seq<T>,
    )
        requires
            a.len() == b.len(),
            forall|j: int, x: Result<T, EvalError>|
                0 <= j < a.len() ==> (#[trigger] a[j].evaluates_to(vars, x) <==> b[j].evaluates_to(
                    vars,
                    x,
                )),
            Self::args_yield(a, vars, vals),
        ensures
            Self::args_yield(b, vars, vals),
    {
        assert forall|j: int| 0 <= j < vals.len() implies (#[trigger] b[j]).evaluates_to(
            vars,
            Ok::<T, EvalError>(vals[j]),
        ) by {
            assert(a[j].evaluates_to(vars, Ok::<T, EvalError>(vals[j])));
        }
    }

    /// Where folding the first `n` trees fails, folding all of them fails in the same way.
    pub proof fn lemma_fold_all_fails(args: Seq<Tree<T, N>>, n: int)
        requires
            0 <= n <= args.len(),
            Self::fold_all(args.subrange(0, n)) is Err,
        ensures
            Self::fold_all(args) == Self::fold_all(args.subrange(0, n)),
        decreases args.len(),
    {
        if n < args.len() {
            assert(args.drop_last().subrange(0, n) == args.subrange(0, n));
            Self::lemma_fold_all_fails(args.drop_last(), n);
        } else {
            assert(args.subrange(0, n) == args);
        }
    }
}

} // verus!
