//! Functions that an expression can call.

use vstd::prelude::*;
use std::rc::Rc;
use crate::number::Number;
use crate::tree::Tree;
use crate::{EvalError, Value};

verus! {

/// A function of `A` arguments that can be registered under a name: any callback
/// from an array of `A` values to a value.
pub trait CustomFunc<T: Number, const N: usize, const A: usize>: 'static + Fn([T; A]) -> T {
}

impl<T: Number, const N: usize, const A: usize, F: 'static + Fn([T; A]) -> T> CustomFunc<T, N, A> for F {
}

/// A callback seen without its type and without the number of its arguments.
trait Callable<T> {
    /// How many arguments the callback takes.
    spec fn arity(&self) -> nat;

    /// The callback can be called on every array of arguments.
    spec fn ready(&self) -> bool;

    /// The callback can return `out` for `args`.
    spec fn relates(&self, args: Seq<T>, out: T) -> bool;

    fn call(&self, args: &[T]) -> (r: T)
        requires
            self.ready(),
            args@.len() == self.arity(),
        ensures
            self.relates(args@, r),
    ;
}

/// A callback of `A` arguments as one that takes a slice.
struct Adapter<F, const A: usize> {
    f: F,
}

/// `<[T; A] as TryFrom<&[T]>>::try_from`, which copies a slice of `A` values
/// into an array and fails on a slice of any other length.
#[verifier::external_body]
fn to_array<T: Copy, const A: usize>(s: &[T]) -> (r: [T; A])
    requires
        s@.len() == A,
    ensures
        r@ == s@,
{
    s.try_into().unwrap()
}

impl<T: Number, const A: usize, F: Fn([T; A]) -> T> Callable<T> for Adapter<F, A> {
    closed spec fn arity(&self) -> nat {
        A as nat
    }

    closed spec fn ready(&self) -> bool {
        forall|a: [T; A]| call_requires(self.f, (a,))
    }

    closed spec fn relates(&self, args: Seq<T>, out: T) -> bool {
        exists|a: [T; A]| a@ == args && call_ensures(self.f, (a,), out)
    }

    fn call(&self, args: &[T]) -> (r: T) {
        let a: [T; A] = to_array(args);
        (self.f)(a)
    }
}

/// A callback behind a trait object.
#[verifier::reject_recursive_types(T)]
struct Erased<T>(Box<dyn Callable<T>>);

/// The adapter behind a trait object.
fn erase<T: Number, F: Fn([T; A]) -> T + 'static, const A: usize>(adapter: Adapter<F, A>) -> (r:
    Erased<T>)
    ensures
        r.0.arity() == A,
        r.0.ready() == adapter.ready(),
        forall|args: Seq<T>, out: T| r.0.relates(args, out) == adapter.relates(args, out),
{
    Erased(Box::new(adapter))
}

/// One more pointer to the same callback.
fn share<T>(f: &Rc<Erased<T>>) -> (r: Rc<Erased<T>>)
    ensures
        r == *f,
{
    Rc::clone(f)
}

/// A registered function: a callback and the number of arguments that it takes.
/// Every call of the function in every expression shares the one callback.
#[verifier::reject_recursive_types(T)]
pub struct Function<T: Number, const N: usize> {
    func: Rc<Erased<T>>,
    args: usize,
}

impl<T: Number, const N: usize> Function<T, N> {
    /// The function can be called on as many arguments as it takes.
    pub closed spec fn wf(&self) -> bool {
        self.func.0.arity() == self.args && self.func.0.ready()
    }

    /// How many arguments the function takes.
    pub closed spec fn arity(&self) -> nat {
        self.args as nat
    }

    /// The function can return `out` for `args`. Nothing obliges a function to
    /// return the same for the same.
    pub closed spec fn relates(&self, args: Seq<T>, out: T) -> bool {
        self.func.0.relates(args, out)
    }

    /// How many arguments the function takes.
    pub fn args(&self) -> (n: usize)
        ensures
            n == self.arity(),
    {
        self.args
    }

    /// A function of `A` arguments from a callback that takes them as an array.
    pub fn new<const A: usize, F: CustomFunc<T, N, A>>(f: F) -> (r: Function<T, N>)
        requires
            forall|a: [T; A]| call_requires(f, (a,)),
        ensures
            r.wf(),
            r.arity() == A,
            forall|args: Seq<T>, out: T| #[trigger]
                r.relates(args, out) <==> exists|a: [T; A]|
                    a@ == args && call_ensures(f, (a,), out),
    {
        Function { func: Rc::new(erase(Adapter { f })), args: A }
    }

    /// Calls the function.
    pub fn call(&self, a: &[T]) -> (r: T)
        requires
            self.wf(),
            a@.len() == self.arity(),
        ensures
            self.relates(a@, r),
    {
        self.func.0.call(a)
    }
}

impl<T: Number, const N: usize> Clone for Function<T, N> {
    /// The same function once more: it shares the callback.
    fn clone(&self) -> (r: Self)
        ensures
            r == *self,
    {
        Function { func: share(&self.func), args: self.args }
    }
}

/// A call: a function and the expressions for its arguments.
#[verifier::reject_recursive_types(T)]
pub struct FunctionInvoke<T: Number, const N: usize> {
    /// The function that is called.
    pub func: Function<T, N>,
    /// The arguments, in the order of the call.
    pub args: Vec<Value<T, N>>,
}

impl<T: Number, const N: usize> FunctionInvoke<T, N> {
    /// A call of `func` on `args`.
    pub fn new(func: Function<T, N>, args: Vec<Value<T, N>>) -> (r: FunctionInvoke<T, N>)
        ensures
            r.func == func,
            r.args == args,
    {
        FunctionInvoke { func, args }
    }

    /// Evaluates the arguments from left to right and calls the function on their
    /// values. The first argument that fails ends the call with its error, before
    /// the function is called.
    pub fn invoke(&self, vars: &[T; N]) -> (r: Result<T, EvalError>)
        requires
            Value::FunctionInvoke(*self).wf(),
        ensures
            Value::FunctionInvoke(*self)@.evaluates_to(vars@, r),
        decreases self,
    {
        let ghost tree = Value::FunctionInvoke(*self)@;
        let ghost args = Value::models(self.args);
        proof {
            Value::lemma_models(self.args);
        }
        let mut vals: Vec<T> = Vec::new();
        let mut i: usize = 0;
        while i < self.args.len()
            invariant
                i <= self.args.len(),
                vals.len() == i,
                tree == Value::FunctionInvoke(*self)@,
                tree == Tree::Call(self.func, args),
                tree.wf(),
                args.len() == self.args.len(),
                forall|j: int| 0 <= j < args.len() ==> args[j] == (#[trigger] self.args[j])@,
                Tree::args_yield(args, vars@, vals@),
            decreases self.args.len() - i,
        {
            let x = self.args[i].evaluate(vars);
            match x {
                Ok(v) => {
                    vals.push(v);
                },
                Err(e) => {
                    assert(args[vals@.len() as int].evaluates_to(vars@, x));
                    return Err(e);
                },
            }
            i = i + 1;
        }
        Ok(self.func.call(vals.as_slice()))
    }
}

impl<T: Number, const N: usize> FunctionInvoke<T, N> {
    /// A copy of the call: the same function, which shares its callback, and
    /// copies of the arguments.
    pub fn duplicate(&self) -> (r: Self)
        ensures
            r.func == self.func,
            Value::models(r.args) == Value::models(self.args),
        decreases self,
    {
        let mut args: Vec<Value<T, N>> = Vec::new();
        let mut i: usize = 0;
        while i < self.args.len()
            invariant
                i <= self.args.len(),
                args.len() == i,
                forall|j: int| 0 <= j < i ==> (#[trigger] args[j])@ == self.args[j]@,
            decreases self.args.len() - i,
        {
            args.push(self.args[i].duplicate());
            i = i + 1;
        }
        proof {
            Value::lemma_models(args);
            Value::lemma_models(self.args);
            assert(Value::models(args) == Value::models(self.args));
        }
        FunctionInvoke { func: self.func.clone(), args }
    }
}

impl<T: Number, const N: usize> Clone for FunctionInvoke<T, N> {
    fn clone(&self) -> (r: Self)
        ensures
            r.func == self.func,
            Value::models(r.args) == Value::models(self.args),
    {
        self.duplicate()
    }
}

} // verus!
