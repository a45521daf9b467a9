//! The names that an expression can use: its variables and its functions.

use vstd::prelude::*;
use crate::compiler::Token;
use crate::func::{CustomFunc, Function};
use crate::number::{Number, Trig};
use crate::Value;

verus! {

/// The characters of a text.
pub fn chars_of(text: &str) -> (r: Vec<char>)
    ensures
        r@ == text@,
{
    let mut chars: Vec<char> = Vec::new();
    for c in it: text.chars()
        invariant
            it.seq() == text@,
            chars@ == text@.subrange(0, it.index()),
    {
        chars.push(c);
        assert(chars@ == text@.subrange(0, it.index() + 1));
    }
    assert(text@.subrange(0, text@.len() as int) == text@);
    chars
}

/// Whether two texts are the same, character by character.
pub fn same_chars(a: &[char], b: &[char]) -> (r: bool)
    ensures
        r == (a@ == b@),
{
    if a.len() != b.len() {
        return false;
    }
    let mut i: usize = 0;
    while i < a.len()
        invariant
            a.len() == b.len(),
            i <= a.len(),
            forall|j: int| 0 <= j < i ==> a@[j] == b@[j],
        decreases a.len() - i,
    {
        if a[i] != b[i] {
            return false;
        }
        i = i + 1;
    }
    assert(a@ =~= b@);
    true
}

/// An environment specifying the variables and functions that an expression can use.
#[verifier::reject_recursive_types(T)]
pub struct ExprEnv<T: Number, const N: usize> {
    named_tokens: Vec<(Vec<char>, Token<T, N>)>,
}

/// What a name can stand for: a variable with a slot among the `N`, or a
/// function that can be called.
pub open spec fn bindable<T: Number, const N: usize>(token: Token<T, N>) -> bool {
    match token {
        Token::Value(Value::Variable(slot)) => slot < N,
        Token::Function(function) => function.wf(),
        _ => false,
    }
}

/// What the entries bind: every name to the token of its last entry.
pub open spec fn bindings_of<T: Number, const N: usize>(entries: Seq<(Vec<char>, Token<T, N>)>) -> Map<
    Seq<char>,
    Token<T, N>,
>
    decreases entries.len(),
{
    if entries.len() == 0 {
        Map::empty()
    } else {
        bindings_of(entries.drop_last()).insert(entries.last().0@, entries.last().1)
    }
}

/// What the declaration of the variables `names` binds: each name to the
/// variable whose slot is the place of the name, and a name that is declared
/// twice to the later one.
pub open spec fn variables<T: Number, const N: usize>(names: Seq<&str>) -> Map<
    Seq<char>,
    Token<T, N>,
>
    decreases names.len(),
{
    if names.len() == 0 {
        Map::empty()
    } else {
        variables(names.drop_last()).insert(
            names.last()@,
            Token::Value(Value::Variable((names.len() - 1) as usize)),
        )
    }
}

impl<T: Number, const N: usize> ExprEnv<T, N> {
    #[verifier::type_invariant]
    spec fn inv(self) -> bool {
        forall|i: int|
            0 <= i < self.named_tokens.len() ==> bindable((#[trigger] self.named_tokens[i]).1)
    }

    /// What `name` stands for, if it stands for anything: a variable or a function.
    pub fn get(&self, name: &[char]) -> (r: Option<&Token<T, N>>)
        ensures
            r is Some == self@.contains_key(name@),
            r matches Some(token) ==> *token == self@[name@] && bindable(*token),
    {
        proof {
            use_type_invariant(self);
        }
        let mut i: usize = self.named_tokens.len();
        assert(self.named_tokens@.subrange(0, i as int) == self.named_tokens@);
        while i > 0
            invariant
                i <= self.named_tokens.len(),
                forall|j: int|
                    0 <= j < self.named_tokens.len() ==> bindable(
                        (#[trigger] self.named_tokens[j]).1,
                    ),
                self@ == bindings_of(self.named_tokens@),
                self@.contains_key(name@) == bindings_of(
                    self.named_tokens@.subrange(0, i as int),
                ).contains_key(name@),
                self@.contains_key(name@) ==> self@[name@] == bindings_of(
                    self.named_tokens@.subrange(0, i as int),
                )[name@],
            decreases i,
        {
            let ghost entries = self.named_tokens@.subrange(0, i as int);
            i = i - 1;
            assert(entries.last() == self.named_tokens@[i as int]);
            assert(entries.drop_last() == self.named_tokens@.subrange(0, i as int));
            if same_chars(self.named_tokens[i].0.as_slice(), name) {
                return Some(&self.named_tokens[i].1);
            }
        }
        None
    }
}

impl<T: Number, const N: usize> View for ExprEnv<T, N> {
    type V = Map<Seq<char>, Token<T, N>>;

    /// What the names of the environment stand for.
    closed spec fn view(&self) -> Map<Seq<char>, Token<T, N>> {
        bindings_of(self.named_tokens@)
    }
}

/// Entries that declare the variables of `names`, one for one, bind what the
/// declaration binds.
proof fn lemma_bindings_variables<T: Number, const N: usize>(
    entries: Seq<(Vec<char>, Token<T, N>)>,
    names: Seq<&str>,
)
    requires
        entries.len() == names.len(),
        forall|j: int|
            0 <= j < entries.len() ==> (#[trigger] entries[j]).0@ == names[j]@ && entries[j].1
                == Token::<T, N>::Value(Value::Variable(j as usize)),
    ensures
        bindings_of(entries) == variables::<T, N>(names),
    decreases entries.len(),
{
    if entries.len() > 0 {
        let fewer = entries.drop_last();
        assert forall|j: int| 0 <= j < fewer.len() implies (#[trigger] fewer[j]).0@
            == names.drop_last()[j]@ && fewer[j].1 == Token::<T, N>::Value(
            Value::Variable(j as usize),
        ) by {
            assert(fewer[j] == entries[j]);
        }
        lemma_bindings_variables(fewer, names.drop_last());
    }
}

impl<T: Number> Default for ExprEnv<T, 0> {
    /// An environment with no variables and no functions.
    fn default() -> (r: Self)
        ensures
            r@ == Map::<Seq<char>, Token<T, 0>>::empty(),
    {
        ExprEnv { named_tokens: Vec::new() }
    }
}

impl<T: Number, const N: usize> ExprEnv<T, N> {
    /// A new environment with the given variables and no functions. The slot of a
    /// variable is its place among the names, and of two variables of one name
    /// the later one is meant.
    pub fn new(var_names: [&str; N]) -> (r: ExprEnv<T, N>)
        ensures
            r@ == variables::<T, N>(var_names@),
    {
        let mut named_tokens: Vec<(Vec<char>, Token<T, N>)> = Vec::new();
        let mut i: usize = 0;
        while i < N
            invariant
                i <= N,
                var_names@.len() == N,
                named_tokens.len() == i,
                forall|j: int|
                    0 <= j < i ==> (#[trigger] named_tokens[j]).0@ == var_names@[j]@
                        && named_tokens[j].1 == Token::<T, N>::Value(Value::Variable(j as usize)),
            decreases N - i,
        {
            let name = chars_of(var_names[i]);
            named_tokens.push((name, Token::Value(Value::Variable(i))));
            i = i + 1;
        }
        proof {
            lemma_bindings_variables(named_tokens@, var_names@);
        }
        ExprEnv { named_tokens }
    }

    /// The environment with one more function, which an expression calls by
    /// `name` with `A` arguments. A variable or function that had the name is
    /// no longer meant by it.
    pub fn with_func<const A: usize, F: CustomFunc<T, N, A>>(self, name: &str, func: F) -> (r: Self)
        requires
            forall|a: [T; A]| call_requires(func, (a,)),
        ensures
            r@ == self@.insert(name@, r@[name@]),
            r@[name@] matches Token::Function(function) && {
                &&& function.wf()
                &&& function.arity() == A
                &&& forall|args: Seq<T>, out: T| #[trigger]
                    function.relates(args, out) <==> exists|a: [T; A]|
                        a@ == args && call_ensures(func, (a,), out)
            },
    {
        proof {
            use_type_invariant(&self);
        }
        let function = Function::new::<A, F>(func);
        let mut named_tokens = self.named_tokens;
        let ghost before = named_tokens@;
        named_tokens.push((chars_of(name), Token::Function(function)));
        proof {
            assert(named_tokens@.drop_last() == before);
        }
        ExprEnv { named_tokens }
    }
}

impl<T: Number + Trig, const N: usize> ExprEnv<T, N> {
    /// The environment with the functions `sin`, `cos` and `tan` of one argument.
    pub fn with_trig(self) -> (r: Self)
        ensures
            r@.dom() == self@.dom().insert("sin"@).insert("cos"@).insert("tan"@),
            forall|other: Seq<char>|
                other != "sin"@ && other != "cos"@ && other != "tan"@ && self@.contains_key(other)
                    ==> #[trigger] r@[other] == self@[other],
            r@["sin"@] matches Token::Function(function) && function.wf() && function.arity() == 1
                && forall|args: Seq<T>, out: T| #[trigger]
                function.relates(args, out) ==> args.len() == 1 && call_ensures(
                    T::sin,
                    (&args[0],),
                    out,
                ),
            r@["cos"@] matches Token::Function(function) && function.wf() && function.arity() == 1
                && forall|args: Seq<T>, out: T| #[trigger]
                function.relates(args, out) ==> args.len() == 1 && call_ensures(
                    T::cos,
                    (&args[0],),
                    out,
                ),
            r@["tan"@] matches Token::Function(function) && function.wf() && function.arity() == 1
                && forall|args: Seq<T>, out: T| #[trigger]
                function.relates(args, out) ==> args.len() == 1 && call_ensures(
                    T::tan,
                    (&args[0],),
                    out,
                ),
    {
        proof {
            reveal_strlit("sin");
            reveal_strlit("cos");
            reveal_strlit("tan");
            assert("sin"@[0] != "cos"@[0]);
            assert("sin"@[0] != "tan"@[0]);
            assert("cos"@[0] != "tan"@[0]);
        }
        let sin = |a: [T; 1]| -> (r: T)
            ensures
                call_ensures(T::sin, (&a[0],), r),
            { a[0].sin() };
        let cos = |a: [T; 1]| -> (r: T)
            ensures
                call_ensures(T::cos, (&a[0],), r),
            { a[0].cos() };
        let tan = |a: [T; 1]| -> (r: T)
            ensures
                call_ensures(T::tan, (&a[0],), r),
            { a[0].tan() };
        self.with_func("sin", sin).with_func("cos", cos).with_func("tan", tan)
    }
}

} // verus!
