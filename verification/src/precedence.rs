//! How operators of different priorities share out their operands.
//!
//! Between operands stand operators, each with a priority. The operator that is
//! applied last is the rightmost of those with the lowest priority: what stands
//! to its left is its left operand, what stands to its right its right operand,
//! and each side is divided in the same way. So operators of a higher priority
//! bind tighter, and operators of one priority take their operands from left to
//! right.

use vstd::prelude::*;
use crate::func::Function;
use crate::number::Number;
use crate::parser::ParserError;
use crate::tree::Tree;
use crate::BinaryOp;

verus! {

/// A token as the rules of precedence see it.
#[verifier::reject_recursive_types(T)]
pub enum Lexeme<T: Number, const N: usize> {
    /// An operand, with its tree.
    Operand(Tree<T, N>),
    /// An operator, with its priority.
    Operator(usize, BinaryOp),
    /// A function without arguments: no operand and no operator.
    Function(Function<T, N>),
}

impl<T: Number, const N: usize> Lexeme<T, N> {
    /// The priority of an operator; zero for any other token.
    pub open spec fn priority(self) -> usize {
        match self {
            Lexeme::Operator(priority, _) => priority,
            _ => 0,
        }
    }
}

/// Where the operator stands that is applied last: the rightmost of those with
/// the lowest priority.
pub open spec fn last_lowest(operators: Seq<(usize, BinaryOp)>) -> int
    decreases operators.len(),
{
    if operators.len() <= 1 {
        0
    } else {
        let k = last_lowest(operators.drop_last());
        if operators.last().0 <= operators[k].0 {
            operators.len() - 1
        } else {
            k
        }
    }
}

/// The operator that is applied last is one of the operators, none has a lower
/// priority, and none to its right has the same.
pub proof fn lemma_last_lowest(operators: Seq<(usize, BinaryOp)>)
    requires
        operators.len() > 0,
    ensures
        0 <= last_lowest(operators) < operators.len(),
        forall|i: int|
            0 <= i < operators.len() ==> operators[last_lowest(operators)].0 <= (
            #[trigger] operators[i]).0,
        forall|i: int|
            last_lowest(operators) < i < operators.len() ==> operators[last_lowest(operators)].0 < (
            #[trigger] operators[i]).0,
    decreases operators.len(),
{
    if operators.len() > 1 {
        lemma_last_lowest(operators.drop_last());
        let k = last_lowest(operators.drop_last());
        assert forall|i: int| 0 <= i < operators.len() - 1 implies operators.drop_last()[i]
            == operators[i] by {}
        assert(operators.drop_last()[k] == operators[k]);
        assert forall|i: int| 0 <= i < operators.len() implies operators[last_lowest(operators)].0 <= (
        #[trigger] operators[i]).0 by {
            if i < operators.len() - 1 {
                assert(operators.drop_last()[i] == operators[i]);
            }
        }
        assert forall|i: int| last_lowest(operators) < i < operators.len() implies operators[last_lowest(
            operators,
        )].0 < (#[trigger] operators[i]).0 by {
            if i < operators.len() - 1 {
                assert(operators.drop_last()[i] == operators[i]);
            }
        }
    }
}

/// The tree of `operands` with `operators` between them, one operator between
/// each two neighbours.
pub open spec fn precedence_tree<T: Number, const N: usize>(
    operands: Seq<Tree<T, N>>,
    operators: Seq<(usize, BinaryOp)>,
) -> Tree<T, N>
    decreases operators.len(),
{
    if operators.len() == 0 || operands.len() != operators.len() + 1 {
        operands[0]
    } else {
        let k = last_lowest(operators);
        proof {
            lemma_last_lowest(operators);
        }
        Tree::Binary(
            operators[k].1,
            Box::new(precedence_tree(operands.subrange(0, k + 1), operators.subrange(0, k))),
            Box::new(
                precedence_tree(
                    operands.subrange(k + 1, operands.len() as int),
                    operators.subrange(k + 1, operators.len() as int),
                ),
            ),
        )
    }
}

/// Two operators in a row: the left one takes its operands first, unless the
/// right one has a higher priority.
pub proof fn lemma_two_operators<T: Number, const N: usize>(
    a: Tree<T, N>,
    left: (usize, BinaryOp),
    b: Tree<T, N>,
    right: (usize, BinaryOp),
    c: Tree<T, N>,
)
    ensures
        precedence_tree(seq![a, b, c], seq![left, right]) == if right.0 <= left.0 {
            Tree::Binary(
                right.1,
                Box::new(Tree::Binary(left.1, Box::new(a), Box::new(b))),
                Box::new(c),
            )
        } else {
            Tree::Binary(
                left.1,
                Box::new(a),
                Box::new(Tree::Binary(right.1, Box::new(b), Box::new(c))),
            )
        },
{
    let operands = seq![a, b, c];
    let operators = seq![left, right];
    assert(operators.drop_last() == seq![left]);
    assert(last_lowest(seq![left]) == 0);
    reveal_with_fuel(precedence_tree, 3);
    if right.0 <= left.0 {
        assert(last_lowest(operators) == 1);
        assert(operands.subrange(0, 2) == seq![a, b]);
        assert(operators.subrange(0, 1) == seq![left]);
        assert(operands.subrange(2, 3) == seq![c]);
        assert(seq![a, b].subrange(0, 1) == seq![a]);
        assert(seq![a, b].subrange(1, 2) == seq![b]);
    } else {
        assert(last_lowest(operators) == 0);
        assert(operands.subrange(0, 1) == seq![a]);
        assert(operands.subrange(1, 3) == seq![b, c]);
        assert(operators.subrange(1, 2) == seq![right]);
        assert(last_lowest(seq![right]) == 0);
        assert(seq![b, c].subrange(0, 1) == seq![b]);
        assert(seq![b, c].subrange(1, 2) == seq![c]);
    }
}

/// The tree of well-formed operands is well formed.
pub proof fn lemma_precedence_tree_wf<T: Number, const N: usize>(
    operands: Seq<Tree<T, N>>,
    operators: Seq<(usize, BinaryOp)>,
)
    requires
        operands.len() == operators.len() + 1,
        forall|i: int| 0 <= i < operands.len() ==> (#[trigger] operands[i]).wf(),
    ensures
        precedence_tree(operands, operators).wf(),
    decreases operators.len(),
{
    if operators.len() > 0 {
        let k = last_lowest(operators);
        lemma_last_lowest(operators);
        let n = operands.len() as int;
        assert forall|i: int| 0 <= i < k + 1 implies (#[trigger] operands.subrange(0, k + 1)[i]).wf() by {
            assert(operands.subrange(0, k + 1)[i] == operands[i]);
        }
        assert forall|i: int| 0 <= i < n - k - 1 implies (#[trigger] operands.subrange(k + 1, n)[i]).wf() by {
            assert(operands.subrange(k + 1, n)[i] == operands[i + k + 1]);
        }
        lemma_precedence_tree_wf(operands.subrange(0, k + 1), operators.subrange(0, k));
        lemma_precedence_tree_wf(
            operands.subrange(k + 1, n),
            operators.subrange(k + 1, operators.len() as int),
        );
    }
}

/// The tokens of an expression in the order of the source: operands with the
/// operators between them.
pub open spec fn interleave<T: Number, const N: usize>(
    operands: Seq<Tree<T, N>>,
    operators: Seq<(usize, BinaryOp)>,
) -> Seq<Lexeme<T, N>> {
    Seq::new(
        (2 * operators.len() + 1) as nat,
        |i: int|
            if i % 2 == 0 {
                Lexeme::Operand(operands[i / 2])
            } else {
                Lexeme::Operator(operators[i / 2].0, operators[i / 2].1)
            },
    )
}

/// Moves operators from the top of `stack` to the end of `output` as long as the
/// top has at least the given priority.
pub open spec fn pop_higher<T: Number, const N: usize>(
    output: Seq<Lexeme<T, N>>,
    stack: Seq<Lexeme<T, N>>,
    priority: usize,
) -> (Seq<Lexeme<T, N>>, Seq<Lexeme<T, N>>)
    decreases stack.len(),
{
    if stack.len() > 0 && priority <= stack.last().priority() {
        pop_higher(output.push(stack.last()), stack.drop_last(), priority)
    } else {
        (output, stack)
    }
}

/// The output and the stack of operators after the tokens have been read: an
/// operator first moves the operators of at least its priority from the stack to
/// the output and then goes on the stack; any other token goes to the output.
pub open spec fn shunt<T: Number, const N: usize>(tokens: Seq<Lexeme<T, N>>) -> (
    Seq<Lexeme<T, N>>,
    Seq<Lexeme<T, N>>,
)
    decreases tokens.len(),
{
    if tokens.len() == 0 {
        (Seq::empty(), Seq::empty())
    } else {
        let (output, stack) = shunt(tokens.drop_last());
        let token = tokens.last();
        if token is Operator {
            let (output, stack) = pop_higher(output, stack, token.priority());
            (output, stack.push(token))
        } else {
            (output.push(token), stack)
        }
    }
}

/// The tokens in postfix order: the output, and behind it the operators that
/// are left on the stack, the top one first.
pub open spec fn postfix_order<T: Number, const N: usize>(tokens: Seq<Lexeme<T, N>>) -> Seq<
    Lexeme<T, N>,
> {
    shunt(tokens).0 + shunt(tokens).1.reverse()
}

/// The tree that the end of a postfix sequence stands for, and what is left in
/// front of it. An operand stands for itself. An operator takes the tree in
/// front of it as its right operand and the tree in front of that as its left.
/// Where the sequence is empty, or ends in a function, there is no tree.
pub open spec fn reduce<T: Number, const N: usize>(stack: Seq<Lexeme<T, N>>) -> (
    Result<Tree<T, N>, ParserError>,
    Seq<Lexeme<T, N>>,
)
    decreases stack.len(),
{
    if stack.len() == 0 {
        (Err(ParserError::NoValue), stack)
    } else {
        match stack.last() {
            Lexeme::Operand(tree) => (Ok(tree), stack.drop_last()),
            Lexeme::Function(_) => (Err(ParserError::NoValue), stack.drop_last()),
            Lexeme::Operator(_, op) => {
                let (right, rest) = reduce(stack.drop_last());
                if rest.len() >= stack.len() {
                    (Err(ParserError::NoValue), rest)
                } else {
                    match right {
                        Err(e) => (Err(e), rest),
                        Ok(right) => {
                            let (left, rest) = reduce(rest);
                            match left {
                                Err(e) => (Err(e), rest),
                                Ok(left) => (
                                    Ok(Tree::Binary(op, Box::new(left), Box::new(right))),
                                    rest,
                                ),
                            }
                        },
                    }
                }
            },
        }
    }
}

/// What is left in front of a tree is a beginning of the sequence.
pub proof fn lemma_reduce_rest<T: Number, const N: usize>(stack: Seq<Lexeme<T, N>>)
    ensures
        reduce(stack).1.len() <= stack.len(),
        reduce(stack).1 == stack.subrange(0, reduce(stack).1.len() as int),
        stack.len() > 0 ==> reduce(stack).1.len() < stack.len(),
    decreases stack.len(),
{
    if stack.len() > 0 {
        match stack.last() {
            Lexeme::Operator(_, op) => {
                lemma_reduce_rest(stack.drop_last());
                let (right, rest) = reduce(stack.drop_last());
                if right is Ok {
                    lemma_reduce_rest(rest);
                }
            },
            _ => {},
        }
    } else {
        assert(stack.subrange(0, 0) == stack);
    }
}

/// The whole of a postfix sequence as one tree: more than one is a dangling value.
pub open spec fn reduce_all<T: Number, const N: usize>(stack: Seq<Lexeme<T, N>>) -> Result<
    Tree<T, N>,
    ParserError,
> {
    match reduce(stack).0 {
        Ok(tree) => if reduce(stack).1.len() == 0 {
            Ok(tree)
        } else {
            Err(ParserError::DanglingValue)
        },
        Err(e) => Err(e),
    }
}

/// How operators have shared out their operands: an operand by itself, or an
/// operator with the shapes of its two sides.
#[verifier::reject_recursive_types(T)]
pub enum Shape<T: Number, const N: usize> {
    /// An operand.
    Leaf(Tree<T, N>),
    /// An operator with its priority, its left side and its right side.
    Node(usize, BinaryOp, Box<Shape<T, N>>, Box<Shape<T, N>>),
}

impl<T: Number, const N: usize> Shape<T, N> {
    /// The tree of the shape.
    pub open spec fn tree(self) -> Tree<T, N>
        decreases self,
    {
        match self {
            Shape::Leaf(tree) => tree,
            Shape::Node(_, op, left, right) => Tree::Binary(
                op,
                Box::new(left.tree()),
                Box::new(right.tree()),
            ),
        }
    }

    /// The tokens of the shape in postfix order: each operator behind its two sides.
    pub open spec fn postfix(self) -> Seq<Lexeme<T, N>>
        decreases self,
    {
        match self {
            Shape::Leaf(tree) => seq![Lexeme::Operand(tree)],
            Shape::Node(priority, op, left, right) => left.postfix() + right.postfix()
                + seq![Lexeme::Operator(priority, op)],
        }
    }

    /// The operators on the way from the top of the shape down its right side.
    pub open spec fn spine(self) -> Seq<Lexeme<T, N>>
        decreases self,
    {
        match self {
            Shape::Leaf(_) => Seq::empty(),
            Shape::Node(priority, op, _, right) => seq![Lexeme::Operator(priority, op)]
                + right.spine(),
        }
    }

    /// The postfix order without the operators of the spine.
    pub open spec fn body(self) -> Seq<Lexeme<T, N>>
        decreases self,
    {
        match self {
            Shape::Leaf(tree) => seq![Lexeme::Operand(tree)],
            Shape::Node(_, _, left, right) => left.postfix() + right.body(),
        }
    }

    /// Down the right side each operator has a higher priority than the one above it.
    pub open spec fn rising(self) -> bool
        decreases self,
    {
        match self {
            Shape::Leaf(_) => true,
            Shape::Node(priority, _, _, right) => right.rising() && (*right is Node ==> priority
                < right->Node_0),
        }
    }

    /// The shape with one more operator and operand at its right end. The operator
    /// goes down the right side past the operators of a lower priority, and takes
    /// what it finds there as its left side.
    pub open spec fn insert(self, priority: usize, op: BinaryOp, operand: Tree<T, N>) -> Shape<T, N>
        decreases self,
    {
        if self is Node && self->Node_0 < priority {
            Shape::Node(
                self->Node_0,
                self->Node_1,
                self->Node_2,
                Box::new(self->Node_3.insert(priority, op, operand)),
            )
        } else {
            Shape::Node(priority, op, Box::new(self), Box::new(Shape::Leaf(operand)))
        }
    }

    /// The postfix order is the body and then the spine from the bottom up.
    pub proof fn lemma_postfix(self)
        ensures
            self.postfix() == self.body() + self.spine().reverse(),
        decreases self,
    {
        match self {
            Shape::Leaf(_) => {
                assert(self.spine().reverse() == Seq::<Lexeme<T, N>>::empty());
                assert(self.body() + Seq::<Lexeme<T, N>>::empty() == self.body());
            },
            Shape::Node(priority, op, left, right) => {
                right.lemma_postfix();
                let top = seq![Lexeme::<T, N>::Operator(priority, op)];
                assert((top + right.spine()).reverse() == right.spine().reverse() + top);
                assert(left.postfix() + (right.body() + right.spine().reverse()) + top == (
                left.postfix() + right.body()) + (right.spine().reverse() + top));
            },
        }
    }

    /// One more operator and operand keep the priorities rising.
    pub proof fn lemma_insert_rising(self, priority: usize, op: BinaryOp, operand: Tree<T, N>)
        requires
            self.rising(),
        ensures
            self.insert(priority, op, operand).rising(),
            self.insert(priority, op, operand) is Node,
            self.insert(priority, op, operand)->Node_0 == (if self is Node && self->Node_0
                < priority {
                self->Node_0
            } else {
                priority
            }),
        decreases self,
    {
        if self is Node && self->Node_0 < priority {
            self->Node_3.lemma_insert_rising(priority, op, operand);
        } else {
            assert(Shape::Leaf::<T, N>(operand).rising());
        }
    }

    /// Where the priorities rise, no operator of the spine is below the top one.
    pub proof fn lemma_spine_priorities(self)
        requires
            self.rising(),
            self is Node,
        ensures
            forall|i: int|
                0 <= i < self.spine().len() ==> self->Node_0 <= (#[trigger] self.spine()[i]).priority(),
        decreases self,
    {
        let right = *self->Node_3;
        if right is Node {
            right.lemma_spine_priorities();
            assert forall|i: int| 0 <= i < self.spine().len() implies self->Node_0 <= (
            #[trigger] self.spine()[i]).priority() by {
                if i > 0 {
                    assert(self.spine()[i] == right.spine()[i - 1]);
                }
            }
        } else {
            assert(right.spine().len() == 0);
        }
    }
}

/// An operator that no operator on the stack is below moves the whole stack to
/// the output, the top first.
pub proof fn lemma_pop_all<T: Number, const N: usize>(
    output: Seq<Lexeme<T, N>>,
    stack: Seq<Lexeme<T, N>>,
    priority: usize,
)
    requires
        forall|i: int| 0 <= i < stack.len() ==> priority <= (#[trigger] stack[i]).priority(),
    ensures
        pop_higher(output, stack, priority) == (output + stack.reverse(), Seq::<Lexeme<T, N>>::empty()),
    decreases stack.len(),
{
    if stack.len() > 0 {
        lemma_pop_all(output.push(stack.last()), stack.drop_last(), priority);
        assert(output.push(stack.last()) + stack.drop_last().reverse() == output + stack.reverse());
    } else {
        assert(output + stack.reverse() == output);
        assert(stack == Seq::<Lexeme<T, N>>::empty());
    }
}

/// An operator stops at the first operator below it: what lies under that one on
/// the stack, and in front on the output, stays as it is.
pub proof fn lemma_pop_frame<T: Number, const N: usize>(
    front: Seq<Lexeme<T, N>>,
    output: Seq<Lexeme<T, N>>,
    bottom: Lexeme<T, N>,
    stack: Seq<Lexeme<T, N>>,
    priority: usize,
)
    requires
        bottom.priority() < priority,
    ensures
        pop_higher(front + output, seq![bottom] + stack, priority) == (
            front + pop_higher(output, stack, priority).0,
            seq![bottom] + pop_higher(output, stack, priority).1,
        ),
    decreases stack.len(),
{
    let whole = seq![bottom] + stack;
    if stack.len() > 0 && priority <= stack.last().priority() {
        lemma_pop_frame(front, output.push(stack.last()), bottom, stack.drop_last(), priority);
        assert(whole.last() == stack.last());
        assert(whole.drop_last() == seq![bottom] + stack.drop_last());
        assert((front + output).push(stack.last()) == front + output.push(stack.last()));
    } else {
        if stack.len() == 0 {
            assert(whole.last() == bottom);
        } else {
            assert(whole.last() == stack.last());
        }
    }
}

/// Reading an operator and an operand is adding them to the shape: the output is
/// the body of the shape and the stack its spine, before and after.
pub proof fn lemma_shunt_insert<T: Number, const N: usize>(
    shape: Shape<T, N>,
    priority: usize,
    op: BinaryOp,
    operand: Tree<T, N>,
)
    requires
        shape.rising(),
    ensures
        pop_higher(shape.body(), shape.spine(), priority).0.push(Lexeme::Operand(operand))
            == shape.insert(priority, op, operand).body(),
        pop_higher(shape.body(), shape.spine(), priority).1.push(Lexeme::Operator(priority, op))
            == shape.insert(priority, op, operand).spine(),
    decreases shape,
{
    let grown = shape.insert(priority, op, operand);
    let leaf = Shape::Leaf::<T, N>(operand);
    assert(leaf.body() == seq![Lexeme::<T, N>::Operand(operand)]);
    assert(leaf.spine() == Seq::<Lexeme<T, N>>::empty());
    if shape is Node && shape->Node_0 < priority {
        let above = shape->Node_0;
        let o = shape->Node_1;
        let left = *shape->Node_2;
        let right = *shape->Node_3;
        lemma_shunt_insert(right, priority, op, operand);
        lemma_pop_frame(
            left.postfix(),
            right.body(),
            Lexeme::Operator(above, o),
            right.spine(),
            priority,
        );
        let (output, stack) = pop_higher(right.body(), right.spine(), priority);
        assert((left.postfix() + output).push(Lexeme::Operand(operand)) == left.postfix()
            + output.push(Lexeme::Operand(operand)));
        assert((seq![Lexeme::<T, N>::Operator(above, o)] + stack).push(
            Lexeme::Operator(priority, op),
        ) == seq![Lexeme::<T, N>::Operator(above, o)] + stack.push(Lexeme::Operator(priority, op)));
    } else {
        if shape is Node {
            shape.lemma_spine_priorities();
        } else {
            assert(shape.spine().len() == 0);
        }
        lemma_pop_all(shape.body(), shape.spine(), priority);
        shape.lemma_postfix();
        assert(grown.body() == shape.postfix() + leaf.body());
        assert(shape.postfix().push(Lexeme::Operand(operand)) == shape.postfix()
            + seq![Lexeme::<T, N>::Operand(operand)]);
        assert(grown.spine() == seq![Lexeme::<T, N>::Operator(priority, op)] + leaf.spine());
        assert(Seq::<Lexeme<T, N>>::empty().push(Lexeme::<T, N>::Operator(priority, op))
            == seq![Lexeme::<T, N>::Operator(priority, op)] + Seq::<Lexeme<T, N>>::empty());
    }
}

/// The shape of `operands` with `operators` between them: divided at the operator
/// that is applied last.
pub open spec fn shape_of<T: Number, const N: usize>(
    operands: Seq<Tree<T, N>>,
    operators: Seq<(usize, BinaryOp)>,
) -> Shape<T, N>
    decreases operators.len(),
{
    if operators.len() == 0 || operands.len() != operators.len() + 1 {
        Shape::Leaf(operands[0])
    } else {
        let k = last_lowest(operators);
        proof {
            lemma_last_lowest(operators);
        }
        Shape::Node(
            operators[k].0,
            operators[k].1,
            Box::new(shape_of(operands.subrange(0, k + 1), operators.subrange(0, k))),
            Box::new(
                shape_of(
                    operands.subrange(k + 1, operands.len() as int),
                    operators.subrange(k + 1, operators.len() as int),
                ),
            ),
        )
    }
}

/// The tree of the shape is the tree of the operands and operators.
pub proof fn lemma_shape_tree<T: Number, const N: usize>(
    operands: Seq<Tree<T, N>>,
    operators: Seq<(usize, BinaryOp)>,
)
    ensures
        shape_of(operands, operators).tree() == precedence_tree(operands, operators),
    decreases operators.len(),
{
    if !(operators.len() == 0 || operands.len() != operators.len() + 1) {
        let k = last_lowest(operators);
        lemma_last_lowest(operators);
        lemma_shape_tree(operands.subrange(0, k + 1), operators.subrange(0, k));
        lemma_shape_tree(
            operands.subrange(k + 1, operands.len() as int),
            operators.subrange(k + 1, operators.len() as int),
        );
    }
}

/// One more operator and operand at the right end are added to the shape as
/// `insert` adds them.
pub proof fn lemma_shape_append<T: Number, const N: usize>(
    operands: Seq<Tree<T, N>>,
    operators: Seq<(usize, BinaryOp)>,
    priority: usize,
    op: BinaryOp,
    operand: Tree<T, N>,
)
    requires
        operands.len() == operators.len() + 1,
    ensures
        shape_of(operands.push(operand), operators.push((priority, op))) == shape_of(
            operands,
            operators,
        ).insert(priority, op, operand),
    decreases operators.len(),
{
    let n = operators.len() as int;
    let more = operators.push((priority, op));
    let values = operands.push(operand);
    assert(more.drop_last() == operators);
    lemma_last_lowest(more);
    let at = last_lowest(more);
    let before = shape_of(operands, operators);
    if n == 0 {
        assert(values.subrange(0, 1)[0] == operands[0]);
        assert(values.subrange(1, 2)[0] == operand);
        assert(shape_of(values.subrange(0, 1), more.subrange(0, 0)) == Shape::Leaf(operands[0]));
        assert(shape_of(values.subrange(1, 2), more.subrange(1, 1)) == Shape::Leaf(operand));
        assert(before == Shape::Leaf(operands[0]));
    } else {
        lemma_last_lowest(operators);
        let k = last_lowest(operators);
        assert(before is Node && before->Node_0 == operators[k].0);
        if priority <= operators[k].0 {
            assert(at == n);
            assert(values.subrange(0, n + 1) == operands);
            assert(more.subrange(0, n) == operators);
            assert(values.subrange(n + 1, n + 2)[0] == operand);
            assert(shape_of(values.subrange(n + 1, n + 2), more.subrange(n + 1, n + 1))
                == Shape::Leaf(operand));
        } else {
            assert(at == k);
            assert(values.subrange(0, k + 1) == operands.subrange(0, k + 1));
            assert(more.subrange(0, k) == operators.subrange(0, k));
            let right_values = operands.subrange(k + 1, n + 1);
            let right_ops = operators.subrange(k + 1, n);
            assert(values.subrange(k + 1, n + 2) == right_values.push(operand));
            assert(more.subrange(k + 1, n + 1) == right_ops.push((priority, op)));
            lemma_shape_append(right_values, right_ops, priority, op, operand);
        }
    }
}

/// Reading the tokens of an expression leaves the body of its shape on the
/// output and the spine on the stack.
pub proof fn lemma_shunt_shape<T: Number, const N: usize>(
    operands: Seq<Tree<T, N>>,
    operators: Seq<(usize, BinaryOp)>,
)
    requires
        operands.len() == operators.len() + 1,
    ensures
        shunt(interleave(operands, operators)) == (
            shape_of(operands, operators).body(),
            shape_of(operands, operators).spine(),
        ),
        shape_of(operands, operators).rising(),
    decreases operators.len(),
{
    let tokens = interleave(operands, operators);
    if operators.len() == 0 {
        assert(tokens.drop_last() == Seq::<Lexeme<T, N>>::empty());
        assert(tokens.last() == Lexeme::Operand(operands[0]));
        assert(shunt(tokens.drop_last()) == (
            Seq::<Lexeme<T, N>>::empty(),
            Seq::<Lexeme<T, N>>::empty(),
        ));
        assert(Seq::<Lexeme<T, N>>::empty().push(tokens.last()) == seq![
            Lexeme::Operand(operands[0]),
        ]);
    } else {
        let fewer = operators.drop_last();
        let values = operands.drop_last();
        let (priority, op) = operators.last();
        let operand = operands.last();
        lemma_shunt_shape(values, fewer);
        let shape = shape_of(values, fewer);
        assert(values.push(operand) == operands);
        assert(fewer.push((priority, op)) == operators);
        lemma_shape_append(values, fewer, priority, op, operand);
        shape.lemma_insert_rising(priority, op, operand);
        lemma_shunt_insert(shape, priority, op, operand);
        let read = tokens.drop_last();
        assert(tokens.last() == Lexeme::Operand(operand));
        assert(read.last() == Lexeme::<T, N>::Operator(priority, op));
        assert(read.drop_last() == interleave(values, fewer));
        let (output, stack) = pop_higher(shape.body(), shape.spine(), priority);
        assert(shunt(read) == (output, stack.push(read.last())));
        assert(shunt(tokens) == (output.push(tokens.last()), stack.push(read.last())));
    }
}

impl<T: Number, const N: usize> Shape<T, N> {
    /// The postfix order of a shape is read back as the tree of the shape, and
    /// what stands in front of it is left.
    pub proof fn lemma_reduce_postfix(self, front: Seq<Lexeme<T, N>>)
        ensures
            reduce(front + self.postfix()) == (
                Ok::<Tree<T, N>, ParserError>(self.tree()),
                front,
            ),
        decreases self,
    {
        let stack = front + self.postfix();
        match self {
            Shape::Leaf(tree) => {
                assert(stack.last() == Lexeme::Operand(tree));
                assert(stack.drop_last() == front);
            },
            Shape::Node(priority, op, left, right) => {
                assert(stack.last() == Lexeme::<T, N>::Operator(priority, op));
                assert(stack.drop_last() == (front + left.postfix()) + right.postfix());
                right.lemma_reduce_postfix(front + left.postfix());
                left.lemma_reduce_postfix(front);
            },
        }
    }
}

/// Precedence by postfix order: the tokens of an expression, brought into
/// postfix order and read back as one tree, give the tree in which the
/// operator applied last is the rightmost of those with the lowest priority.
pub proof fn lemma_postfix_precedence<T: Number, const N: usize>(
    operands: Seq<Tree<T, N>>,
    operators: Seq<(usize, BinaryOp)>,
)
    requires
        operands.len() == operators.len() + 1,
    ensures
        reduce_all(postfix_order(interleave(operands, operators))) == Ok::<Tree<T, N>, ParserError>(
            precedence_tree(operands, operators),
        ),
{
    let shape = shape_of(operands, operators);
    lemma_shunt_shape(operands, operators);
    shape.lemma_postfix();
    shape.lemma_reduce_postfix(Seq::empty());
    lemma_shape_tree(operands, operators);
    assert(Seq::<Lexeme<T, N>>::empty() + shape.postfix() == shape.postfix());
}

} // verus!
