use vstd::prelude::*;

use crate::interpreter::evaluator::Evaluator;
use crate::interpreter::evaluator::environment::{Bits, Environment, EvaluatorType};
use crate::interpreter::evaluator::runtime_error::{RuntimeError, RuntimeErrorView, result_view};
use crate::interpreter::parser::ast_types as ast;

verus! {

/// The value of a classical expression: a constant, a bitstring, or a name
/// bound to something else (a function, an oracle or a circuit), which no
/// operation accepts.
#[derive(Clone, Copy, Debug, PartialEq, Eq, Structural)]
pub enum ExprValue {
    Const(usize),
    Bits(Bits),
    Other,
}

/// The value a bound name has in an expression.
pub open spec fn value_of(v: EvaluatorType) -> ExprValue {
    match v {
        EvaluatorType::Const(n) => ExprValue::Const(n),
        EvaluatorType::Bits(b) => ExprValue::Bits(b),
        _ => ExprValue::Other,
    }
}

/// The parity of the number of 1 bits of `x`.
pub open spec fn parity(x: usize) -> usize
    decreases x,
{
    if x == 0 {
        0
    } else {
        ((parity(x / 2) + x % 2) % 2) as usize
    }
}

/// The number of bit positions at which both `a` and `b` have a 1.
pub open spec fn common_ones(a: usize, b: usize) -> nat
    decreases a,
{
    if a == 0 {
        0
    } else {
        common_ones(a / 2, b / 2) + if a % 2 == 1 && b % 2 == 1 {
            1nat
        } else {
            0nat
        }
    }
}

/// The parity of a number is its last bit added to the parity of the rest.
proof fn lemma_parity_step(x: usize)
    ensures
        parity(x) == (parity(x / 2) + x % 2) % 2,
        parity(x) < 2,
    decreases x,
{
    if x > 0 {
        lemma_parity_step(x / 2);
    }
}

/// The parity of `a & b` counts, modulo 2, the positions where `a` and `b`
/// both have a 1.
proof fn lemma_parity_of_and(a: usize, b: usize)
    ensures
        parity(a & b) == common_ones(a, b) % 2,
    decreases a,
{
    if a == 0 {
        assert(0usize & b == 0) by (bit_vector);
    } else {
        let x: usize = a & b;
        assert((a & b) / 2 == (a / 2) & (b / 2)) by (bit_vector);
        assert((a & b) % 2 == if a % 2 == 1 && b % 2 == 1 { 1usize } else { 0usize }) by (bit_vector);
        lemma_parity_step(x);
        lemma_parity_of_and(a / 2, b / 2);
    }
}

/// The dot product of two bitstrings of the same width is a single bit: the
/// number of positions where both have a 1, modulo 2, whatever the width.
/// `&`, `|` and `^` keep the width, and operands of different widths are a
/// type mismatch.
pub proof fn lemma_bitwise_ops(a: Bits, b: Bits)
    ensures
        a.length == b.length ==> spec_apply_op(ast::BinaryOp::Dot, a, b) == Ok::<ExprValue, RuntimeErrorView>(
            ExprValue::Bits(Bits { literal: (common_ones(a.literal, b.literal) % 2) as usize, length: 1 }),
        ),
        a.length == b.length ==> spec_apply_op(ast::BinaryOp::And, a, b) == Ok::<ExprValue, RuntimeErrorView>(
            ExprValue::Bits(Bits { literal: a.literal & b.literal, length: a.length }),
        ),
        a.length == b.length ==> spec_apply_op(ast::BinaryOp::Or, a, b) == Ok::<ExprValue, RuntimeErrorView>(
            ExprValue::Bits(Bits { literal: a.literal | b.literal, length: a.length }),
        ),
        a.length == b.length ==> spec_apply_op(ast::BinaryOp::Xor, a, b) == Ok::<ExprValue, RuntimeErrorView>(
            ExprValue::Bits(Bits { literal: a.literal ^ b.literal, length: a.length }),
        ),
        a.length != b.length ==> forall|op: ast::BinaryOp| #[trigger] spec_apply_op(op, a, b)
            == Err::<ExprValue, RuntimeErrorView>(RuntimeErrorView::TypeMismatch),
{
    lemma_parity_of_and(a.literal, b.literal);
}

/// A bitwise operation on two bitstrings of the same width: `&`, `|` and
/// `^` bit by bit, and `*` the dot product modulo 2, a single bit. Operands
/// of different widths are a type mismatch.
pub open spec fn spec_apply_op(op: ast::BinaryOp, a: Bits, b: Bits) -> Result<ExprValue, RuntimeErrorView> {
    if a.length != b.length {
        Err(RuntimeErrorView::TypeMismatch)
    } else {
        match op {
            ast::BinaryOp::And => Ok(ExprValue::Bits(Bits { literal: a.literal & b.literal, length: a.length })),
            ast::BinaryOp::Or => Ok(ExprValue::Bits(Bits { literal: a.literal | b.literal, length: a.length })),
            ast::BinaryOp::Xor => Ok(ExprValue::Bits(Bits { literal: a.literal ^ b.literal, length: a.length })),
            ast::BinaryOp::Dot => Ok(ExprValue::Bits(Bits { literal: parity(a.literal & b.literal), length: 1 })),
        }
    }
}

/// The value a name has in a frame of bindings: its last binding there.
pub open spec fn frame_lookup(frame: Seq<(String, ExprValue)>, name: Seq<char>) -> Option<ExprValue>
    decreases frame.len(),
{
    if frame.len() == 0 {
        None
    } else if frame.last().0@ == name {
        Some(frame.last().1)
    } else {
        frame_lookup(frame.drop_last(), name)
    }
}

/// Where the names of an expression are looked up: a scope of the program,
/// or the frame of a function call (its parameters, then the values it
/// captured).
pub enum Scope<'a> {
    Env(&'a Environment),
    Frame(&'a Vec<(String, ExprValue)>, &'a Vec<(String, ExprValue)>),
}

impl<'a> Scope<'a> {
    /// The value a name has in the scope.
    pub open spec fn spec_lookup(self, name: Seq<char>) -> Option<ExprValue> {
        match self {
            Scope::Env(env) => match env.spec_resolve(name) {
                Some(v) => Some(value_of(v)),
                None => None,
            },
            Scope::Frame(inner, outer) => match frame_lookup(inner@, name) {
                Some(v) => Some(v),
                None => frame_lookup(outer@, name),
            },
        }
    }

    /// The value each name has in the scope.
    pub open spec fn lookup_fn(self) -> spec_fn(Seq<char>) -> Option<ExprValue> {
        |name: Seq<char>| self.spec_lookup(name)
    }

    /// The value a name has in the scope.
    pub fn lookup(&self, name: &String) -> (r: Option<ExprValue>)
        ensures
            r == self.spec_lookup(name@),
    {
        match self {
            Scope::Env(env) => match env.resolve(name) {
                Some(EvaluatorType::Const(n)) => Some(ExprValue::Const(*n)),
                Some(EvaluatorType::Bits(b)) => Some(ExprValue::Bits(*b)),
                Some(_) => Some(ExprValue::Other),
                None => None,
            },
            Scope::Frame(inner, outer) => match frame_get(inner, name) {
                Some(v) => Some(v),
                None => frame_get(outer, name),
            },
        }
    }
}

/// The last binding of `name` in `frame`.
pub fn frame_get(frame: &Vec<(String, ExprValue)>, name: &String) -> (r: Option<ExprValue>)
    ensures
        r == frame_lookup(frame@, name@),
{
    let mut i: usize = frame.len();
    proof {
        assert(frame@.take(i as int) =~= frame@);
    }
    while i > 0
        invariant
            i <= frame@.len(),
            frame_lookup(frame@, name@) == frame_lookup(frame@.take(i as int), name@),
        decreases i,
    {
        proof {
            assert(frame@.take(i as int).drop_last() =~= frame@.take(i - 1));
            assert(frame@.take(i as int).last() == frame@[i - 1]);
        }
        if frame[i - 1].0.eq(name) {
            return Some(frame[i - 1].1);
        }
        i = i - 1;
    }
    None
}

/// The value each name has in a scope of the program.
pub open spec fn env_lookup(env: Environment) -> spec_fn(Seq<char>) -> Option<ExprValue> {
    |name: Seq<char>|
        match env.spec_resolve(name) {
            Some(v) => Some(value_of(v)),
            None => None,
        }
}

/// The value of an expression when each name has the value `lookup` gives
/// it. Both operands of an operation are evaluated, left first, before their
/// kinds are checked.
pub open spec fn spec_eval_with(
    e: ast::Expr,
    lookup: spec_fn(Seq<char>) -> Option<ExprValue>,
) -> Result<ExprValue, RuntimeErrorView>
    decreases e,
{
    match e {
        ast::Expr::IntLiteral(n) => Ok(ExprValue::Const(n)),
        ast::Expr::BitsLiteral(v, l) => Ok(ExprValue::Bits(Bits { literal: v, length: l })),
        ast::Expr::Ident(name) => match lookup(name@) {
            Some(v) => Ok(v),
            None => Err(RuntimeErrorView::VarNotFound(name@)),
        },
        ast::Expr::Binary(a, op, b) => match spec_eval_with(*a, lookup) {
            Err(err) => Err(err),
            Ok(x) => match spec_eval_with(*b, lookup) {
                Err(err) => Err(err),
                Ok(y) => match (x, y) {
                    (ExprValue::Bits(p), ExprValue::Bits(q)) => spec_apply_op(op, p, q),
                    _ => Err(RuntimeErrorView::TypeMismatch),
                },
            },
        },
    }
}

/// A literal denotes itself, a name the value it resolves to in the scope
/// (a constant, a bitstring, or something no operation accepts), and an
/// unbound name is an error naming it.
pub proof fn lemma_eval_atoms(env: Environment, name: String, n: usize, v: usize, l: usize)
    ensures
        spec_eval_expr(ast::Expr::IntLiteral(n), env) == Ok::<ExprValue, RuntimeErrorView>(ExprValue::Const(n)),
        spec_eval_expr(ast::Expr::BitsLiteral(v, l), env) == Ok::<ExprValue, RuntimeErrorView>(
            ExprValue::Bits(Bits { literal: v, length: l }),
        ),
        env.spec_resolve(name@) matches Some(EvaluatorType::Const(c)) ==> spec_eval_expr(ast::Expr::Ident(name), env)
            == Ok::<ExprValue, RuntimeErrorView>(ExprValue::Const(c)),
        env.spec_resolve(name@) matches Some(EvaluatorType::Bits(b)) ==> spec_eval_expr(ast::Expr::Ident(name), env)
            == Ok::<ExprValue, RuntimeErrorView>(ExprValue::Bits(b)),
        env.spec_resolve(name@) is None ==> spec_eval_expr(ast::Expr::Ident(name), env) == Err::<
            ExprValue,
            RuntimeErrorView,
        >(RuntimeErrorView::VarNotFound(name@)),
{
}

/// The value of an expression in a scope of the program.
pub open spec fn spec_eval_expr(e: ast::Expr, env: Environment) -> Result<ExprValue, RuntimeErrorView> {
    spec_eval_with(e, env_lookup(env))
}

/// Evaluates an expression in a scope.
pub fn eval_in(e: &ast::Expr, scope: &Scope) -> (r: Result<ExprValue, RuntimeError>)
    ensures
        result_view(r) == spec_eval_with(*e, scope.lookup_fn()),
    decreases e,
{
    match e {
        ast::Expr::IntLiteral(n) => Ok(ExprValue::Const(*n)),
        ast::Expr::BitsLiteral(v, l) => Ok(ExprValue::Bits(Bits { literal: *v, length: *l })),
        ast::Expr::Ident(name) => match scope.lookup(name) {
            Some(v) => Ok(v),
            None => Err(RuntimeError::VarNotFound(name.clone())),
        },
        ast::Expr::Binary(a, op, b) => {
            let x: ExprValue = match eval_in(a, scope) {
                Ok(v) => v,
                Err(err) => {
                    return Err(err);
                },
            };
            let y: ExprValue = match eval_in(b, scope) {
                Ok(v) => v,
                Err(err) => {
                    return Err(err);
                },
            };
            match (x, y) {
                (ExprValue::Bits(p), ExprValue::Bits(q)) => apply_op(*op, p, q),
                _ => Err(RuntimeError::TypeMismatch),
            }
        },
    }
}

/// The constant an expression denotes.
pub open spec fn spec_expect_const(e: ast::Expr, env: Environment) -> Result<usize, RuntimeErrorView> {
    match spec_eval_expr(e, env) {
        Err(err) => Err(err),
        Ok(ExprValue::Const(n)) => Ok(n),
        Ok(_) => Err(RuntimeErrorView::TypeMismatch),
    }
}

/// The parity of the number of 1 bits of `x`.
pub fn parity_of(x: usize) -> (p: usize)
    ensures
        p == parity(x),
{
    let mut rest: usize = x;
    let mut acc: usize = 0;
    while rest > 0
        invariant
            acc < 2,
            parity(x) == (acc + parity(rest)) % 2,
        decreases rest,
    {
        let bit: usize = rest % 2;
        rest = rest / 2;
        acc = (acc + bit) % 2;
    }
    acc
}

/// Applies a bitwise operation to two bitstrings.
pub fn apply_op(op: ast::BinaryOp, a: Bits, b: Bits) -> (r: Result<ExprValue, RuntimeError>)
    ensures
        result_view(r) == spec_apply_op(op, a, b),
{
    if a.length != b.length {
        return Err(RuntimeError::TypeMismatch);
    }
    match op {
        ast::BinaryOp::And => Ok(ExprValue::Bits(Bits { literal: a.literal & b.literal, length: a.length })),
        ast::BinaryOp::Or => Ok(ExprValue::Bits(Bits { literal: a.literal | b.literal, length: a.length })),
        ast::BinaryOp::Xor => Ok(ExprValue::Bits(Bits { literal: a.literal ^ b.literal, length: a.length })),
        ast::BinaryOp::Dot => Ok(ExprValue::Bits(Bits { literal: parity_of(a.literal & b.literal), length: 1 })),
    }
}

impl Evaluator {
    /// Evaluates a classical expression in the current scope.
    pub fn eval_expr(&self, e: &ast::Expr) -> (r: Result<ExprValue, RuntimeError>)
        ensures
            result_view(r) == spec_eval_expr(*e, self.spec_env()),
    {
        let scope: Scope = Scope::Env(self.environment());
        proof {
            assert(scope.lookup_fn() =~= env_lookup(self.spec_env()));
        }
        eval_in(e, &scope)
    }

    /// Evaluates an expression that must denote a constant.
    pub fn expect_const(&self, e: &ast::Expr) -> (r: Result<usize, RuntimeError>)
        ensures
            result_view(r) == spec_expect_const(*e, self.spec_env()),
    {
        match self.eval_expr(e) {
            Err(err) => Err(err),
            Ok(ExprValue::Const(n)) => Ok(n),
            Ok(_) => Err(RuntimeError::TypeMismatch),
        }
    }
}

} // verus!
