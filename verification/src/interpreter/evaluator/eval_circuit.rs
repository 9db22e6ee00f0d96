use vstd::prelude::*;

use crate::engine::black_box::{BlackBox, Lambda, LambdaModel};
use crate::engine::gate::Gate;
use crate::engine::operator::{Operator, first_indices};
use crate::interpreter::evaluator::Evaluator;
use crate::interpreter::evaluator::environment::{Circuit, Environment, EvaluatorType};
use crate::interpreter::evaluator::eval_expr::{env_lookup, spec_expect_const};
use crate::interpreter::evaluator::runtime_error::{RuntimeError, RuntimeErrorView, result_view};
use crate::interpreter::evaluator::{outcome, rebinds};
use crate::interpreter::parser::ast_types as ast;

verus! {

// Although there is a case to use a HashMap over a Vec here,
// Vec's make it easy to preserve the ordering of variables. The
// tradeoff of O(n) searching through the vector is also negligible,
// seeing that the engine permits only 16 unique qubits in a given circuit.
/// For each register of a circuit, in order: its identifier and its number of
/// qubits.
pub type CircuitLookup = Vec<(String, usize)>;

// ----- SPECIFICATIONS -----

/// A lookup table with each identifier taken by its characters.
pub open spec fn lookup_view(l: Seq<(String, usize)>) -> Seq<(Seq<char>, usize)> {
    l.map_values(|e: (String, usize)| (e.0@, e.1))
}

/// The total number of qubits of a lookup table.
pub open spec fn lookup_total(t: Seq<(Seq<char>, usize)>) -> int
    decreases t.len(),
{
    if t.len() == 0 {
        0
    } else {
        t[0].1 + lookup_total(t.drop_first())
    }
}

/// The index, in the whole register, of qubit `plus` of the first register
/// named `id`; the registers are laid out one after another.
pub open spec fn spec_get_index(t: Seq<(Seq<char>, usize)>, id: Seq<char>, plus: usize) -> Result<
    int,
    RuntimeErrorView,
>
    decreases t.len(),
{
    if t.len() == 0 {
        Err(RuntimeErrorView::VarNotFound(id))
    } else if t[0].0 == id {
        if plus < t[0].1 {
            Ok(plus as int)
        } else {
            Err(RuntimeErrorView::OutOfBounds(id, plus))
        }
    } else {
        match spec_get_index(t.drop_first(), id, plus) {
            Ok(i) => Ok(t[0].1 + i),
            Err(e) => Err(e),
        }
    }
}

/// The number of qubits of the first register named `id`.
pub open spec fn spec_first_len(t: Seq<(Seq<char>, usize)>, id: Seq<char>) -> Option<usize>
    decreases t.len(),
{
    if t.len() == 0 {
        None
    } else if t[0].0 == id {
        Some(t[0].1)
    } else {
        spec_first_len(t.drop_first(), id)
    }
}

/// The number of qubits laid out before the first register named `id`; all
/// of them when no register has that name.
pub open spec fn offset_before(t: Seq<(Seq<char>, usize)>, id: Seq<char>) -> int
    decreases t.len(),
{
    if t.len() == 0 {
        0
    } else if t[0].0 == id {
        0
    } else {
        t[0].1 + offset_before(t.drop_first(), id)
    }
}

/// Looking up qubit `plus` of `id` only computes indices that fit in a
/// `usize`.
pub open spec fn index_fits(t: Seq<(Seq<char>, usize)>, id: Seq<char>, plus: usize) -> bool {
    &&& offset_before(t, id) <= usize::MAX
    &&& (spec_first_len(t, id) matches Some(l) && plus < l ==> offset_before(t, id) + plus
        <= usize::MAX)
}

/// Resolving a reference only computes indices that fit in a `usize`.
pub open spec fn targets_fit(arg: ast::CircuitRef, t: Seq<(Seq<char>, usize)>) -> bool {
    match arg.applies {
        ast::Applies::One(n) => index_fits(t, arg.name@, n),
        ast::Applies::All => {
            &&& offset_before(t, arg.name@) <= usize::MAX
            &&& (spec_first_len(t, arg.name@) matches Some(l) ==> offset_before(t, arg.name@) + l
                <= usize::MAX)
        },
    }
}

/// The qubits a reference targets: `x[n]` one qubit, `x` every qubit of `x`.
pub open spec fn spec_resolve_targets(arg: ast::CircuitRef, t: Seq<(Seq<char>, usize)>) -> Result<
    Seq<int>,
    RuntimeErrorView,
> {
    match arg.applies {
        ast::Applies::One(n) => match spec_get_index(t, arg.name@, n) {
            Ok(i) => Ok(seq![i]),
            Err(e) => Err(e),
        },
        ast::Applies::All => match spec_get_index(t, arg.name@, 0) {
            Err(e) => Err(e),
            Ok(i) => match spec_first_len(t, arg.name@) {
                Some(l) => Ok(Seq::new(l as nat, |k: int| i + k)),
                None => Err(RuntimeErrorView::Fatal),
            },
        },
    }
}

/// The qubits targeted by the arguments of an instruction, in order.
pub open spec fn spec_args_targets(args: Seq<ast::CircuitRef>, t: Seq<(Seq<char>, usize)>) -> Result<
    Seq<int>,
    RuntimeErrorView,
>
    decreases args.len(),
{
    if args.len() == 0 {
        Ok(Seq::empty())
    } else {
        match spec_args_targets(args.drop_last(), t) {
            Err(e) => Err(e),
            Ok(p) => match spec_resolve_targets(args.last(), t) {
                Err(e) => Err(e),
                Ok(q) => Ok(p + q),
            },
        }
    }
}

/// A classical function as its parameter names, their widths, its body and
/// the value each other name has in it.
pub type FunctionModel = LambdaModel;

/// An operator as its gate, its targets and, for an oracle, its function.
pub type OpModel = (Gate, Seq<int>, Option<FunctionModel>);

/// An operator as its gate, its targets and, for an oracle, its function.
pub open spec fn op_model(op: Operator) -> OpModel {
    (op.spec_gate(), as_ints(op.spec_applies()), op.spec_function())
}

/// Operators as their gates, targets and functions.
pub open spec fn op_models(ops: Seq<Operator>) -> Seq<OpModel> {
    ops.map_values(|op: Operator| op_model(op))
}

/// Indices as integers.
pub open spec fn as_ints(s: Seq<usize>) -> Seq<int> {
    s.map_values(|x: usize| x as int)
}

/// The operators an instruction stands for. An oracle bound in the current
/// scope spans its whole width and evaluates the function it loads, its
/// single parameter as wide as the oracle's input (an oracle wider than a
/// `usize` cannot be built); otherwise the name is a gate, applied
/// point-wise to every target when its arity is 1 and to all targets at
/// once otherwise.
pub open spec fn spec_instruction_ops(
    instr: ast::Instruction,
    t: Seq<(Seq<char>, usize)>,
    env: Environment,
) -> Result<Seq<OpModel>, RuntimeErrorView> {
    let bindings = env.spec_bindings();
    match spec_args_targets(instr.args@, t) {
        Err(e) => Err(e),
        Ok(tgts) => if bindings.contains_key(instr.name@) && bindings[instr.name@] is Oracle {
            let o = bindings[instr.name@]->Oracle_0;
            if o.input.0 + o.input.1 > usize::MAX {
                Err(RuntimeErrorView::OracleConstructionFailed)
            } else {
            Ok(
                seq![
                    (
                        Gate::BlackBox(BlackBox::spec_new(o.input.0, o.input.1)),
                        Seq::new((o.input.0 + o.input.1) as nat, |k: int| k),
                        Some((o.loads.input@, seq![o.input.0], o.loads.func, env_lookup(env))),
                    ),
                ],
            )
            }
        } else {
            match Gate::spec_from_name(instr.name@, tgts.len() as usize) {
                None => Err(RuntimeErrorView::VarNotFound(instr.name@)),
                Some(g) => if g.spec_arity() == 1 {
                    Ok(Seq::new(tgts.len(), |k: int| (g, seq![tgts[k]], None)))
                } else if g.spec_arity() == tgts.len() {
                    Ok(seq![(g, tgts, None)])
                } else {
                    Err(RuntimeErrorView::OracleConstructionFailed)
                },
            }
        },
    }
}

/// An instruction naming a gate (not an oracle of the current scope) turns
/// into operators on its arguments' qubits in argument order: a one-qubit
/// gate into one operator per qubit, in order; any other gate whose arity is
/// the number of qubits into exactly one operator applied to all of them, in
/// order (CCNOT(q[0], q[1], q[2]) applies to the qubits of q[0], q[1], q[2]
/// as listed); otherwise the instruction is refused.
pub proof fn lemma_gate_targets_in_order(instr: ast::Instruction, t: Seq<(Seq<char>, usize)>, env: Environment)
    requires
        !(env.spec_bindings().contains_key(instr.name@) && env.spec_bindings()[instr.name@] is Oracle),
        spec_args_targets(instr.args@, t) is Ok,
        Gate::spec_from_name(instr.name@, (spec_args_targets(instr.args@, t)->Ok_0).len() as usize) is Some,
    ensures
        ({
            let tgts = spec_args_targets(instr.args@, t)->Ok_0;
            let g = Gate::spec_from_name(instr.name@, tgts.len() as usize)->Some_0;
            let r = spec_instruction_ops(instr, t, env);
            &&& g.spec_arity() == 1 ==> (r matches Ok(ops) && ops.len() == tgts.len() && forall|k: int|
                0 <= k < tgts.len() ==> (#[trigger] ops[k]).0 == g && ops[k].1 == seq![tgts[k]]
                    && ops[k].2 is None)
            &&& g.spec_arity() != 1 && g.spec_arity() == tgts.len() ==> (r matches Ok(ops) && ops.len() == 1
                && ops[0].0 == g && ops[0].1 == tgts && ops[0].2 is None)
            &&& g.spec_arity() != 1 && g.spec_arity() != tgts.len() ==> r == Err::<Seq<OpModel>, RuntimeErrorView>(
                RuntimeErrorView::OracleConstructionFailed,
            )
        }),
{
}

/// An instruction naming an oracle of the current scope whose arguments
/// resolve turns into one oracle operator over qubits `0 .. in + out` in
/// order, whatever its arguments, evaluating the function the oracle loads
/// with its single parameter `in` bits wide and every other name as it is
/// in the scope; an oracle too wide for a `usize` is refused.
pub proof fn lemma_oracle_instruction(instr: ast::Instruction, t: Seq<(Seq<char>, usize)>, env: Environment)
    requires
        env.spec_bindings().contains_key(instr.name@),
        env.spec_bindings()[instr.name@] is Oracle,
        spec_args_targets(instr.args@, t) is Ok,
    ensures
        ({
            let o = env.spec_bindings()[instr.name@]->Oracle_0;
            let r = spec_instruction_ops(instr, t, env);
            &&& o.input.0 + o.input.1 > usize::MAX ==> r == Err::<Seq<OpModel>, RuntimeErrorView>(
                RuntimeErrorView::OracleConstructionFailed,
            )
            &&& o.input.0 + o.input.1 <= usize::MAX ==> (r matches Ok(ops) && ops.len() == 1
                && ops[0].0 == Gate::BlackBox(BlackBox::spec_new(o.input.0, o.input.1))
                && ops[0].1.len() == o.input.0 + o.input.1
                && (forall|k: int| 0 <= k < ops[0].1.len() ==> #[trigger] ops[0].1[k] == k)
                && ops[0].2 == Some::<FunctionModel>(
                (o.loads.input@, seq![o.input.0], o.loads.func, env_lookup(env)),
            ))
        }),
{
}

/// The qubits of an instruction's arguments are those of each argument, one
/// after another.
pub proof fn lemma_args_targets_concat(args: Seq<ast::CircuitRef>, a: ast::CircuitRef, t: Seq<(Seq<char>, usize)>)
    requires
        spec_args_targets(args, t) is Ok,
        spec_resolve_targets(a, t) is Ok,
    ensures
        spec_args_targets(args.push(a), t) == Ok::<Seq<int>, RuntimeErrorView>(
            (spec_args_targets(args, t)->Ok_0) + (spec_resolve_targets(a, t)->Ok_0),
        ),
{
    assert(args.push(a).drop_last() =~= args);
}

/// The operators of a sequence of instructions, in order.
pub open spec fn spec_circuit_ops(
    instrs: Seq<ast::Instruction>,
    t: Seq<(Seq<char>, usize)>,
    env: Environment,
) -> Result<Seq<OpModel>, RuntimeErrorView>
    decreases instrs.len(),
{
    if instrs.len() == 0 {
        Ok(Seq::empty())
    } else {
        match spec_circuit_ops(instrs.drop_last(), t, env) {
            Err(e) => Err(e),
            Ok(p) => match spec_instruction_ops(instrs.last(), t, env) {
                Err(e) => Err(e),
                Ok(q) => Ok(p + q),
            },
        }
    }
}

/// `s` repeated `m` times.
pub open spec fn repeat_chars(s: Seq<char>, m: nat) -> Seq<char>
    decreases m,
{
    if m == 0 {
        Seq::empty()
    } else {
        repeat_chars(s, (m - 1) as nat) + s
    }
}

/// A pattern repeated `m` times has `m` times its characters, character `k`
/// being character `k` modulo the pattern's length of the pattern.
pub proof fn lemma_repeat_chars(s: Seq<char>, m: nat)
    ensures
        repeat_chars(s, m).len() == m * s.len(),
        forall|k: int| 0 <= k < repeat_chars(s, m).len() ==> #[trigger] repeat_chars(s, m)[k] == s[k % s.len() as int],
    decreases m,
{
    if m > 0 {
        let prev = repeat_chars(s, (m - 1) as nat);
        lemma_repeat_chars(s, (m - 1) as nat);
        assert(m * s.len() == (m - 1) * s.len() + s.len()) by (nonlinear_arith);
        assert(repeat_chars(s, m) == prev + s);
        assert forall|k: int| 0 <= k < repeat_chars(s, m).len() implies #[trigger] repeat_chars(s, m)[k] == s[k
            % s.len() as int] by {
            if k >= prev.len() {
                let l = s.len() as int;
                let q = (m - 1) as int;
                assert(prev.len() == q * l);
                assert((k - q * l) == k % l) by (nonlinear_arith)
                    requires
                        q * l <= k < q * l + l,
                        l > 0,
                        q >= 0,
                ;
            }
        }
    } else {
        assert(0 * s.len() == 0);
    }
}

/// The number of bytes of the UTF-8 encoding of `s`.
pub open spec fn utf8_len(s: Seq<char>) -> nat {
    vstd::utf8::encode_utf8(s).len()
}

/// How many times a register's pattern is repeated.
pub open spec fn spec_multiplier(reg: ast::RegisterDecl, env: Environment) -> Result<
    usize,
    RuntimeErrorView,
> {
    match reg.multiplies {
        Some(e) => spec_expect_const(e, env),
        None => Ok(1),
    }
}

/// The initial pattern of the whole register of a circuit, and its lookup
/// table: each register's pattern repeated by its multiplier, one after
/// another, each taking as many qubits as its pattern has bytes.
pub open spec fn spec_construct_lookup(regs: Seq<ast::RegisterDecl>, env: Environment) -> Result<
    (Seq<char>, Seq<(Seq<char>, usize)>),
    RuntimeErrorView,
>
    decreases regs.len(),
{
    if regs.len() == 0 {
        Ok((Seq::empty(), Seq::empty()))
    } else {
        match spec_construct_lookup(regs.drop_last(), env) {
            Err(e) => Err(e),
            Ok((s, t)) => match spec_multiplier(regs.last(), env) {
                Err(e) => Err(e),
                Ok(m) => {
                    let inits = repeat_chars(regs.last().init@, m as nat);
                    Ok((s + inits, t.push((regs.last().name@, utf8_len(inits) as usize))))
                },
            },
        }
    }
}

/// A pattern repeated `m` times takes `m` times its bytes.
proof fn lemma_utf8_repeat(s: Seq<char>, m: nat)
    ensures
        utf8_len(repeat_chars(s, m)) == m * utf8_len(s),
    decreases m,
{
    if m == 0 {
        assert(vstd::utf8::encode_utf8(Seq::<char>::empty()) =~= Seq::<u8>::empty());
        assert(repeat_chars(s, 0) =~= Seq::<char>::empty());
    } else {
        lemma_utf8_repeat(s, (m - 1) as nat);
        lemma_encode_utf8_concat(repeat_chars(s, (m - 1) as nat), s);
        assert(m * utf8_len(s) == (m - 1) * utf8_len(s) + utf8_len(s)) by (nonlinear_arith);
    }
}

/// The registers of a circuit are laid out in declaration order: entry `k`
/// of the lookup table names register `k` and counts the bytes of its
/// pattern times its multiplier (1 when it has none), and the whole register
/// is the patterns, each repeated by its multiplier, one after another
/// (for a register that fits in memory, as every built one does).
pub proof fn lemma_register_layout(regs: Seq<ast::RegisterDecl>, env: Environment)
    ensures
        spec_construct_lookup(regs, env) is Ok && utf8_len((spec_construct_lookup(regs, env)->Ok_0).0)
            <= usize::MAX ==> ({
            let (init, t) = spec_construct_lookup(regs, env)->Ok_0;
            &&& t.len() == regs.len()
            &&& forall|k: int| 0 <= k < regs.len() ==> {
                &&& (#[trigger] t[k]).0 == regs[k].name@
                &&& spec_multiplier(regs[k], env) is Ok
                &&& t[k].1 == (spec_multiplier(regs[k], env)->Ok_0) * utf8_len(regs[k].init@)
                &&& regs[k].multiplies is None ==> t[k].1 == utf8_len(regs[k].init@)
            }
            &&& regs.len() > 0 ==> init == (spec_construct_lookup(regs.drop_last(), env)->Ok_0).0 + repeat_chars(
                regs.last().init@,
                (spec_multiplier(regs.last(), env)->Ok_0) as nat,
            )
        }),
    decreases regs.len(),
{
    if regs.len() > 0 {
        let rest = regs.drop_last();
        lemma_register_layout(rest, env);
        if spec_construct_lookup(regs, env) is Ok && utf8_len((spec_construct_lookup(regs, env)->Ok_0).0)
            <= usize::MAX {
            let (init, t) = spec_construct_lookup(regs, env)->Ok_0;
            let (i0, t0) = spec_construct_lookup(rest, env)->Ok_0;
            let m = spec_multiplier(regs.last(), env)->Ok_0;
            let inits = repeat_chars(regs.last().init@, m as nat);
            lemma_utf8_repeat(regs.last().init@, m as nat);
            lemma_encode_utf8_concat(i0, inits);
            assert(init == i0 + inits);
            assert(t == t0.push((regs.last().name@, utf8_len(inits) as usize)));
            assert(utf8_len(i0) <= usize::MAX);
            assert(t0.len() == rest.len());
            assert forall|k: int| 0 <= k < regs.len() implies {
                &&& (#[trigger] t[k]).0 == regs[k].name@
                &&& spec_multiplier(regs[k], env) is Ok
                &&& t[k].1 == (spec_multiplier(regs[k], env)->Ok_0) * utf8_len(regs[k].init@)
                &&& regs[k].multiplies is None ==> t[k].1 == utf8_len(regs[k].init@)
            } by {
                if k < rest.len() {
                    assert(rest[k] == regs[k]);
                    assert(t[k] == t0[k]);
                } else {
                    assert(regs[k] == regs.last());
                    assert(t[k] == (regs.last().name@, utf8_len(inits) as usize));
                    assert(utf8_len(inits) <= utf8_len(init));
                    assert(t[k].1 == m * utf8_len(regs[k].init@));
                    if regs[k].multiplies is None {
                        assert(m == 1);
                        assert(1 * utf8_len(regs[k].init@) == utf8_len(regs[k].init@));
                    }
                }
            }
            assert(t.len() == regs.len());
            assert(init == (spec_construct_lookup(regs.drop_last(), env)->Ok_0).0 + repeat_chars(
                regs.last().init@,
                (spec_multiplier(regs.last(), env)->Ok_0) as nat,
            ));
        }
    }
}

/// The circuit a declaration denotes: its initial pattern and its operators.
pub open spec fn spec_eval_circuit(decl: ast::CircuitDecl, env: Environment) -> Result<
    (Seq<char>, Seq<OpModel>),
    RuntimeErrorView,
> {
    match spec_construct_lookup(decl.registers@, env) {
        Err(e) => Err(e),
        Ok((init, t)) => match spec_circuit_ops(decl.instructions@, t, env) {
            Err(e) => Err(e),
            Ok(ops) => Ok((init, ops)),
        },
    }
}

/// A result of indices with each taken as an integer.
pub open spec fn index_view(r: Result<usize, RuntimeError>) -> Result<int, RuntimeErrorView> {
    match r {
        Ok(i) => Ok(i as int),
        Err(e) => Err(e@),
    }
}

/// A result of target lists with each index taken as an integer.
pub open spec fn targets_view(r: Result<Vec<usize>, RuntimeError>) -> Result<
    Seq<int>,
    RuntimeErrorView,
> {
    match r {
        Ok(v) => Ok(as_ints(v@)),
        Err(e) => Err(e@),
    }
}

/// A result of operator lists with each operator taken by its model.
pub open spec fn ops_view(r: Result<Vec<Operator>, RuntimeError>) -> Result<
    Seq<OpModel>,
    RuntimeErrorView,
> {
    match r {
        Ok(v) => Ok(op_models(v@)),
        Err(e) => Err(e@),
    }
}

/// `new` is `old` after declaring the circuit `decl`: on success the name is
/// bound to the circuit with the register and operators `spec_eval_circuit`
/// gives; on failure nothing changes.
pub open spec fn circuit_declared(
    old: Environment,
    new: Environment,
    decl: ast::CircuitDecl,
    out: Option<RuntimeError>,
) -> bool {
    match spec_eval_circuit(decl, old) {
        Err(e) => out matches Some(e2) && e2@ == e && new == old,
        Ok((init, ops)) => {
            let c = new.spec_bindings()[decl.name@];
            &&& out is None
            &&& rebinds(new.spec_bindings(), old.spec_bindings(), decl.name@)
            &&& c is Circuit
            &&& c->Circuit_0.circuit.spec_init() == init
            &&& op_models(c->Circuit_0.circuit.spec_ops()) == ops
            &&& new.spec_parent() == old.spec_parent()
        },
    }
}

// ----- LEMMAS -----

/// A lookup table's total is never negative.
pub proof fn lemma_total_nonneg(t: Seq<(Seq<char>, usize)>)
    ensures
        lookup_total(t) >= 0,
    decreases t.len(),
{
    if t.len() > 0 {
        lemma_total_nonneg(t.drop_first());
    }
}

/// Appending a register adds its qubits to the total.
pub proof fn lemma_total_push(t: Seq<(Seq<char>, usize)>, e: (Seq<char>, usize))
    ensures
        lookup_total(t.push(e)) == lookup_total(t) + e.1,
    decreases t.len(),
{
    if t.len() > 0 {
        assert(t.push(e).drop_first() =~= t.drop_first().push(e));
        lemma_total_push(t.drop_first(), e);
    } else {
        assert(t.push(e).drop_first() =~= t);
    }
}

/// An index found by `spec_get_index` lies inside the register it names, and
/// that register lies inside the whole register.
pub proof fn lemma_get_index_bounds(t: Seq<(Seq<char>, usize)>, id: Seq<char>, plus: usize)
    ensures
        spec_get_index(t, id, plus) matches Ok(i) ==> {
            &&& spec_first_len(t, id) matches Some(l)
            &&& plus < l
            &&& plus <= i
            &&& i - plus + l <= lookup_total(t)
            &&& i == offset_before(t, id) + plus
        },
    decreases t.len(),
{
    if t.len() > 0 {
        lemma_total_nonneg(t.drop_first());
        if t[0].0 != id {
            lemma_get_index_bounds(t.drop_first(), id, plus);
        }
    }
}

/// The registers before the first one named `id`, and that one, lie inside
/// the whole register; so a table whose total fits in a `usize` only yields
/// indices that fit.
pub proof fn lemma_offset_within_total(t: Seq<(Seq<char>, usize)>, id: Seq<char>)
    ensures
        0 <= offset_before(t, id),
        offset_before(t, id) + match spec_first_len(t, id) {
            Some(l) => l as int,
            None => 0,
        } <= lookup_total(t),
    decreases t.len(),
{
    if t.len() > 0 {
        lemma_total_nonneg(t.drop_first());
        if t[0].0 != id {
            lemma_offset_within_total(t.drop_first(), id);
        }
    }
}

/// The UTF-8 encoding of a concatenation is the concatenation of the
/// encodings.
pub proof fn lemma_encode_utf8_concat(a: Seq<char>, b: Seq<char>)
    ensures
        vstd::utf8::encode_utf8(a + b) == vstd::utf8::encode_utf8(a) + vstd::utf8::encode_utf8(b),
    decreases a.len(),
{
    if a.len() == 0 {
        assert(a + b =~= b);
        assert(vstd::utf8::encode_utf8(a) =~= Seq::<u8>::empty());
        assert(vstd::utf8::encode_utf8(a) + vstd::utf8::encode_utf8(b) =~= vstd::utf8::encode_utf8(
            b,
        ));
    } else {
        assert((a + b).drop_first() =~= a.drop_first() + b);
        assert((a + b)[0] == a[0]);
        lemma_encode_utf8_concat(a.drop_first(), b);
        assert(vstd::utf8::encode_utf8(a + b) =~= vstd::utf8::encode_utf8(a)
            + vstd::utf8::encode_utf8(b));
    }
}

/// A whole register names its qubits one by one: qubit `k` of the first
/// register named `id` sits `k` places after its qubit 0.
pub proof fn lemma_all_is_each_index(t: Seq<(Seq<char>, usize)>, id: Seq<char>, k: usize)
    requires
        spec_get_index(t, id, 0) is Ok,
        spec_first_len(t, id) matches Some(l) && k < l,
    ensures
        spec_get_index(t, id, k) == Ok::<int, RuntimeErrorView>(
            spec_get_index(t, id, 0)->Ok_0 + k,
        ),
    decreases t.len(),
{
    if t.len() > 0 && t[0].0 != id {
        lemma_all_is_each_index(t.drop_first(), id, k);
    }
}

/// Every qubit a reference targets is a qubit of the whole register.
proof fn lemma_resolve_targets_bound(arg: ast::CircuitRef, t: Seq<(Seq<char>, usize)>)
    ensures
        spec_resolve_targets(arg, t) matches Ok(ts) ==> forall|j: int|
            0 <= j < ts.len() ==> 0 <= #[trigger] ts[j] < lookup_total(t),
{
    match arg.applies {
        ast::Applies::One(n) => {
            lemma_get_index_bounds(t, arg.name@, n);
        },
        ast::Applies::All => {
            lemma_get_index_bounds(t, arg.name@, 0);
        },
    }
}

/// Every qubit the arguments of an instruction target is a qubit of the whole
/// register.
proof fn lemma_args_targets_bound(args: Seq<ast::CircuitRef>, t: Seq<(Seq<char>, usize)>)
    ensures
        spec_args_targets(args, t) matches Ok(ts) ==> forall|j: int|
            0 <= j < ts.len() ==> 0 <= #[trigger] ts[j] < lookup_total(t),
    decreases args.len(),
{
    if args.len() > 0 {
        lemma_args_targets_bound(args.drop_last(), t);
        lemma_resolve_targets_bound(args.last(), t);
        if let Ok(ts) = spec_args_targets(args, t) {
            let p = spec_args_targets(args.drop_last(), t)->Ok_0;
            let q = spec_resolve_targets(args.last(), t)->Ok_0;
            assert(ts == p + q);
            assert forall|j: int| 0 <= j < ts.len() implies 0 <= #[trigger] ts[j] < lookup_total(
                t,
            ) by {
                if j < p.len() {
                    assert(ts[j] == p[j]);
                } else {
                    assert(ts[j] == q[j - p.len()]);
                }
            }
        }
    }
}

/// `op` applies an operation other than an oracle only to qubits below
/// `size`.
pub open spec fn targets_below(op: OpModel, size: int) -> bool {
    !(op.0 is BlackBox) ==> forall|j: int| 0 <= j < op.1.len() ==> 0 <= #[trigger] op.1[j] < size
}

/// The operators of an instruction only target qubits of the whole register,
/// but for an oracle.
proof fn lemma_instruction_ops_bound(
    instr: ast::Instruction,
    t: Seq<(Seq<char>, usize)>,
    b: Environment,
)
    ensures
        spec_instruction_ops(instr, t, b) matches Ok(ops) ==> forall|k: int|
            0 <= k < ops.len() ==> targets_below(#[trigger] ops[k], lookup_total(t)),
{
    lemma_args_targets_bound(instr.args@, t);
    if let Ok(tgts) = spec_args_targets(instr.args@, t) {
        if !(b.spec_bindings().contains_key(instr.name@) && b.spec_bindings()[instr.name@] is Oracle) {
            Gate::lemma_named_arity(instr.name@, tgts.len() as usize);
            if let Some(g) = Gate::spec_from_name(instr.name@, tgts.len() as usize) {
                if g.spec_arity() == 1 {
                    let ops = Seq::new(tgts.len(), |k: int| (g, seq![tgts[k]], None::<FunctionModel>));
                    assert forall|k: int| 0 <= k < ops.len() implies targets_below(
                        #[trigger] ops[k],
                        lookup_total(t),
                    ) by {
                        assert(ops[k].1 =~= seq![tgts[k]]);
                    }
                }
            }
        }
    }
}

/// The operators of a sequence of instructions only target qubits of the
/// whole register, but for oracles.
proof fn lemma_circuit_ops_bound(
    instrs: Seq<ast::Instruction>,
    t: Seq<(Seq<char>, usize)>,
    b: Environment,
)
    ensures
        spec_circuit_ops(instrs, t, b) matches Ok(ops) ==> forall|k: int|
            0 <= k < ops.len() ==> targets_below(#[trigger] ops[k], lookup_total(t)),
    decreases instrs.len(),
{
    if instrs.len() > 0 {
        lemma_circuit_ops_bound(instrs.drop_last(), t, b);
        lemma_instruction_ops_bound(instrs.last(), t, b);
        if let Ok(ops) = spec_circuit_ops(instrs, t, b) {
            let p = spec_circuit_ops(instrs.drop_last(), t, b)->Ok_0;
            let q = spec_instruction_ops(instrs.last(), t, b)->Ok_0;
            assert(ops == p + q);
            assert forall|k: int| 0 <= k < ops.len() implies targets_below(
                #[trigger] ops[k],
                lookup_total(t),
            ) by {
                if k < p.len() {
                    assert(ops[k] == p[k]);
                } else {
                    assert(ops[k] == q[k - p.len()]);
                }
            }
        }
    }
}

/// The lookup table of a circuit counts exactly the bytes of its register
/// pattern, when that pattern fits in memory.
proof fn lemma_construct_lookup_total(regs: Seq<ast::RegisterDecl>, env: Environment)
    ensures
        spec_construct_lookup(regs, env) matches Ok((init, t)) ==> (utf8_len(init) <= usize::MAX
            ==> lookup_total(t) == utf8_len(init)),
    decreases regs.len(),
{
    if regs.len() == 0 {
        assert(vstd::utf8::encode_utf8(Seq::<char>::empty()) =~= Seq::<u8>::empty());
    } else {
        lemma_construct_lookup_total(regs.drop_last(), env);
        if let Ok((init, t)) = spec_construct_lookup(regs, env) {
            let (s, t0) = spec_construct_lookup(regs.drop_last(), env)->Ok_0;
            let m = spec_multiplier(regs.last(), env)->Ok_0;
            let inits = repeat_chars(regs.last().init@, m as nat);
            lemma_encode_utf8_concat(s, inits);
            lemma_total_push(t0, (regs.last().name@, utf8_len(inits) as usize));
        }
    }
}

/// Every qubit a declared circuit applies an operation to, other than an
/// oracle, is a qubit of its register: an index below the size of its
/// register pattern.
pub proof fn lemma_circuit_targets_in_register(decl: ast::CircuitDecl, env: Environment)
    requires
        spec_eval_circuit(decl, env) matches Ok((init, ops)) && utf8_len(init) <= usize::MAX,
    ensures
        spec_eval_circuit(decl, env) matches Ok((init, ops)) && forall|k: int|
            0 <= k < ops.len() ==> targets_below(#[trigger] ops[k], utf8_len(init) as int),
{
    lemma_construct_lookup_total(decl.registers@, env);
    let (init, t) = spec_construct_lookup(decl.registers@, env)->Ok_0;
    lemma_circuit_ops_bound(decl.instructions@, t, env);
}

/// The number of bytes of a string: the length of its UTF-8 encoding, the
/// value `str::len` gives.
fn byte_len(s: &String) -> (n: usize)
    ensures
        n == utf8_len(s@),
{
    let bytes: &[u8] = s.as_str().as_bytes();
    bytes.len()
}

// ----- EVALUATION -----

impl Evaluator {
    /// Declares a circuit: builds its register and its operators, and binds
    /// the circuit to its name.
    pub fn eval_circuit_decl(&mut self, decl: &ast::CircuitDecl) -> (r: Result<(), RuntimeError>)
        ensures
            circuit_declared(old(self).spec_env(), final(self).spec_env(), *decl, outcome(r)),
    {
        let (register_str, lookup) = match self.construct_lookup(decl) {
            Ok(p) => p,
            Err(e) => {
                return Err(e);
            },
        };

        // build engine ops
        let ghost t = lookup_view(lookup@);
        let ghost b = self.spec_env();
        let mut ops: Vec<Operator> = Vec::new();
        proof {
            assert(decl.instructions@.take(0) =~= Seq::<ast::Instruction>::empty());
            assert(op_models(ops@) =~= Seq::<OpModel>::empty());
        }
        let n: usize = decl.instructions.len();
        let mut k: usize = 0;
        while k < n
            invariant
                n == decl.instructions@.len(),
                k <= n,
                t == lookup_view(lookup@),
                lookup_total(t) <= usize::MAX,
                b == self.spec_env(),
                self.spec_env() == old(self).spec_env(),
                spec_construct_lookup(decl.registers@, self.spec_env()) == Ok::<
                    (Seq<char>, Seq<(Seq<char>, usize)>),
                    RuntimeErrorView,
                >((register_str@, t)),
                spec_circuit_ops(decl.instructions@.take(k as int), t, b) == Ok::<
                    Seq<OpModel>,
                    RuntimeErrorView,
                >(op_models(ops@)),
            decreases n - k,
        {
            let instruction: &ast::Instruction = &decl.instructions[k];
            let mut more: Vec<Operator> = match self.instruction_ops(instruction, &lookup) {
                Ok(v) => v,
                Err(e) => {
                    proof {
                        assert(decl.instructions@.take(k + 1).drop_last() =~= decl.instructions@.take(
                            k as int,
                        ));
                        assert(decl.instructions@.take(k + 1).last() == decl.instructions@[k as int]);
                        lemma_circuit_ops_err_prefix(decl.instructions@, (k + 1) as int, t, b);
                    }
                    return Err(e);
                },
            };
            let ghost prev = ops@;
            let ghost added = more@;
            ops.append(&mut more);
            proof {
                assert(decl.instructions@.take(k + 1).drop_last() =~= decl.instructions@.take(
                    k as int,
                ));
                assert(op_models(ops@) =~= op_models(prev) + op_models(added));
            }
            k = k + 1;
        }
        proof {
            assert(decl.instructions@.take(n as int) =~= decl.instructions@);
        }

        let circuit_name: String = decl.name.clone();
        let circuit: Circuit = Circuit::new(register_str, ops);
        let ghost before = self.environment.spec_bindings();
        self.environment.insert(circuit_name, EvaluatorType::Circuit(circuit));
        proof {
            assert(self.environment.spec_bindings().remove(decl.name@) =~= before.remove(
                decl.name@,
            ));
        }
        return Ok(());
    }
}

/// Once a prefix of the instructions fails, so do all the instructions.
proof fn lemma_circuit_ops_err_prefix(
    instrs: Seq<ast::Instruction>,
    k: int,
    t: Seq<(Seq<char>, usize)>,
    b: Environment,
)
    requires
        0 <= k <= instrs.len(),
        spec_circuit_ops(instrs.take(k), t, b) is Err,
    ensures
        spec_circuit_ops(instrs, t, b) == spec_circuit_ops(instrs.take(k), t, b),
    decreases instrs.len() - k,
{
    if k < instrs.len() {
        assert(instrs.take(k + 1).drop_last() =~= instrs.take(k));
        lemma_circuit_ops_err_prefix(instrs, k + 1, t, b);
    } else {
        assert(instrs.take(k) =~= instrs);
    }
}

// ----- HELPERS -----
impl Evaluator {
    /// What a name denotes as an operation, applied to `m_arity` qubits when it is
    /// `measure`.
    pub fn resolve_gate(&self, gate_name: &String, m_arity: usize) -> (r: Result<Gate, RuntimeError>)
        ensures
            result_view(r) == match Gate::spec_from_name(gate_name@, m_arity) {
                Some(g) => Ok(g),
                None => Err(RuntimeErrorView::VarNotFound(gate_name@)),
            },
    {
        match Gate::from_string(gate_name, m_arity) {
            Some(g) => Ok(g),
            None => Err(RuntimeError::VarNotFound(gate_name.clone())),
        }
    }

    /// The operators of one instruction of a circuit.
    pub fn instruction_ops(&self, instruction: &ast::Instruction, lookup: &CircuitLookup) -> (r:
        Result<Vec<Operator>, RuntimeError>)
        requires
            lookup_total(lookup_view(lookup@)) <= usize::MAX,
        ensures
            ops_view(r) == spec_instruction_ops(
                *instruction,
                lookup_view(lookup@),
                self.spec_env(),
            ),
    {
        let tgts: Vec<usize> = match instruction_targets(&instruction.args, lookup) {
            Ok(v) => v,
            Err(e) => {
                return Err(e);
            },
        };
        let mut ops: Vec<Operator> = Vec::new();

        // if the name is bound to an oracle in the environment,
        // then we don't need to determine how it is applied.
        match self.environment().get(&instruction.name) {
            Some(EvaluatorType::Oracle(o)) => {
                let (x, y): (usize, usize) = (o.input.0, o.input.1);
                if x.checked_add(y).is_none() {
                    return Err(RuntimeError::OracleConstructionFailed);
                }
                let widths: Vec<usize> = vec![x];
                let lambda: Lambda = self.function_to_lambda(
                    &o.loads.func,
                    o.loads.input.as_slice(),
                    widths.as_slice(),
                );
                proof {
                    assert(widths@ =~= seq![x]);
                }
                let op: Operator = Operator::new_u_f(lambda, x, y);
                ops.push(op);
                proof {
                    assert(as_ints(first_indices((x + y) as nat)) =~= Seq::new(
                        (x + y) as nat,
                        |k: int| k,
                    ));
                    assert(op_models(ops@) =~= seq![op_model(op)]);
                }
                return Ok(ops);
            },
            _ => {},
        }

        let gate: Gate = match self.resolve_gate(&instruction.name, tgts.len()) {
            Ok(g) => g,
            Err(e) => {
                return Err(e);
            },
        };

        // If Gate arity is 1, then we want to apply it point-wise
        // to each target.
        if gate.arity() == 1 {
            let mut i: usize = 0;
            while i < tgts.len()
                invariant
                    i <= tgts@.len(),
                    gate.spec_arity() == 1,
                    op_models(ops@) =~= Seq::new(
                        i as nat,
                        |k: int| (gate, seq![as_ints(tgts@)[k]], None::<FunctionModel>),
                    ),
                decreases tgts@.len() - i,
            {
                let mut one: Vec<usize> = Vec::new();
                one.push(tgts[i]);
                let op: Operator = match Operator::new(gate, one) {
                    Some(op) => op,
                    None => {
                        return Err(RuntimeError::Fatal);
                    },
                };
                let ghost prev = ops@;
                ops.push(op);
                proof {
                    assert(as_ints(op.spec_applies()) =~= seq![as_ints(tgts@)[i as int]]);
                    assert(op_models(ops@) =~= op_models(prev).push(op_model(op)));
                }
                i = i + 1;
            }
            Ok(ops)
        } else {
            let op: Operator = match Operator::new(gate, tgts) {
                Some(op) => op,
                None => {
                    return Err(RuntimeError::OracleConstructionFailed);
                },
            };
            ops.push(op);
            proof {
                assert(op_models(ops@) =~= seq![op_model(op)]);
            }
            Ok(ops)
        }
    }

    /// Builds the entire register to be fed into the engine, along with the
    /// means to index into the register.
    ///
    /// For example, given the registers `x = "00"` and `y = "++"`, the
    /// register is `"00++"`; `x` begins at qubit 0 and `y` at qubit 2.
    pub fn construct_lookup(&self, decl: &ast::CircuitDecl) -> (r: Result<
        (String, CircuitLookup),
        RuntimeError,
    >)
        ensures
            match spec_construct_lookup(decl.registers@, self.spec_env()) {
                Err(e) => r matches Err(e2) && e2@ == e,
                Ok((init, t)) => r matches Ok((s, l)) && s@ == init && lookup_view(l@) == t,
            },
            r matches Ok((s, l)) ==> lookup_total(lookup_view(l@)) == utf8_len(s@) && utf8_len(s@)
                <= usize::MAX,
    {
        let mut register_str: String = String::new();
        let mut lookup: CircuitLookup = Vec::new();
        proof {
            assert(decl.registers@.take(0) =~= Seq::<ast::RegisterDecl>::empty());
            assert(lookup_view(lookup@) =~= Seq::<(Seq<char>, usize)>::empty());
            assert(register_str@ =~= Seq::<char>::empty());
            assert(vstd::utf8::encode_utf8(register_str@) =~= Seq::<u8>::empty());
        }
        let n: usize = decl.registers.len();
        let mut k: usize = 0;
        while k < n
            invariant
                n == decl.registers@.len(),
                k <= n,
                spec_construct_lookup(decl.registers@.take(k as int), self.spec_env()) == Ok::<
                    (Seq<char>, Seq<(Seq<char>, usize)>),
                    RuntimeErrorView,
                >((register_str@, lookup_view(lookup@))),
                lookup_total(lookup_view(lookup@)) == utf8_len(register_str@),
                utf8_len(register_str@) <= usize::MAX,
            decreases n - k,
        {
            let reg: &ast::RegisterDecl = &decl.registers[k];
            proof {
                assert(decl.registers@.take(k + 1).drop_last() =~= decl.registers@.take(k as int));
                assert(decl.registers@.take(k + 1).last() == decl.registers@[k as int]);
            }
            let m: usize = match &reg.multiplies {
                Some(e) => match self.expect_const(e) {
                    Ok(m) => m,
                    Err(err) => {
                        proof {
                            lemma_construct_lookup_err_prefix(
                                decl.registers@,
                                (k + 1) as int,
                                self.spec_env(),
                            );
                        }
                        return Err(err);
                    },
                },
                None => 1,
            };
            let inits: String = repeat_string(&reg.init, m);
            let ghost old_reg = register_str@;
            let ghost old_lookup = lookup@;
            // the qubits of this register are the bytes it adds to the whole
            // register
            let before: usize = byte_len(&register_str);
            register_str.append(inits.as_str());
            let after: usize = byte_len(&register_str);
            proof {
                lemma_encode_utf8_concat(old_reg, inits@);
            }
            let len: usize = after - before;
            lookup.push((reg.name.clone(), len));
            proof {
                lemma_total_push(lookup_view(old_lookup), (reg.name@, len));
                assert(lookup_view(lookup@) =~= lookup_view(old_lookup).push((reg.name@, len)));
            }
            k = k + 1;
        }
        proof {
            assert(decl.registers@.take(n as int) =~= decl.registers@);
        }
        Ok((register_str, lookup))
    }
}

/// Once a prefix of the registers fails, so do all the registers.
proof fn lemma_construct_lookup_err_prefix(regs: Seq<ast::RegisterDecl>, k: int, env: Environment)
    requires
        0 <= k <= regs.len(),
        spec_construct_lookup(regs.take(k), env) is Err,
    ensures
        spec_construct_lookup(regs, env) == spec_construct_lookup(regs.take(k), env),
    decreases regs.len() - k,
{
    if k < regs.len() {
        assert(regs.take(k + 1).drop_last() =~= regs.take(k));
        lemma_construct_lookup_err_prefix(regs, k + 1, env);
    } else {
        assert(regs.take(k) =~= regs);
    }
}

/// `s` repeated `m` times.
fn repeat_string(s: &String, m: usize) -> (r: String)
    ensures
        r@ == repeat_chars(s@, m as nat),
{
    let mut r: String = String::new();
    let mut i: usize = 0;
    while i < m
        invariant
            i <= m,
            r@ == repeat_chars(s@, i as nat),
        decreases m - i,
    {
        r.append(s.as_str());
        i = i + 1;
    }
    r
}

/// The qubits targeted by the arguments of an instruction, in order.
pub fn instruction_targets(args: &Vec<ast::CircuitRef>, lookup: &CircuitLookup) -> (r: Result<
    Vec<usize>,
    RuntimeError,
>)
    requires
        lookup_total(lookup_view(lookup@)) <= usize::MAX,
    ensures
        targets_view(r) == spec_args_targets(args@, lookup_view(lookup@)),
{
    let ghost t = lookup_view(lookup@);
    let mut tgts: Vec<usize> = Vec::new();
    proof {
        assert(args@.take(0) =~= Seq::<ast::CircuitRef>::empty());
        assert(as_ints(tgts@) =~= Seq::<int>::empty());
    }
    let n: usize = args.len();
    let mut j: usize = 0;
    while j < n
        invariant
            n == args@.len(),
            j <= n,
            t == lookup_view(lookup@),
            lookup_total(t) <= usize::MAX,
            spec_args_targets(args@.take(j as int), t) == Ok::<Seq<int>, RuntimeErrorView>(
                as_ints(tgts@),
            ),
        decreases n - j,
    {
        proof {
            assert(args@.take(j + 1).drop_last() =~= args@.take(j as int));
            assert(args@.take(j + 1).last() == args@[j as int]);
            lemma_offset_within_total(t, args@[j as int].name@);
        }
        // identify target qubits from each qubit arg
        // being passed to a given gate.
        let mut result: Vec<usize> = match resolve_targets(&args[j], lookup) {
            Ok(v) => v,
            Err(e) => {
                proof {
                    lemma_args_targets_err_prefix(args@, (j + 1) as int, t);
                }
                return Err(e);
            },
        };
        let ghost prev = tgts@;
        let ghost added = result@;
        tgts.append(&mut result);
        proof {
            assert(as_ints(tgts@) =~= as_ints(prev) + as_ints(added));
        }
        j = j + 1;
    }
    proof {
        assert(args@.take(n as int) =~= args@);
    }
    Ok(tgts)
}

/// Once a prefix of the arguments fails, so do all the arguments.
proof fn lemma_args_targets_err_prefix(
    args: Seq<ast::CircuitRef>,
    k: int,
    t: Seq<(Seq<char>, usize)>,
)
    requires
        0 <= k <= args.len(),
        spec_args_targets(args.take(k), t) is Err,
    ensures
        spec_args_targets(args, t) == spec_args_targets(args.take(k), t),
    decreases args.len() - k,
{
    if k < args.len() {
        assert(args.take(k + 1).drop_last() =~= args.take(k));
        lemma_args_targets_err_prefix(args, k + 1, t);
    } else {
        assert(args.take(k) =~= args);
    }
}

/// given a `table` of identifiers, an identifier, and a (zero-indexed)
/// pivot, return the index of `identifer[plus]` in the circuits
/// qubits register.
///
/// for example, given a `table` [("x", 2), ("y", 3)], and we wanted to find
/// `get_index(table, "y", 1)`, `3` should be returned, since `y[1]` is found at
/// index three. Fails if the identifier could not be resolved, or if
/// pivot exceeds the length of the resolved identifier.
pub fn get_index(table: &CircuitLookup, identifer: &String, plus: usize) -> (r: Result<
    usize,
    RuntimeError,
>)
    requires
        index_fits(lookup_view(table@), identifer@, plus),
    ensures
        index_view(r) == spec_get_index(lookup_view(table@), identifer@, plus),
{
    let ghost t = lookup_view(table@);
    proof {
        assert(t.skip(0) =~= t);
    }
    let n: usize = table.len();
    let mut curr_idx: usize = 0;
    let mut i: usize = 0;
    while i < n
        invariant
            n == table@.len(),
            t == lookup_view(table@),
            i <= n,
            index_fits(t, identifer@, plus),
            curr_idx + offset_before(t.skip(i as int), identifer@) == offset_before(t, identifer@),
            spec_first_len(t, identifer@) == spec_first_len(t.skip(i as int), identifer@),
            spec_get_index(t, identifer@, plus) == match spec_get_index(
                t.skip(i as int),
                identifer@,
                plus,
            ) {
                Ok(x) => Ok(curr_idx + x),
                Err(e) => Err(e),
            },
        decreases n - i,
    {
        let name: &String = &table[i].0;
        let length: usize = table[i].1;
        proof {
            let s = t.skip(i as int);
            assert(s[0] == (name@, length));
            assert(s.drop_first() =~= t.skip(i + 1));
            lemma_offset_within_total(t.skip(i + 1), identifer@);
        }
        if !name.eq(identifer) {
            curr_idx = curr_idx + length;
            i = i + 1;
            continue ;
        }
        // match made, ensure that plus is valid

        if plus < length {
            return Ok(curr_idx + plus);
        } else {
            return Err(RuntimeError::OutOfBounds(identifer.clone(), plus));
        }
    }
    proof {
        assert(t.skip(n as int) =~= Seq::<(Seq<char>, usize)>::empty());
    }
    return Err(RuntimeError::VarNotFound(identifer.clone()));
}

/// Given a `CircuitRef`, identify the qubits
/// that the reference is attempting to target.
///
/// This method uses a `CircuitLookup` to assist.
/// For example, given the table `[("x", 3)]`, and
/// a circuit reference `x[1]`, it returns `[1]`.
pub fn resolve_targets(arg: &ast::CircuitRef, lookup: &CircuitLookup) -> (r: Result<
    Vec<usize>,
    RuntimeError,
>)
    requires
        targets_fit(*arg, lookup_view(lookup@)),
    ensures
        targets_view(r) == spec_resolve_targets(*arg, lookup_view(lookup@)),
{
    let ghost t = lookup_view(lookup@);
    match arg.applies {
        ast::Applies::One(n) => {
            let idx: usize = match get_index(lookup, &arg.name, n) {
                Ok(i) => i,
                Err(e) => {
                    return Err(e);
                },
            };
            let mut v: Vec<usize> = Vec::new();
            v.push(idx);
            proof {
                assert(as_ints(v@) =~= seq![idx as int]);
            }
            return Ok(v);
        },
        ast::Applies::All => {
            let idx: usize = match get_index(lookup, &arg.name, 0) {
                Ok(i) => i,
                Err(e) => {
                    return Err(e);
                },
            };
            proof {
                lemma_get_index_bounds(t, arg.name@, 0);
            }
            let length: usize = match first_length(lookup, &arg.name) {
                Some(n) => n,
                // unreachable, as `idx` had been reached.
                None => {
                    return Err(RuntimeError::Fatal);
                },
            };
            let mut v: Vec<usize> = Vec::new();
            let mut k: usize = 0;
            while k < length
                invariant
                    k <= length,
                    idx + length <= usize::MAX,
                    as_ints(v@) =~= Seq::new(k as nat, |j: int| idx + j),
                decreases length - k,
            {
                let ghost prev = v@;
                v.push(idx + k);
                proof {
                    assert(as_ints(v@) =~= as_ints(prev).push(idx + k));
                }
                k = k + 1;
            }
            return Ok(v);
        },
    }
}

/// The number of qubits of the first register named `name`.
fn first_length(lookup: &CircuitLookup, name: &String) -> (r: Option<usize>)
    ensures
        r == spec_first_len(lookup_view(lookup@), name@),
{
    let ghost t = lookup_view(lookup@);
    proof {
        assert(t.skip(0) =~= t);
    }
    let n: usize = lookup.len();
    let mut i: usize = 0;
    while i < n
        invariant
            n == lookup@.len(),
            t == lookup_view(lookup@),
            i <= n,
            spec_first_len(t, name@) == spec_first_len(t.skip(i as int), name@),
        decreases n - i,
    {
        proof {
            let s = t.skip(i as int);
            assert(s[0] == (lookup@[i as int].0@, lookup@[i as int].1));
            assert(s.drop_first() =~= t.skip(i + 1));
        }
        if lookup[i].0.eq(name) {
            return Some(lookup[i].1);
        }
        i = i + 1;
    }
    proof {
        assert(t.skip(n as int) =~= Seq::<(Seq<char>, usize)>::empty());
    }
    None
}

} // verus!
