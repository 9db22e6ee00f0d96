use vstd::prelude::*;

use crate::engine::circuit::{renderable, rendered_wire, string_views};
use crate::engine::gate::name_is;
use crate::interpreter::evaluator::Evaluator;
use crate::interpreter::evaluator::environment::{Environment, EvaluatorType};
use crate::interpreter::evaluator::eval_expr::spec_expect_const;
use crate::interpreter::evaluator::runtime_error::{RuntimeError, RuntimeErrorView, result_view};
use crate::interpreter::parser::ast_types as ast;

verus! {

/// What a method call on a circuit asks to be done.
#[derive(Debug, PartialEq, Eq)]
pub enum MethodAction {
    /// `circuit.distribution(shots = n)`: run the circuit `n` times and show
    /// the final distribution of each run.
    Distribution(usize),
    /// `circuit.measure(shots = n)`: run the circuit `n` times and show the
    /// last measurement of each run.
    Measure(usize),
    /// `circuit.printCircuit(spaces = n)`: show these lines, the drawing of
    /// the circuit with `n` dashes after each cell.
    PrintCircuit(Vec<String>),
}

/// A method action with the lines of a drawing taken by their characters.
pub enum MethodActionView {
    Distribution(usize),
    Measure(usize),
    PrintCircuit(Seq<Seq<char>>),
}

impl View for MethodAction {
    type V = MethodActionView;

    open spec fn view(&self) -> MethodActionView {
        match self {
            MethodAction::Distribution(n) => MethodActionView::Distribution(*n),
            MethodAction::Measure(n) => MethodActionView::Measure(*n),
            MethodAction::PrintCircuit(w) => MethodActionView::PrintCircuit(string_views(w@)),
        }
    }
}

/// A result with its action and its error taken by their views.
pub open spec fn action_view(r: Result<MethodAction, RuntimeError>) -> Result<
    MethodActionView,
    RuntimeErrorView,
> {
    match r {
        Ok(a) => Ok(a@),
        Err(e) => Err(e@),
    }
}

/// The value of the first argument named `name`; each argument up to it must
/// be a constant.
pub open spec fn spec_get_arg(args: Seq<ast::MethodArg>, name: Seq<char>, env: Environment) -> Result<
    Option<usize>,
    RuntimeErrorView,
>
    decreases args.len(),
{
    if args.len() == 0 {
        Ok(None)
    } else {
        match spec_expect_const(args[0].value, env) {
            Err(e) => Err(e),
            Ok(n) => if args[0].name@ == name {
                Ok(Some(n))
            } else {
                spec_get_arg(args.drop_first(), name, env)
            },
        }
    }
}

/// The value of the argument named `name`, 1 by default.
pub open spec fn spec_arg_or_one(args: Seq<ast::MethodArg>, name: Seq<char>, env: Environment) -> Result<
    usize,
    RuntimeErrorView,
> {
    match spec_get_arg(args, name, env) {
        Err(e) => Err(e),
        Ok(Some(n)) => Ok(n),
        Ok(None) => Ok(1),
    }
}

/// The first argument named `name` whose value is the constant `n`, every
/// argument before it a constant too, is the one read.
pub proof fn lemma_get_arg_first(args: Seq<ast::MethodArg>, name: Seq<char>, env: Environment, i: int, n: usize)
    requires
        0 <= i < args.len(),
        args[i].name@ == name,
        spec_expect_const(args[i].value, env) == Ok::<usize, RuntimeErrorView>(n),
        forall|j: int| 0 <= j < i ==> #[trigger] args[j].name@ != name,
        forall|j: int| 0 <= j < i ==> #[trigger] spec_expect_const(args[j].value, env) is Ok,
    ensures
        spec_get_arg(args, name, env) == Ok::<Option<usize>, RuntimeErrorView>(Some(n)),
    decreases i,
{
    if i > 0 {
        let rest = args.drop_first();
        assert forall|j: int| 0 <= j < i - 1 implies #[trigger] rest[j].name@ != name by {
            assert(rest[j] == args[j + 1]);
        }
        assert forall|j: int| 0 <= j < i - 1 implies #[trigger] spec_expect_const(rest[j].value, env) is Ok by {
            assert(rest[j] == args[j + 1]);
        }
        assert(args[0].name@ != name);
        assert(spec_expect_const(args[0].value, env) is Ok);
        lemma_get_arg_first(rest, name, env, i - 1, n);
    }
}

/// With no argument named `name`, and every argument a constant, nothing is
/// read.
pub proof fn lemma_get_arg_absent(args: Seq<ast::MethodArg>, name: Seq<char>, env: Environment)
    requires
        forall|j: int| 0 <= j < args.len() ==> #[trigger] args[j].name@ != name,
        forall|j: int| 0 <= j < args.len() ==> #[trigger] spec_expect_const(args[j].value, env) is Ok,
    ensures
        spec_get_arg(args, name, env) == Ok::<Option<usize>, RuntimeErrorView>(None),
    decreases args.len(),
{
    if args.len() > 0 {
        let rest = args.drop_first();
        assert forall|j: int| 0 <= j < rest.len() implies #[trigger] rest[j].name@ != name by {
            assert(rest[j] == args[j + 1]);
        }
        assert forall|j: int| 0 <= j < rest.len() implies #[trigger] spec_expect_const(rest[j].value, env) is Ok by {
            assert(rest[j] == args[j + 1]);
        }
        assert(args[0].name@ != name);
        assert(spec_expect_const(args[0].value, env) is Ok);
        lemma_get_arg_absent(rest, name, env);
    }
}

/// On a circuit bound in the current scope, `distribution` and `measure` run
/// it as many times as the first argument named `shots` says, once when
/// there is none; arguments of other names (`spaces` among them) do not set
/// the count. `printCircuit` draws a drawable circuit with as many dashes
/// after each cell as its first argument named `spaces` says, one when there
/// is none.
pub proof fn lemma_method_counts(call: ast::MethodCall, env: Environment, arg: Seq<char>, i: int, n: usize)
    requires
        env.spec_bindings().contains_key(call.name@),
        env.spec_bindings()[call.name@] is Circuit,
        forall|j: int| 0 <= j < call.args@.len() ==> #[trigger] spec_expect_const(call.args@[j].value, env) is Ok,
    ensures
        call.call@ == "distribution"@ && arg == "shots"@ && 0 <= i < call.args@.len() && call.args@[i].name@ == arg
            && spec_expect_const(call.args@[i].value, env) == Ok::<usize, RuntimeErrorView>(n) && (forall|j: int|
            0 <= j < i ==> #[trigger] call.args@[j].name@ != arg) ==> spec_method_call(call, env) == Ok::<
            MethodActionView,
            RuntimeErrorView,
        >(MethodActionView::Distribution(n)),
        call.call@ == "measure"@ && arg == "shots"@ && 0 <= i < call.args@.len() && call.args@[i].name@ == arg
            && spec_expect_const(call.args@[i].value, env) == Ok::<usize, RuntimeErrorView>(n) && (forall|j: int|
            0 <= j < i ==> #[trigger] call.args@[j].name@ != arg) ==> spec_method_call(call, env) == Ok::<
            MethodActionView,
            RuntimeErrorView,
        >(MethodActionView::Measure(n)),
        call.call@ == "distribution"@ && (forall|j: int|
            0 <= j < call.args@.len() ==> #[trigger] call.args@[j].name@ != "shots"@) ==> spec_method_call(
            call,
            env,
        ) == Ok::<MethodActionView, RuntimeErrorView>(MethodActionView::Distribution(1)),
        call.call@ == "measure"@ && (forall|j: int|
            0 <= j < call.args@.len() ==> #[trigger] call.args@[j].name@ != "shots"@) ==> spec_method_call(
            call,
            env,
        ) == Ok::<MethodActionView, RuntimeErrorView>(MethodActionView::Measure(1)),
        ({
            let c = env.spec_bindings()[call.name@]->Circuit_0.circuit;
            call.call@ == "printCircuit"@ && arg == "spaces"@ && 0 <= i < call.args@.len() && call.args@[i].name@
                == arg && spec_expect_const(call.args@[i].value, env) == Ok::<usize, RuntimeErrorView>(n) && (forall|
                j: int|
                0 <= j < i ==> #[trigger] call.args@[j].name@ != arg) && renderable(c.spec_init(), c.spec_ops())
                ==> spec_method_call(call, env) == Ok::<MethodActionView, RuntimeErrorView>(
                MethodActionView::PrintCircuit(
                    Seq::new(
                        c.spec_init().len(),
                        |w: int| rendered_wire(c.spec_init(), c.spec_ops(), w, n as nat),
                    ),
                ),
            )
        }),
        ({
            let c = env.spec_bindings()[call.name@]->Circuit_0.circuit;
            call.call@ == "printCircuit"@ && (forall|j: int|
                0 <= j < call.args@.len() ==> #[trigger] call.args@[j].name@ != "spaces"@) && renderable(
                c.spec_init(),
                c.spec_ops(),
            ) ==> spec_method_call(call, env) == Ok::<MethodActionView, RuntimeErrorView>(
                MethodActionView::PrintCircuit(
                    Seq::new(
                        c.spec_init().len(),
                        |w: int| rendered_wire(c.spec_init(), c.spec_ops(), w, 1nat),
                    ),
                ),
            )
        }),
{
    broadcast use vstd::string::group_string_axioms;

    reveal_strlit("distribution");
    reveal_strlit("measure");
    reveal_strlit("printCircuit");
    assert("distribution"@ != "measure"@) by {
        assert("distribution"@.len() != "measure"@.len());
    }
    assert("printCircuit"@ != "measure"@) by {
        assert("printCircuit"@.len() != "measure"@.len());
    }
    assert("printCircuit"@ != "distribution"@) by {
        assert("printCircuit"@[0] != "distribution"@[0]);
    }
    if 0 <= i < call.args@.len() && call.args@[i].name@ == arg && spec_expect_const(call.args@[i].value, env) == Ok::<
        usize,
        RuntimeErrorView,
    >(n) && (forall|j: int| 0 <= j < i ==> #[trigger] call.args@[j].name@ != arg) {
        lemma_get_arg_first(call.args@, arg, env, i, n);
    }
    if forall|j: int| 0 <= j < call.args@.len() ==> #[trigger] call.args@[j].name@ != "shots"@ {
        lemma_get_arg_absent(call.args@, "shots"@, env);
    }
    if forall|j: int| 0 <= j < call.args@.len() ==> #[trigger] call.args@[j].name@ != "spaces"@ {
        lemma_get_arg_absent(call.args@, "spaces"@, env);
    }
}

/// The action a method call on a circuit bound in the current scope asks
/// for; a drawing is of the circuit's wires, and a circuit that cannot be
/// drawn is a `Fatal` error.
pub open spec fn spec_method_call(call: ast::MethodCall, env: Environment) -> Result<
    MethodActionView,
    RuntimeErrorView,
> {
    let b = env.spec_bindings();
    if !b.contains_key(call.name@) {
        Err(RuntimeErrorView::VarNotFound(call.name@))
    } else if !(b[call.name@] is Circuit) {
        Err(RuntimeErrorView::TypeMismatch)
    } else if call.call@ == "distribution"@ {
        match spec_arg_or_one(call.args@, "shots"@, env) {
            Err(e) => Err(e),
            Ok(n) => Ok(MethodActionView::Distribution(n)),
        }
    } else if call.call@ == "measure"@ {
        match spec_arg_or_one(call.args@, "shots"@, env) {
            Err(e) => Err(e),
            Ok(n) => Ok(MethodActionView::Measure(n)),
        }
    } else if call.call@ == "printCircuit"@ {
        match spec_arg_or_one(call.args@, "spaces"@, env) {
            Err(e) => Err(e),
            Ok(n) => {
                let c = b[call.name@]->Circuit_0.circuit;
                if renderable(c.spec_init(), c.spec_ops()) {
                    Ok(
                        MethodActionView::PrintCircuit(
                            Seq::new(
                                c.spec_init().len(),
                                |i: int| rendered_wire(c.spec_init(), c.spec_ops(), i, n as nat),
                            ),
                        ),
                    )
                } else {
                    Err(RuntimeErrorView::Fatal)
                }
            },
        }
    } else {
        Err(RuntimeErrorView::MethodUndefined(call.call@))
    }
}

impl Evaluator {
    /// Decides what a method call on a circuit asks for: the circuit must be
    /// bound in the current scope, the method must be `distribution`,
    /// `measure` or `printCircuit`, and its `shots` or `spaces` argument
    /// defaults to 1. For `printCircuit` it draws the circuit.
    pub fn eval_method_call(&self, call: &ast::MethodCall) -> (r: Result<MethodAction, RuntimeError>)
        ensures
            action_view(r) == spec_method_call(*call, self.spec_env()),
    {
        let circuit_name: &String = &call.name;
        let c = match self.environment().get(circuit_name) {
            Some(EvaluatorType::Circuit(c)) => c,
            Some(_) => {
                return Err(RuntimeError::TypeMismatch);
            },
            None => {
                return Err(RuntimeError::VarNotFound(circuit_name.clone()));
            },
        };
        if name_is(&call.call, "distribution") {
            let shots: usize = match self.get_arg(&call.args, "shots") {
                Ok(Some(n)) => n,
                Ok(None) => 1,
                Err(e) => {
                    return Err(e);
                },
            };
            Ok(MethodAction::Distribution(shots))
        } else if name_is(&call.call, "measure") {
            let shots: usize = match self.get_arg(&call.args, "shots") {
                Ok(Some(n)) => n,
                Ok(None) => 1,
                Err(e) => {
                    return Err(e);
                },
            };
            Ok(MethodAction::Measure(shots))
        } else if name_is(&call.call, "printCircuit") {
            // 2 spaces means we suffix each gate with two dashes
            let spaces: usize = match self.get_arg(&call.args, "spaces") {
                Ok(Some(n)) => n,
                Ok(None) => 1,
                Err(e) => {
                    return Err(e);
                },
            };
            let wires: Vec<String> = match c.render_wires(spaces) {
                Ok(w) => w,
                Err(e) => {
                    return Err(e);
                },
            };
            proof {
                assert(string_views(wires@) =~= Seq::new(
                    c.circuit.spec_init().len(),
                    |i: int|
                        rendered_wire(
                            c.circuit.spec_init(),
                            c.circuit.spec_ops(),
                            i,
                            spaces as nat,
                        ),
                ));
            }
            Ok(MethodAction::PrintCircuit(wires))
        } else {
            Err(RuntimeError::MethodUndefined(call.call.clone()))
        }
    }
}

// ----- HELPERS -----
impl Evaluator {
    /// The value of the first argument named `arg_name`; every argument up to
    /// it is evaluated as a constant, and the first that is not one is an
    /// error.
    pub fn get_arg(&self, args: &Vec<ast::MethodArg>, arg_name: &str) -> (r: Result<
        Option<usize>,
        RuntimeError,
    >)
        ensures
            result_view(r) == spec_get_arg(args@, arg_name@, self.spec_env()),
    {
        let n: usize = args.len();
        let mut i: usize = 0;
        proof {
            assert(args@.skip(0) =~= args@);
        }
        while i < n
            invariant
                n == args@.len(),
                i <= n,
                spec_get_arg(args@, arg_name@, self.spec_env()) == spec_get_arg(
                    args@.skip(i as int),
                    arg_name@,
                    self.spec_env(),
                ),
            decreases n - i,
        {
            let arg: &ast::MethodArg = &args[i];
            proof {
                let s = args@.skip(i as int);
                assert(s[0] == *arg);
                assert(s.drop_first() =~= args@.skip(i + 1));
            }
            let n_value: usize = match self.expect_const(&arg.value) {
                Ok(v) => v,
                Err(e) => {
                    return Err(e);
                },
            };
            if name_is(&arg.name, arg_name) {
                return Ok(Some(n_value));
            }
            i = i + 1;
        }
        proof {
            assert(args@.skip(n as int) =~= Seq::<ast::MethodArg>::empty());
        }
        return Ok(None);
    }
}

} // verus!
