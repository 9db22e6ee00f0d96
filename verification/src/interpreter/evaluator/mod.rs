pub mod environment;
pub mod eval_circuit;
pub mod eval_expr;
pub mod eval_method;
pub mod lambda;
pub mod print_circuit;
pub mod runtime_error;

use vstd::prelude::*;

use crate::interpreter::evaluator::environment::{Bits, Environment, EvaluatorType, Function, Oracle};
use crate::interpreter::evaluator::eval_method::spec_method_call;
use crate::interpreter::evaluator::eval_circuit::circuit_declared;
use crate::interpreter::evaluator::eval_expr::{ExprValue, spec_eval_expr};
use crate::interpreter::evaluator::eval_method::MethodAction;
use crate::interpreter::evaluator::runtime_error::{RuntimeError, RuntimeErrorView, result_view};
use crate::interpreter::parser::ast_types as ast;

verus! {

/// Evaluates declarations into the environment of a program.
pub struct Evaluator {
    environment: Environment,
}

// ----- SPECIFICATIONS -----

/// The parameter names of a declaration, in order.
pub open spec fn param_names(params: Seq<ast::Param>) -> Seq<String> {
    params.map_values(|p: ast::Param| p.name)
}

/// `new` is `old` with `name` bound (to some value) and every other binding
/// kept.
pub open spec fn rebinds(
    new: Map<Seq<char>, EvaluatorType>,
    old: Map<Seq<char>, EvaluatorType>,
    name: Seq<char>,
) -> bool {
    &&& new.contains_key(name)
    &&& new.remove(name) == old.remove(name)
}

/// `v` is the function value of the declaration `decl`.
pub open spec fn is_function_of(v: EvaluatorType, decl: ast::FunctionDecl) -> bool {
    &&& v is Function
    &&& v->Function_0.input@ == param_names(decl.params@)
    &&& v->Function_0.func == decl.body
}

/// The sizes of an oracle declared with `params`: exactly two `qubits`
/// parameters, the second at least one qubit wide and the first at least as
/// wide as the second.
pub open spec fn spec_sanitize_oracle(params: Seq<ast::Param>) -> Result<
    (usize, usize),
    RuntimeErrorView,
> {
    if params.len() != 2 {
        Err(RuntimeErrorView::IncorrectArgs(2, params.len() as usize))
    } else {
        match (params[0].ty, params[1].ty) {
            (ast::Type::Qubits(in_size), ast::Type::Qubits(out_size)) => {
                if in_size >= out_size && out_size > 0 {
                    Ok((in_size, out_size))
                } else {
                    Err(RuntimeErrorView::OracleConstructionFailed)
                }
            },
            _ => Err(RuntimeErrorView::TypeMismatch),
        }
    }
}

/// An oracle with two `qubits` parameters of widths `i` and `o` is accepted,
/// with sizes `(i, o)`, exactly when `i >= o >= 1`; any other number of
/// parameters, or a parameter of another type, is refused.
pub proof fn lemma_oracle_sizes(params: Seq<ast::Param>)
    ensures
        params.len() != 2 ==> spec_sanitize_oracle(params) == Err::<(usize, usize), RuntimeErrorView>(
            RuntimeErrorView::IncorrectArgs(2, params.len() as usize),
        ),
        params.len() == 2 && !(params[0].ty is Qubits && params[1].ty is Qubits) ==> spec_sanitize_oracle(params)
            == Err::<(usize, usize), RuntimeErrorView>(RuntimeErrorView::TypeMismatch),
        forall|i: usize, o: usize|
            params.len() == 2 && params[0].ty == ast::Type::Qubits(i) && params[1].ty == ast::Type::Qubits(o)
                ==> (#[trigger] spec_sanitize_oracle(params) == Ok::<(usize, usize), RuntimeErrorView>((i, o))
                <==> i >= o && o >= 1),
        spec_sanitize_oracle(params) matches Ok((i, o)) ==> {
            &&& params.len() == 2
            &&& params[0].ty == ast::Type::Qubits(i)
            &&& params[1].ty == ast::Type::Qubits(o)
            &&& i >= o >= 1
        },
        params.len() == 2 && params[0].ty is Qubits && params[1].ty is Qubits ==> (
        spec_sanitize_oracle(params) is Ok || spec_sanitize_oracle(params) == Err::<(usize, usize), RuntimeErrorView>(
            RuntimeErrorView::OracleConstructionFailed,
        )),
{
}

/// The outcome of declaring an oracle that loads `decl.loads`: the loaded
/// name must be bound to a function in the current scope, and the
/// parameters must pass `spec_sanitize_oracle`.
pub open spec fn spec_oracle_sizes(
    decl: ast::OracleDecl,
    bindings: Map<Seq<char>, EvaluatorType>,
) -> Result<(usize, usize), RuntimeErrorView> {
    if !bindings.contains_key(decl.loads@) {
        Err(RuntimeErrorView::VarNotFound(decl.loads@))
    } else if !(bindings[decl.loads@] is Function) {
        Err(RuntimeErrorView::TypeMismatch)
    } else {
        spec_sanitize_oracle(decl.params@)
    }
}

/// The error of a result, if any.
pub open spec fn outcome<T>(r: Result<T, RuntimeError>) -> Option<RuntimeError> {
    match r {
        Ok(_) => None,
        Err(e) => Some(e),
    }
}

/// `new` is `old` after declaring the function `decl`: it always succeeds and
/// binds the name to the function's parameter names and body.
pub open spec fn function_declared(
    old: Environment,
    new: Environment,
    decl: ast::FunctionDecl,
    out: Option<RuntimeError>,
) -> bool {
    &&& out is None
    &&& rebinds(new.spec_bindings(), old.spec_bindings(), decl.name@)
    &&& is_function_of(new.spec_bindings()[decl.name@], decl)
    &&& new.spec_parent() == old.spec_parent()
}

/// `new` is `old` after declaring the oracle `decl`: on success the name is
/// bound to an oracle with the checked sizes, loading the function bound to
/// `decl.loads`; on failure nothing changes.
pub open spec fn oracle_declared(
    old: Environment,
    new: Environment,
    decl: ast::OracleDecl,
    out: Option<RuntimeError>,
) -> bool {
    match spec_oracle_sizes(decl, old.spec_bindings()) {
        Err(e) => out matches Some(e2) && e2@ == e && new == old,
        Ok(sizes) => {
            let o = new.spec_bindings()[decl.name@];
            let f = old.spec_bindings()[decl.loads@]->Function_0;
            &&& out is None
            &&& rebinds(new.spec_bindings(), old.spec_bindings(), decl.name@)
            &&& o is Oracle
            &&& o->Oracle_0.input == sizes
            &&& o->Oracle_0.loads.input@ == f.input@
            &&& o->Oracle_0.loads.func == f.func
            &&& new.spec_parent() == old.spec_parent()
        },
    }
}

/// `new` is `old` after the assignment `a`: its value must be a bitstring,
/// which the name is then bound to; otherwise nothing changes.
pub open spec fn bits_assigned(
    old: Environment,
    new: Environment,
    a: ast::Assignment,
    out: Option<RuntimeError>,
) -> bool {
    match spec_eval_expr(a.value, old) {
        Ok(ExprValue::Bits(b)) => {
            &&& out is None
            &&& new.spec_bindings() == old.spec_bindings().insert(a.name@, EvaluatorType::Bits(b))
            &&& new.spec_parent() == old.spec_parent()
        },
        Ok(_) => out == Some(RuntimeError::TypeMismatch) && new == old,
        Err(e) => out matches Some(e2) && e2@ == e && new == old,
    }
}

/// EVALUATION ROUTINES
impl Evaluator {
    /// The environment of the program.
    pub closed spec fn spec_env(self) -> Environment {
        self.environment
    }

    /// Binds a function declaration: its parameter names and its body.
    pub fn eval_function_decl(&mut self, decl: &ast::FunctionDecl) -> (r: Result<(), RuntimeError>)
        ensures
            function_declared(old(self).spec_env(), final(self).spec_env(), *decl, outcome(r)),
    {
        let func_name: String = decl.name.clone();
        let mut symbol_table: Vec<String> = Vec::new();
        let mut i: usize = 0;
        while i < decl.params.len()
            invariant
                i <= decl.params@.len(),
                symbol_table@ == param_names(decl.params@).take(i as int),
            decreases decl.params@.len() - i,
        {
            symbol_table.push(decl.params[i].name.clone());
            proof {
                assert(param_names(decl.params@).take(i + 1) =~= param_names(decl.params@).take(
                    i as int,
                ).push(decl.params@[i as int].name));
            }
            i = i + 1;
        }
        proof {
            assert(param_names(decl.params@).take(decl.params@.len() as int) =~= param_names(
                decl.params@,
            ));
        }
        let func_literal: Function = Function { input: symbol_table, func: decl.body.clone() };
        let typed: EvaluatorType = EvaluatorType::Function(func_literal);
        let ghost before = self.environment.spec_bindings();
        self.environment.insert(func_name, typed);
        proof {
            assert(self.environment.spec_bindings().remove(decl.name@) =~= before.remove(
                decl.name@,
            ));
        }
        return Ok(());
    }

    /// Binds an oracle declaration: the function it loads, taken from the
    /// current scope, and the sizes of its two qubit registers.
    pub fn eval_oracle_decl(&mut self, decl: &ast::OracleDecl) -> (r: Result<(), RuntimeError>)
        ensures
            oracle_declared(old(self).spec_env(), final(self).spec_env(), *decl, outcome(r)),
    {
        let oracle_name: String = decl.name.clone();

        // ensure that `decl.loads` exists in the environment
        let f: Function = match self.environment.get(&decl.loads) {
            None => {
                return Err(RuntimeError::VarNotFound(decl.loads.clone()));
            },
            Some(EvaluatorType::Function(f)) => f.clone(),
            Some(_) => {
                return Err(RuntimeError::TypeMismatch);
            },
        };

        let (in_size, out_size) = match sanitize_oracle(decl) {
            Ok(sizes) => sizes,
            Err(e) => {
                return Err(e);
            },
        };

        // oracle is safe to construct
        let oracle: Oracle = Oracle { input: (in_size, out_size), loads: f };
        let ghost before = self.environment.spec_bindings();
        self.environment.insert(oracle_name, EvaluatorType::Oracle(oracle));
        proof {
            assert(self.environment.spec_bindings().remove(decl.name@) =~= before.remove(
                decl.name@,
            ));
        }
        return Ok(());
    }
}

impl Evaluator {
    /// Consumes a `bits` assignment, and binds the variable to the
    /// bitstring its value denotes.
    pub fn eval_assignment(&mut self, bits: &ast::Assignment) -> (r: Result<(), RuntimeError>)
        ensures
            bits_assigned(old(self).spec_env(), final(self).spec_env(), *bits, outcome(r)),
    {
        let var_name: String = bits.name.clone();
        let literal: Bits = match self.eval_expr(&bits.value) {
            Ok(ExprValue::Bits(b)) => b,
            Ok(_) => {
                return Err(RuntimeError::TypeMismatch);
            },
            Err(e) => {
                return Err(e);
            },
        };
        self.environment.insert(var_name, EvaluatorType::Bits(literal));
        return Ok(());
    }

    /// Evaluates one statement of a program. A bare expression is skipped;
    /// declarations and assignments change the environment; a method call
    /// leaves it as it is and hands back the action it asks for.
    pub fn eval_statement(&mut self, stmt: ast::Statement) -> (r: Result<
        Option<MethodAction>,
        RuntimeError,
    >)
        ensures
            match stmt {
                ast::Statement::Expr(_) => r matches Ok(None) && final(self).spec_env() == old(
                    self,
                ).spec_env(),
                ast::Statement::Assignment(a) => bits_assigned(
                    old(self).spec_env(),
                    final(self).spec_env(),
                    a,
                    outcome(r),
                ),
                ast::Statement::Function(d) => function_declared(
                    old(self).spec_env(),
                    final(self).spec_env(),
                    d,
                    outcome(r),
                ),
                ast::Statement::Oracle(d) => oracle_declared(
                    old(self).spec_env(),
                    final(self).spec_env(),
                    d,
                    outcome(r),
                ),
                ast::Statement::Circuit(d) => circuit_declared(
                    old(self).spec_env(),
                    final(self).spec_env(),
                    d,
                    outcome(r),
                ),
                ast::Statement::MethodCall(c) => {
                    &&& final(self).spec_env() == old(self).spec_env()
                    &&& match spec_method_call(c, old(self).spec_env()) {
                        Ok(a) => r matches Ok(Some(x)) && x@ == a,
                        Err(e) => r matches Err(e2) && e2@ == e,
                    }
                },
            },
            !(stmt is MethodCall) ==> (r is Ok ==> r matches Ok(None)),
    {
        match stmt {
            ast::Statement::Expr(_) => Ok(None),
            ast::Statement::Assignment(bits) => match self.eval_assignment(&bits) {
                Ok(()) => Ok(None),
                Err(e) => Err(e),
            },
            ast::Statement::Function(decl) => match self.eval_function_decl(&decl) {
                Ok(()) => Ok(None),
                Err(e) => Err(e),
            },
            ast::Statement::Oracle(decl) => match self.eval_oracle_decl(&decl) {
                Ok(()) => Ok(None),
                Err(e) => Err(e),
            },
            ast::Statement::Circuit(decl) => match self.eval_circuit_decl(&decl) {
                Ok(()) => Ok(None),
                Err(e) => Err(e),
            },
            ast::Statement::MethodCall(call) => match self.eval_method_call(&call) {
                Ok(action) => Ok(Some(action)),
                Err(e) => Err(e),
            },
        }
    }
}

/// PUBLIC API METHODS
impl Evaluator {
    /// An evaluator with an empty top-level environment.
    pub fn new() -> (e: Self)
        ensures
            e.spec_env().spec_bindings() == Map::<Seq<char>, EvaluatorType>::empty(),
            e.spec_env().spec_parent() is None,
    {
        let environment: Environment = Environment::new(None);
        Self { environment }
    }

    /// The environment of the program.
    pub fn environment(&self) -> (e: &Environment)
        ensures
            *e == self.spec_env(),
    {
        &self.environment
    }
}

// ----- HELPERS -----
/// Given an oracle declaration, ensure that it is correctly typed.
///
/// This includes ensuring that it contains exactly two params (both
/// of which must be typed as `qubits`), that neither is empty, and that
/// the first param is greater-than or equal to the second.
pub fn sanitize_oracle(decl: &ast::OracleDecl) -> (r: Result<(usize, usize), RuntimeError>)
    ensures
        result_view(r) == spec_sanitize_oracle(decl.params@),
{
    let length: usize = decl.params.len();
    if length != 2 {
        return Err(RuntimeError::IncorrectArgs(2, length));
    }
    let in_size: usize = match decl.params[0].ty {
        ast::Type::Qubits(n) => n,
        _ => {
            return Err(RuntimeError::TypeMismatch);
        },
    };
    let out_size: usize = match decl.params[1].ty {
        ast::Type::Qubits(n) => n,
        _ => {
            return Err(RuntimeError::TypeMismatch);
        },
    };
    if in_size >= out_size && out_size > 0 {
        Ok((in_size, out_size))
    } else {
        Err(RuntimeError::OracleConstructionFailed)
    }
}

} // verus!
