use qlang::engine::black_box::BlackBox;
use qlang::engine::gate::Gate;
use qlang::engine::operator::Operator;
use qlang::interpreter::evaluator::environment::{Bits, Circuit, Environment, EvaluatorType};
use qlang::interpreter::evaluator::eval_circuit::{
    get_index, instruction_targets, resolve_targets, CircuitLookup,
};
use qlang::interpreter::evaluator::eval_method::MethodAction;
use qlang::interpreter::evaluator::runtime_error::RuntimeError;
use qlang::interpreter::evaluator::{sanitize_oracle, Evaluator};
use qlang::interpreter::parser::ast_types::{
    Applies, BinaryOp, CircuitDecl, CircuitRef, Expr, FunctionDecl, Instruction, MethodArg,
    MethodCall, OracleDecl, Param, RegisterDecl, Type,
};

fn param(name: &str, ty: Type) -> Param {
    Param { name: name.to_string(), ty }
}

fn oracle_decl(name: &str, params: Vec<Param>, loads: &str) -> OracleDecl {
    OracleDecl { name: name.to_string(), params, loads: loads.to_string() }
}

fn reference(name: &str, applies: Applies) -> CircuitRef {
    CircuitRef { name: name.to_string(), applies }
}

fn instruction(name: &str, args: Vec<CircuitRef>) -> Instruction {
    Instruction { name: name.to_string(), args }
}

fn register(name: &str, init: &str, multiplies: Option<Expr>) -> RegisterDecl {
    RegisterDecl { name: name.to_string(), init: init.to_string(), multiplies }
}

fn lookup(entries: &[(&str, usize)]) -> CircuitLookup {
    entries.iter().map(|(n, l)| (n.to_string(), *l)).collect()
}

fn call(name: &str, method: &str, args: Vec<MethodArg>) -> MethodCall {
    MethodCall { name: name.to_string(), call: method.to_string(), args }
}

fn arg(name: &str, value: Expr) -> MethodArg {
    MethodArg { name: name.to_string(), value }
}

/// `function f(x: bits[4]) -> bits[1] { x * secret }`
fn dot_function() -> FunctionDecl {
    FunctionDecl {
        name: "f".to_string(),
        params: vec![param("x", Type::Bits(4))],
        body: Expr::Binary(
            Box::new(Expr::Ident("x".to_string())),
            BinaryOp::Dot,
            Box::new(Expr::Ident("secret".to_string())),
        ),
    }
}

/// The Bernstein-Vazirani circuit of the README, with `CSIZE = 4`.
fn bernstein_vazirani() -> CircuitDecl {
    CircuitDecl {
        name: "bernstein_vazirani".to_string(),
        registers: vec![
            register("x", "0", Some(Expr::IntLiteral(4))),
            register("y", "-", None),
        ],
        instructions: vec![
            instruction("H", vec![reference("x", Applies::All)]),
            instruction("U_f", vec![reference("x", Applies::All), reference("y", Applies::All)]),
            instruction("H", vec![reference("x", Applies::All)]),
            instruction("measure", vec![reference("x", Applies::All)]),
        ],
    }
}

fn evaluator_with_oracle() -> Evaluator {
    let mut ev = Evaluator::new();
    ev.eval_function_decl(&dot_function()).unwrap();
    let decl = oracle_decl(
        "U_f",
        vec![param("x", Type::Qubits(4)), param("y", Type::Qubits(1))],
        "f",
    );
    ev.eval_oracle_decl(&decl).unwrap();
    ev
}

fn circuit_of<'a>(ev: &'a Evaluator, name: &str) -> &'a qlang::engine::circuit::Circuit {
    match ev.environment().get(&name.to_string()) {
        Some(EvaluatorType::Circuit(c)) => &c.circuit,
        _ => panic!("no circuit named {}", name),
    }
}

// ----- get_index -----

#[test]
fn get_index_finds_qubit_in_second_register() {
    let table = lookup(&[("x", 2), ("y", 3)]);
    assert_eq!(get_index(&table, &"y".to_string(), 1), Ok(3));
    assert_eq!(get_index(&table, &"x".to_string(), 0), Ok(0));
    assert_eq!(get_index(&table, &"y".to_string(), 2), Ok(4));
}

#[test]
fn get_index_rejects_out_of_bounds_and_unknown() {
    let table = lookup(&[("x", 2), ("y", 3)]);
    assert_eq!(
        get_index(&table, &"x".to_string(), 2),
        Err(RuntimeError::OutOfBounds("x".to_string(), 2))
    );
    assert_eq!(
        get_index(&table, &"z".to_string(), 0),
        Err(RuntimeError::VarNotFound("z".to_string()))
    );
}

#[test]
fn get_index_uses_first_register_of_a_name() {
    let table = lookup(&[("x", 1), ("x", 4)]);
    assert_eq!(get_index(&table, &"x".to_string(), 0), Ok(0));
    assert_eq!(
        get_index(&table, &"x".to_string(), 1),
        Err(RuntimeError::OutOfBounds("x".to_string(), 1))
    );
}

// ----- resolve_targets -----

#[test]
fn resolve_targets_single_qubit() {
    let table = lookup(&[("x", 3)]);
    assert_eq!(resolve_targets(&reference("x", Applies::One(1)), &table), Ok(vec![1]));
}

#[test]
fn resolve_targets_whole_register() {
    let table = lookup(&[("x", 2), ("y", 3)]);
    assert_eq!(resolve_targets(&reference("y", Applies::All), &table), Ok(vec![2, 3, 4]));
    for k in 0..3 {
        let one = resolve_targets(&reference("y", Applies::One(k)), &table).unwrap();
        assert_eq!(one, vec![2 + k]);
    }
}

#[test]
fn resolve_targets_errors() {
    let table = lookup(&[("x", 2), ("e", 0)]);
    assert_eq!(
        resolve_targets(&reference("w", Applies::All), &table),
        Err(RuntimeError::VarNotFound("w".to_string()))
    );
    assert_eq!(
        resolve_targets(&reference("x", Applies::One(5)), &table),
        Err(RuntimeError::OutOfBounds("x".to_string(), 5))
    );
    // a register with no qubits cannot be targeted as a whole
    assert_eq!(
        resolve_targets(&reference("e", Applies::All), &table),
        Err(RuntimeError::OutOfBounds("e".to_string(), 0))
    );
}

#[test]
fn instruction_targets_concatenate_in_order() {
    let table = lookup(&[("x", 2), ("y", 1)]);
    let args = vec![reference("y", Applies::All), reference("x", Applies::One(1)), reference("x", Applies::All)];
    assert_eq!(instruction_targets(&args, &table), Ok(vec![2, 1, 0, 1]));
    let bad = vec![reference("x", Applies::All), reference("q", Applies::All)];
    assert_eq!(instruction_targets(&bad, &table), Err(RuntimeError::VarNotFound("q".to_string())));
}

// ----- sanitize_oracle -----

#[test]
fn sanitize_oracle_accepts_two_qubit_params() {
    let decl = oracle_decl("U", vec![param("x", Type::Qubits(3)), param("y", Type::Qubits(1))], "f");
    assert_eq!(sanitize_oracle(&decl), Ok((3, 1)));
    let decl = oracle_decl("U", vec![param("x", Type::Qubits(2)), param("y", Type::Qubits(2))], "f");
    assert_eq!(sanitize_oracle(&decl), Ok((2, 2)));
}

#[test]
fn sanitize_oracle_rejects_empty_registers() {
    let decl = oracle_decl("U", vec![param("x", Type::Qubits(0)), param("y", Type::Qubits(0))], "f");
    assert_eq!(sanitize_oracle(&decl), Err(RuntimeError::OracleConstructionFailed));
    let decl = oracle_decl("U", vec![param("x", Type::Qubits(3)), param("y", Type::Qubits(0))], "f");
    assert_eq!(sanitize_oracle(&decl), Err(RuntimeError::OracleConstructionFailed));
}

#[test]
fn sanitize_oracle_errors() {
    let decl = oracle_decl("U", vec![param("x", Type::Qubits(3))], "f");
    assert_eq!(sanitize_oracle(&decl), Err(RuntimeError::IncorrectArgs(2, 1)));
    let decl = oracle_decl(
        "U",
        vec![param("x", Type::Qubits(3)), param("y", Type::Qubits(1)), param("z", Type::Qubits(1))],
        "f",
    );
    assert_eq!(sanitize_oracle(&decl), Err(RuntimeError::IncorrectArgs(2, 3)));
    let decl = oracle_decl("U", vec![param("x", Type::Bits(3)), param("y", Type::Qubits(1))], "f");
    assert_eq!(sanitize_oracle(&decl), Err(RuntimeError::TypeMismatch));
    let decl = oracle_decl("U", vec![param("x", Type::Qubits(3)), param("y", Type::Bits(1))], "f");
    assert_eq!(sanitize_oracle(&decl), Err(RuntimeError::TypeMismatch));
    let decl = oracle_decl("U", vec![param("x", Type::Qubits(1)), param("y", Type::Qubits(2))], "f");
    assert_eq!(sanitize_oracle(&decl), Err(RuntimeError::OracleConstructionFailed));
}

// ----- environment -----

#[test]
fn environment_insert_then_get_and_resolve() {
    let mut env = Environment::new(None);
    env.insert("a".to_string(), EvaluatorType::Const(3));
    env.insert("b".to_string(), EvaluatorType::Bits(Bits { literal: 6, length: 3 }));
    env.insert("a".to_string(), EvaluatorType::Const(5));
    assert!(matches!(env.get(&"a".to_string()), Some(EvaluatorType::Const(5))));
    assert!(matches!(env.resolve(&"b".to_string()), Some(EvaluatorType::Bits(Bits { literal: 6, length: 3 }))));
    assert!(env.get(&"c".to_string()).is_none());
    assert!(env.resolve(&"c".to_string()).is_none());
}

#[test]
fn environment_inner_scope_shadows_parent() {
    let mut outer = Environment::new(None);
    outer.insert("n".to_string(), EvaluatorType::Const(1));
    outer.insert("m".to_string(), EvaluatorType::Const(2));
    let mut inner = Environment::new(Some(Box::new(outer)));
    inner.insert("n".to_string(), EvaluatorType::Const(10));
    assert!(matches!(inner.resolve(&"n".to_string()), Some(EvaluatorType::Const(10))));
    assert!(matches!(inner.resolve(&"m".to_string()), Some(EvaluatorType::Const(2))));
    // `get` only looks at the scope itself
    assert!(inner.get(&"m".to_string()).is_none());
}

// ----- declarations -----

#[test]
fn function_declaration_binds_params_and_body() {
    let mut ev = Evaluator::new();
    ev.eval_function_decl(&dot_function()).unwrap();
    match ev.environment().get(&"f".to_string()) {
        Some(EvaluatorType::Function(f)) => {
            assert_eq!(f.input, vec!["x".to_string()]);
            assert!(matches!(&f.func, Expr::Binary(_, BinaryOp::Dot, _)));
        },
        _ => panic!("f should be a function"),
    }
}

#[test]
fn oracle_declaration_loads_its_function() {
    let ev = evaluator_with_oracle();
    match ev.environment().get(&"U_f".to_string()) {
        Some(EvaluatorType::Oracle(o)) => {
            assert_eq!(o.input, (4, 1));
            assert_eq!(o.loads.input, vec!["x".to_string()]);
        },
        _ => panic!("U_f should be an oracle"),
    }
}

#[test]
fn oracle_declaration_errors() {
    let mut ev = Evaluator::new();
    let decl = oracle_decl("U", vec![param("x", Type::Qubits(1)), param("y", Type::Qubits(1))], "f");
    assert_eq!(ev.eval_oracle_decl(&decl), Err(RuntimeError::VarNotFound("f".to_string())));
    assert!(ev.environment().get(&"U".to_string()).is_none());

    ev.eval_function_decl(&dot_function()).unwrap();
    ev.eval_oracle_decl(&decl).unwrap();
    // an oracle is not a function to load
    let again = oracle_decl("V", vec![param("x", Type::Qubits(1)), param("y", Type::Qubits(1))], "U");
    assert_eq!(ev.eval_oracle_decl(&again), Err(RuntimeError::TypeMismatch));

    let narrow = oracle_decl("W", vec![param("x", Type::Qubits(1)), param("y", Type::Qubits(2))], "f");
    assert_eq!(ev.eval_oracle_decl(&narrow), Err(RuntimeError::OracleConstructionFailed));
    assert!(ev.environment().get(&"W".to_string()).is_none());
}

#[test]
fn expect_const_reads_literals() {
    let ev = Evaluator::new();
    assert_eq!(ev.expect_const(&Expr::IntLiteral(7)), Ok(7));
    assert_eq!(ev.expect_const(&Expr::BitsLiteral(1, 1)), Err(RuntimeError::TypeMismatch));
    let sum = Expr::Binary(Box::new(Expr::IntLiteral(1)), BinaryOp::And, Box::new(Expr::Ident("q".to_string())));
    assert_eq!(ev.expect_const(&sum), Err(RuntimeError::VarNotFound("q".to_string())));
    assert_eq!(
        ev.expect_const(&Expr::Ident("CSIZE".to_string())),
        Err(RuntimeError::VarNotFound("CSIZE".to_string()))
    );
    let ev = evaluator_with_oracle();
    assert_eq!(ev.expect_const(&Expr::Ident("f".to_string())), Err(RuntimeError::TypeMismatch));
}

// ----- circuits -----

#[test]
fn construct_lookup_lays_registers_out_in_order() {
    let ev = Evaluator::new();
    let decl = CircuitDecl {
        name: "c".to_string(),
        registers: vec![
            register("x", "00", None),
            register("y", "+", Some(Expr::IntLiteral(3))),
            register("z", "1", Some(Expr::IntLiteral(0))),
        ],
        instructions: Vec::new(),
    };
    let (register_str, table) = ev.construct_lookup(&decl).unwrap();
    assert_eq!(register_str, "00+++");
    assert_eq!(table, lookup(&[("x", 2), ("y", 3), ("z", 0)]));

    let bad = CircuitDecl {
        name: "c".to_string(),
        registers: vec![register("x", "0", Some(Expr::Ident("N".to_string())))],
        instructions: Vec::new(),
    };
    assert_eq!(ev.construct_lookup(&bad), Err(RuntimeError::VarNotFound("N".to_string())));
}

#[test]
fn circuit_declaration_builds_operators() {
    let mut ev = evaluator_with_oracle();
    ev.eval_circuit_decl(&bernstein_vazirani()).unwrap();
    let c = circuit_of(&ev, "bernstein_vazirani");
    assert_eq!(c.init(), "0000-");
    let ops = c.ops();
    // H on each of the 4 qubits of x, U_f, H again, then one measurement
    assert_eq!(ops.len(), 10);
    for k in 0..4 {
        assert_eq!(*ops[k].gate(), Gate::Hadamard);
        assert_eq!(*ops[k].applies(), vec![k]);
        assert_eq!(*ops[5 + k].applies(), vec![k]);
    }
    assert_eq!(*ops[4].gate(), Gate::BlackBox(BlackBox::new(4, 1)));
    assert_eq!(*ops[4].applies(), vec![0, 1, 2, 3, 4]);
    let f = ops[4].function().as_ref().unwrap();
    assert_eq!(f.params, vec!["x".to_string()]);
    assert_eq!(f.param_bit_lengths, vec![4]);
    assert!(matches!(&f.body, Expr::Binary(_, BinaryOp::Dot, _)));
    assert_eq!(*ops[9].gate(), Gate::Measure(4));
    assert_eq!(*ops[9].applies(), vec![0, 1, 2, 3]);
}

#[test]
fn circuit_declaration_prints_as_in_the_readme() {
    let mut ev = evaluator_with_oracle();
    ev.eval_circuit_decl(&bernstein_vazirani()).unwrap();
    let action = ev
        .eval_method_call(&call("bernstein_vazirani", "printCircuit", vec![arg("spaces", Expr::IntLiteral(1))]))
        .unwrap();
    let expected = vec![
            "|0> H-----------Bx-H-----------M--".to_string(),
            "|0> ---H--------Bx----H--------M--".to_string(),
            "|0> ------H-----Bx-------H-----M--".to_string(),
            "|0> ---------H--Bx----------H--M--".to_string(),
            "|-> ------------By----------------".to_string(),
        ];
    assert_eq!(action, MethodAction::PrintCircuit(expected.clone()));
    let wires = circuit_of(&ev, "bernstein_vazirani").render_wires(1).unwrap();
    assert_eq!(wires, expected);
}

#[test]
fn circuit_declaration_multi_qubit_gates() {
    let mut ev = Evaluator::new();
    let decl = CircuitDecl {
        name: "bell".to_string(),
        registers: vec![register("q", "0", Some(Expr::IntLiteral(2)))],
        instructions: vec![
            instruction("H", vec![reference("q", Applies::One(0))]),
            instruction("CNOT", vec![reference("q", Applies::One(0)), reference("q", Applies::One(1))]),
            instruction("measure", vec![reference("q", Applies::One(1))]),
        ],
    };
    ev.eval_circuit_decl(&decl).unwrap();
    let c = circuit_of(&ev, "bell");
    assert_eq!(c.ops().len(), 3);
    assert_eq!(*c.ops()[1].gate(), Gate::CNot);
    assert_eq!(*c.ops()[1].applies(), vec![0, 1]);
    assert_eq!(*c.ops()[2].gate(), Gate::Measure(1));
    assert_eq!(*c.ops()[2].applies(), vec![1]);
}

#[test]
fn circuit_declaration_errors() {
    let mut ev = Evaluator::new();
    let unknown_gate = CircuitDecl {
        name: "c".to_string(),
        registers: vec![register("q", "00", None)],
        instructions: vec![instruction("ROT", vec![reference("q", Applies::All)])],
    };
    assert_eq!(ev.eval_circuit_decl(&unknown_gate), Err(RuntimeError::VarNotFound("ROT".to_string())));

    let wrong_arity = CircuitDecl {
        name: "c".to_string(),
        registers: vec![register("q", "000", None)],
        instructions: vec![instruction("CNOT", vec![reference("q", Applies::All)])],
    };
    assert_eq!(ev.eval_circuit_decl(&wrong_arity), Err(RuntimeError::OracleConstructionFailed));

    let out_of_bounds = CircuitDecl {
        name: "c".to_string(),
        registers: vec![register("q", "0", None)],
        instructions: vec![instruction("X", vec![reference("q", Applies::One(1))])],
    };
    assert_eq!(
        ev.eval_circuit_decl(&out_of_bounds),
        Err(RuntimeError::OutOfBounds("q".to_string(), 1))
    );
    assert!(ev.environment().get(&"c".to_string()).is_none());
}

// ----- method calls -----

#[test]
fn method_calls_on_a_circuit() {
    let mut ev = evaluator_with_oracle();
    ev.eval_circuit_decl(&bernstein_vazirani()).unwrap();
    let name = "bernstein_vazirani";
    assert_eq!(
        ev.eval_method_call(&call(name, "measure", vec![arg("shots", Expr::IntLiteral(3))])),
        Ok(MethodAction::Measure(3))
    );
    assert_eq!(ev.eval_method_call(&call(name, "distribution", Vec::new())), Ok(MethodAction::Distribution(1)));
    let drawn = circuit_of(&ev, name).render_wires(1).unwrap();
    assert_eq!(ev.eval_method_call(&call(name, "printCircuit", Vec::new())), Ok(MethodAction::PrintCircuit(drawn)));
    assert_eq!(
        ev.eval_method_call(&call(name, "measure", vec![arg("spaces", Expr::IntLiteral(2))])),
        Ok(MethodAction::Measure(1))
    );
}

#[test]
fn method_call_errors() {
    let mut ev = evaluator_with_oracle();
    ev.eval_circuit_decl(&bernstein_vazirani()).unwrap();
    let name = "bernstein_vazirani";
    assert_eq!(
        ev.eval_method_call(&call(name, "run", Vec::new())),
        Err(RuntimeError::MethodUndefined("run".to_string()))
    );
    assert_eq!(
        ev.eval_method_call(&call("nope", "measure", Vec::new())),
        Err(RuntimeError::VarNotFound("nope".to_string()))
    );
    assert_eq!(ev.eval_method_call(&call("f", "measure", Vec::new())), Err(RuntimeError::TypeMismatch));
    // every argument before the one asked for must be a constant
    assert_eq!(
        ev.eval_method_call(&call(
            name,
            "measure",
            vec![arg("other", Expr::BitsLiteral(1, 1)), arg("shots", Expr::IntLiteral(2))]
        )),
        Err(RuntimeError::TypeMismatch)
    );
}

#[test]
fn get_arg_takes_the_first_match() {
    let ev = Evaluator::new();
    let args = vec![arg("shots", Expr::IntLiteral(2)), arg("shots", Expr::IntLiteral(9))];
    assert_eq!(ev.get_arg(&args, "shots"), Ok(Some(2)));
    assert_eq!(ev.get_arg(&args, "spaces"), Ok(None));
    assert_eq!(ev.get_arg(&Vec::new(), "shots"), Ok(None));
}

#[test]
fn resolve_gate_by_name() {
    let ev = Evaluator::new();
    assert_eq!(ev.resolve_gate(&"CZ".to_string(), 2), Ok(Gate::CZ));
    assert_eq!(ev.resolve_gate(&"measure".to_string(), 3), Ok(Gate::Measure(3)));
    assert_eq!(ev.resolve_gate(&"cz".to_string(), 2), Err(RuntimeError::VarNotFound("cz".to_string())));
}

#[test]
fn construct_lookup_counts_bytes_of_patterns() {
    let ev = Evaluator::new();
    let decl = CircuitDecl {
        name: "c".to_string(),
        registers: vec![register("x", "\u{e9}", Some(Expr::IntLiteral(2))), register("y", "0", None)],
        instructions: Vec::new(),
    };
    let (register_str, table) = ev.construct_lookup(&decl).unwrap();
    assert_eq!(register_str, "\u{e9}\u{e9}0");
    assert_eq!(table, lookup(&[("x", 4), ("y", 1)]));
}

#[test]
fn declared_circuit_targets_stay_in_its_register() {
    let mut ev = evaluator_with_oracle();
    ev.eval_circuit_decl(&bernstein_vazirani()).unwrap();
    let c = circuit_of(&ev, "bernstein_vazirani");
    let size = c.init().len();
    for op in c.ops().iter() {
        if let Gate::BlackBox(_) = op.gate() {
            continue;
        }
        for q in op.applies().iter() {
            assert!(*q < size);
        }
    }
}

#[test]
fn interpreter_circuit_render_failure_is_fatal() {
    let ops = vec![Operator::new(Gate::Hadamard, vec![3]).unwrap()];
    let c = Circuit::new("01".to_string(), ops);
    assert_eq!(c.render_wires(1), Err(RuntimeError::Fatal));
    let ok = Circuit::new("1".to_string(), vec![Operator::new(Gate::ShiftS, vec![0]).unwrap()]);
    assert_eq!(ok.render_wires(1), Ok(vec!["|1> S--".to_string()]));
}

#[test]
fn construct_lookup_example_of_two_registers() {
    let ev = Evaluator::new();
    let decl = CircuitDecl {
        name: "c".to_string(),
        registers: vec![register("x", "00", None), register("y", "++", None)],
        instructions: Vec::new(),
    };
    let (register_str, table) = ev.construct_lookup(&decl).unwrap();
    assert_eq!(register_str, "00++");
    assert_eq!(get_index(&table, &"x".to_string(), 0), Ok(0));
    assert_eq!(get_index(&table, &"y".to_string(), 0), Ok(2));
}
