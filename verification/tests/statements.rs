use qlang::engine::gate::Gate;
use qlang::interpreter::evaluator::environment::{Bits, EvaluatorType};
use qlang::interpreter::evaluator::eval_expr::{apply_op, parity_of, ExprValue};
use qlang::interpreter::evaluator::eval_method::MethodAction;
use qlang::interpreter::evaluator::runtime_error::RuntimeError;
use qlang::interpreter::evaluator::Evaluator;
use qlang::interpreter::parser::ast_types::{
    Applies, Assignment, BinaryOp, CircuitDecl, CircuitRef, Expr, FunctionDecl, Instruction,
    MethodCall, OracleDecl, Param, RegisterDecl, Statement, Type,
};

fn bits(literal: usize, length: usize) -> Bits {
    Bits { literal, length }
}

fn lit(literal: usize, length: usize) -> Expr {
    Expr::BitsLiteral(literal, length)
}

fn ident(name: &str) -> Expr {
    Expr::Ident(name.to_string())
}

fn bin(a: Expr, op: BinaryOp, b: Expr) -> Expr {
    Expr::Binary(Box::new(a), op, Box::new(b))
}

fn assign(name: &str, value: Expr) -> Statement {
    Statement::Assignment(Assignment { name: name.to_string(), value })
}

fn bound_bits(ev: &Evaluator, name: &str) -> Option<Bits> {
    match ev.environment().get(&name.to_string()) {
        Some(EvaluatorType::Bits(b)) => Some(*b),
        _ => None,
    }
}

#[test]
fn parity_counts_ones_modulo_two() {
    assert_eq!(parity_of(0), 0);
    assert_eq!(parity_of(0b1), 1);
    assert_eq!(parity_of(0b0110), 0);
    assert_eq!(parity_of(0b0111), 1);
    assert_eq!(parity_of(usize::MAX), 0);
}

#[test]
fn bitwise_operations_on_equal_widths() {
    assert_eq!(apply_op(BinaryOp::And, bits(0b1100, 4), bits(0b1010, 4)), Ok(ExprValue::Bits(bits(0b1000, 4))));
    assert_eq!(apply_op(BinaryOp::Or, bits(0b1100, 4), bits(0b1010, 4)), Ok(ExprValue::Bits(bits(0b1110, 4))));
    assert_eq!(apply_op(BinaryOp::Xor, bits(0b1100, 4), bits(0b1010, 4)), Ok(ExprValue::Bits(bits(0b0110, 4))));
    assert_eq!(apply_op(BinaryOp::Dot, bits(0b1101, 4), bits(0b0110, 4)), Ok(ExprValue::Bits(bits(1, 1))));
    assert_eq!(apply_op(BinaryOp::Dot, bits(0b1111, 4), bits(0b0110, 4)), Ok(ExprValue::Bits(bits(0, 1))));
    assert_eq!(apply_op(BinaryOp::And, bits(1, 1), bits(1, 2)), Err(RuntimeError::TypeMismatch));
}

#[test]
fn expressions_evaluate_in_the_environment() {
    let mut ev = Evaluator::new();
    ev.eval_statement(assign("secret", lit(0b0110, 4))).unwrap();
    assert_eq!(ev.eval_expr(&ident("secret")), Ok(ExprValue::Bits(bits(0b0110, 4))));
    assert_eq!(ev.eval_expr(&Expr::IntLiteral(3)), Ok(ExprValue::Const(3)));
    let dot = bin(lit(0b1011, 4), BinaryOp::Dot, ident("secret"));
    assert_eq!(ev.eval_expr(&dot), Ok(ExprValue::Bits(bits(1, 1))));
    // operands are both evaluated before their kinds are checked
    let bad = bin(Expr::IntLiteral(1), BinaryOp::Or, ident("missing"));
    assert_eq!(ev.eval_expr(&bad), Err(RuntimeError::VarNotFound("missing".to_string())));
    assert_eq!(ev.eval_expr(&bin(Expr::IntLiteral(1), BinaryOp::Or, lit(1, 1))), Err(RuntimeError::TypeMismatch));
}

#[test]
fn assignment_binds_bits() {
    let mut ev = Evaluator::new();
    assert_eq!(ev.eval_statement(assign("a", lit(0b101, 3))), Ok(None));
    assert_eq!(ev.eval_statement(assign("b", bin(ident("a"), BinaryOp::Xor, lit(0b011, 3)))), Ok(None));
    assert_eq!(bound_bits(&ev, "b"), Some(bits(0b110, 3)));
    // rebinding replaces the value
    assert_eq!(ev.eval_statement(assign("a", lit(0, 3))), Ok(None));
    assert_eq!(bound_bits(&ev, "a"), Some(bits(0, 3)));
}

#[test]
fn assignment_errors_leave_the_environment() {
    let mut ev = Evaluator::new();
    assert_eq!(ev.eval_statement(assign("n", Expr::IntLiteral(4))), Err(RuntimeError::TypeMismatch));
    assert_eq!(ev.eval_statement(assign("n", ident("x"))), Err(RuntimeError::VarNotFound("x".to_string())));
    assert!(ev.environment().get(&"n".to_string()).is_none());
    let decl = FunctionDecl { name: "f".to_string(), params: Vec::new(), body: lit(1, 1) };
    ev.eval_statement(Statement::Function(decl)).unwrap();
    assert_eq!(ev.eval_statement(assign("g", ident("f"))), Err(RuntimeError::TypeMismatch));
}

#[test]
fn bare_expressions_are_skipped() {
    let mut ev = Evaluator::new();
    assert_eq!(ev.eval_statement(Statement::Expr(ident("nothing_bound"))), Ok(None));
    assert!(ev.environment().get(&"nothing_bound".to_string()).is_none());
}

/// The README's Bernstein-Vazirani program, statement by statement.
fn bernstein_vazirani_program() -> Vec<Statement> {
    let reg = |name: &str, init: &str, m: Option<Expr>| RegisterDecl { name: name.to_string(), init: init.to_string(), multiplies: m };
    let all = |name: &str| CircuitRef { name: name.to_string(), applies: Applies::All };
    let instr = |name: &str, args: Vec<CircuitRef>| Instruction { name: name.to_string(), args };
    vec![
        assign("secret", lit(0b0110, 4)),
        Statement::Function(FunctionDecl {
            name: "f".to_string(),
            params: vec![Param { name: "x".to_string(), ty: Type::Bits(4) }],
            body: bin(ident("x"), BinaryOp::Dot, ident("secret")),
        }),
        Statement::Oracle(OracleDecl {
            name: "U_f".to_string(),
            params: vec![
                Param { name: "x".to_string(), ty: Type::Qubits(4) },
                Param { name: "y".to_string(), ty: Type::Qubits(1) },
            ],
            loads: "f".to_string(),
        }),
        Statement::Circuit(CircuitDecl {
            name: "bernstein_vazirani".to_string(),
            registers: vec![reg("x", "0", Some(Expr::IntLiteral(4))), reg("y", "-", None)],
            instructions: vec![
                instr("H", vec![all("x")]),
                instr("U_f", vec![all("x"), all("y")]),
                instr("H", vec![all("x")]),
                instr("measure", vec![all("x")]),
            ],
        }),
        Statement::MethodCall(MethodCall {
            name: "bernstein_vazirani".to_string(),
            call: "printCircuit".to_string(),
            args: vec![qlang::interpreter::parser::ast_types::MethodArg { name: "spaces".to_string(), value: Expr::IntLiteral(1) }],
        }),
        Statement::MethodCall(MethodCall {
            name: "bernstein_vazirani".to_string(),
            call: "measure".to_string(),
            args: vec![qlang::interpreter::parser::ast_types::MethodArg { name: "shots".to_string(), value: Expr::IntLiteral(3) }],
        }),
    ]
}

#[test]
fn readme_program_runs_statement_by_statement() {
    let mut ev = Evaluator::new();
    let mut actions: Vec<MethodAction> = Vec::new();
    for stmt in bernstein_vazirani_program() {
        if let Some(action) = ev.eval_statement(stmt).unwrap() {
            actions.push(action);
        }
    }
    assert_eq!(actions.len(), 2);
    assert_eq!(
        actions[0],
        MethodAction::PrintCircuit(vec![
            "|0> H-----------Bx-H-----------M--".to_string(),
            "|0> ---H--------Bx----H--------M--".to_string(),
            "|0> ------H-----Bx-------H-----M--".to_string(),
            "|0> ---------H--Bx----------H--M--".to_string(),
            "|-> ------------By----------------".to_string(),
        ])
    );
    assert_eq!(actions[1], MethodAction::Measure(3));
}

#[test]
fn method_call_statement_leaves_the_environment() {
    let mut ev = Evaluator::new();
    let call = MethodCall { name: "c".to_string(), call: "measure".to_string(), args: Vec::new() };
    assert_eq!(ev.eval_statement(Statement::MethodCall(call)), Err(RuntimeError::VarNotFound("c".to_string())));
    assert!(ev.environment().get(&"c".to_string()).is_none());
}

#[test]
fn oracle_too_wide_for_a_usize_cannot_be_applied() {
    let mut ev = Evaluator::new();
    ev.eval_statement(Statement::Function(FunctionDecl { name: "f".to_string(), params: Vec::new(), body: lit(0, 1) }))
        .unwrap();
    ev.eval_statement(Statement::Oracle(OracleDecl {
        name: "U".to_string(),
        params: vec![
            Param { name: "x".to_string(), ty: Type::Qubits(usize::MAX) },
            Param { name: "y".to_string(), ty: Type::Qubits(1) },
        ],
        loads: "f".to_string(),
    }))
    .unwrap();
    let decl = CircuitDecl {
        name: "c".to_string(),
        registers: vec![RegisterDecl { name: "q".to_string(), init: "0".to_string(), multiplies: None }],
        instructions: vec![Instruction { name: "U".to_string(), args: Vec::new() }],
    };
    assert_eq!(ev.eval_statement(Statement::Circuit(decl)), Err(RuntimeError::OracleConstructionFailed));
}

#[test]
fn oracle_binding_takes_precedence_over_a_gate_name() {
    let mut ev = Evaluator::new();
    ev.eval_statement(Statement::Function(FunctionDecl { name: "f".to_string(), params: Vec::new(), body: lit(0, 1) }))
        .unwrap();
    ev.eval_statement(Statement::Oracle(OracleDecl {
        name: "H".to_string(),
        params: vec![
            Param { name: "x".to_string(), ty: Type::Qubits(1) },
            Param { name: "y".to_string(), ty: Type::Qubits(1) },
        ],
        loads: "f".to_string(),
    }))
    .unwrap();
    let decl = CircuitDecl {
        name: "c".to_string(),
        registers: vec![RegisterDecl { name: "q".to_string(), init: "00".to_string(), multiplies: None }],
        instructions: vec![Instruction {
            name: "H".to_string(),
            args: vec![CircuitRef { name: "q".to_string(), applies: Applies::One(1) }],
        }],
    };
    ev.eval_statement(Statement::Circuit(decl)).unwrap();
    match ev.environment().get(&"c".to_string()) {
        Some(EvaluatorType::Circuit(c)) => {
            assert_eq!(c.circuit.ops().len(), 1);
            assert!(matches!(c.circuit.ops()[0].gate(), Gate::BlackBox(_)));
            assert_eq!(*c.circuit.ops()[0].applies(), vec![0, 1]);
        },
        _ => panic!("c should be a circuit"),
    }
}
