use qlang::engine::black_box::Lambda;
use qlang::engine::register_error::RegisterError;
use qlang::interpreter::evaluator::environment::{Bits, EvaluatorType};
use qlang::interpreter::evaluator::eval_expr::ExprValue;
use qlang::interpreter::evaluator::runtime_error::{decimal_text, RuntimeError};
use qlang::interpreter::evaluator::Evaluator;
use qlang::interpreter::parser::ast_types::{
    Applies, Assignment, BinaryOp, CircuitDecl, CircuitRef, Expr, FunctionDecl, Instruction, OracleDecl, Param,
    RegisterDecl, Statement, Type,
};

fn ident(name: &str) -> Expr {
    Expr::Ident(name.to_string())
}

fn dot(a: Expr, b: Expr) -> Expr {
    Expr::Binary(Box::new(a), BinaryOp::Dot, Box::new(b))
}

fn failure(msg: &str) -> RegisterError {
    RegisterError::RunTimeFailure(Some(msg.to_string()))
}

/// Declares `secret`, the function `f(x) = x * secret`, the oracle `U_f`
/// of 4 + 1 qubits loading it, and a circuit applying it; returns the
/// function the circuit's oracle operator evaluates.
fn oracle_function(ev: &mut Evaluator, body: Expr) -> Lambda {
    ev.eval_statement(Statement::Assignment(Assignment {
        name: "secret".to_string(),
        value: Expr::BitsLiteral(0b1011, 4),
    }))
    .unwrap();
    ev.eval_statement(Statement::Function(FunctionDecl {
        name: "f".to_string(),
        params: vec![Param { name: "x".to_string(), ty: Type::Bits(4) }],
        body,
    }))
    .unwrap();
    ev.eval_statement(Statement::Oracle(OracleDecl {
        name: "U_f".to_string(),
        params: vec![
            Param { name: "x".to_string(), ty: Type::Qubits(4) },
            Param { name: "y".to_string(), ty: Type::Qubits(1) },
        ],
        loads: "f".to_string(),
    }))
    .unwrap();
    let all = |name: &str| CircuitRef { name: name.to_string(), applies: Applies::All };
    ev.eval_statement(Statement::Circuit(CircuitDecl {
        name: "c".to_string(),
        registers: vec![
            RegisterDecl { name: "x".to_string(), init: "0000".to_string(), multiplies: None },
            RegisterDecl { name: "y".to_string(), init: "-".to_string(), multiplies: None },
        ],
        instructions: vec![Instruction { name: "U_f".to_string(), args: vec![all("x"), all("y")] }],
    }))
    .unwrap();
    match ev.environment().get(&"c".to_string()) {
        Some(EvaluatorType::Circuit(c)) => {
            assert_eq!(c.circuit.ops().len(), 1);
            c.circuit.ops()[0].function().clone().expect("the oracle operator carries its function")
        },
        _ => panic!("c should be a circuit"),
    }
}

#[test]
fn oracle_function_is_the_loaded_function() {
    let mut ev = Evaluator::new();
    let f = oracle_function(&mut ev, dot(ident("x"), ident("secret")));
    assert_eq!(f.params, vec!["x".to_string()]);
    assert_eq!(f.param_bit_lengths, vec![4]);
    assert_eq!(format!("{:?}", f.body), format!("{:?}", dot(ident("x"), ident("secret"))));
}

#[test]
fn call_evaluates_the_body_on_the_argument() {
    let mut ev = Evaluator::new();
    let f = oracle_function(&mut ev, dot(ident("x"), ident("secret")));
    // 1010 & 1011 = 1010, two ones
    assert_eq!(f.call(vec![0b1010]), Ok(0));
    // 1000 & 1011 = 1000, one one
    assert_eq!(f.call(vec![0b1000]), Ok(1));
    // 1111 & 1011 = 1011, three ones
    assert_eq!(f.call(vec![0b1111]), Ok(1));
    assert_eq!(f.call(vec![0]), Ok(0));
}

#[test]
fn call_sees_the_scope_the_function_was_made_in() {
    let mut ev = Evaluator::new();
    let f = oracle_function(&mut ev, dot(ident("x"), ident("secret")));
    ev.eval_statement(Statement::Assignment(Assignment {
        name: "secret".to_string(),
        value: Expr::BitsLiteral(0, 4),
    }))
    .unwrap();
    assert_eq!(f.call(vec![0b1000]), Ok(1));
}

#[test]
fn call_with_the_wrong_number_of_arguments_fails() {
    let mut ev = Evaluator::new();
    let f = oracle_function(&mut ev, dot(ident("x"), ident("secret")));
    assert_eq!(f.call(vec![1, 2]), Err(failure("expected 1 arguments, got 2")));
    assert_eq!(f.call(Vec::new()), Err(failure("expected 1 arguments, got 0")));
}

#[test]
fn call_of_a_body_that_is_no_bitstring_fails() {
    let mut ev = Evaluator::new();
    let f = oracle_function(&mut ev, Expr::IntLiteral(3));
    assert_eq!(f.call(vec![1]), Err(failure("function did not return a bits value")));
}

#[test]
fn call_reports_the_evaluation_error() {
    let mut ev = Evaluator::new();
    let f = oracle_function(&mut ev, dot(ident("x"), ident("missing")));
    assert_eq!(f.call(vec![1]), Err(failure("variable not found: missing")));
    let g = oracle_function(&mut ev, dot(ident("x"), Expr::BitsLiteral(1, 2)));
    assert_eq!(g.call(vec![1]), Err(failure("type mismatch")));
}

#[test]
fn parameters_hide_captured_names() {
    let f = Lambda {
        params: vec!["x".to_string()],
        param_bit_lengths: vec![3],
        body: ident("x"),
        captured: vec![("x".to_string(), ExprValue::Bits(Bits { literal: 7, length: 3 }))],
    };
    assert_eq!(f.call(vec![5]), Ok(5));
}

#[test]
fn later_captured_binding_hides_an_earlier_one() {
    let f = Lambda {
        params: Vec::new(),
        param_bit_lengths: Vec::new(),
        body: ident("s"),
        captured: vec![
            ("s".to_string(), ExprValue::Bits(Bits { literal: 1, length: 2 })),
            ("s".to_string(), ExprValue::Bits(Bits { literal: 2, length: 2 })),
        ],
    };
    assert_eq!(f.call(Vec::new()), Ok(2));
}

#[test]
fn runtime_error_messages() {
    assert_eq!(RuntimeError::IncorrectArgs(2, 3).message(), "incorrect number of arguments: expected 2, found 3");
    assert_eq!(RuntimeError::OutOfBounds("q".to_string(), 12).message(), "index 12 is out of bounds for register q");
    assert_eq!(RuntimeError::MethodUndefined("run".to_string()).message(), "undefined method: run");
    assert_eq!(RuntimeError::OracleConstructionFailed.message(), "oracle construction failed");
    assert_eq!(RuntimeError::Fatal.message(), "fatal error");
}

#[test]
fn decimal_text_writes_the_digits() {
    assert_eq!(decimal_text(0), "0");
    assert_eq!(decimal_text(7), "7");
    assert_eq!(decimal_text(10), "10");
    assert_eq!(decimal_text(12345), "12345");
    assert_eq!(decimal_text(usize::MAX), usize::MAX.to_string());
}
