use qlang::engine::black_box::{BlackBox, Lambda};
use qlang::engine::circuit::{symbols_from_op, Circuit};
use qlang::engine::gate::Gate;
use qlang::engine::operator::Operator;
use qlang::engine::register_error::RegisterError;
use qlang::interpreter::lexer::token::{Token, TokenType};
use qlang::interpreter::parser::ast_types::Expr;

fn identity(width: usize) -> Lambda {
    Lambda {
        params: vec!["x".to_string()],
        param_bit_lengths: vec![width],
        body: Expr::Ident("x".to_string()),
        captured: Vec::new(),
    }
}

#[test]
fn gate_from_string_parses_known_gates() {
    match Gate::from_string(&"H".to_string(), 1) {
        Some(Gate::Hadamard) => (),
        other => panic!("expected Hadamard, got {:?}", other),
    }

    match Gate::from_string(&"CNOT".to_string(), 2) {
        Some(Gate::CNot) => (),
        other => panic!("expected CNot, got {:?}", other),
    }

    match Gate::from_string(&"SWAP".to_string(), 2) {
        Some(Gate::Swap) => (),
        other => panic!("expected CNot, got {:?}", other),
    }
}

#[test]
fn operator_new_requires_matching_arity() {
    let op = Operator::new(Gate::Hadamard, vec![0]);
    assert!(op.is_some(), "expected valid operator for arity 1");

    let invalid = Operator::new(Gate::CNot, vec![0]);
    assert!(invalid.is_none(), "expected invalid operator for mismatched arity");
}

#[test]
fn gate_from_string_parses_every_name() {
    let names = [
        ("H", Gate::Hadamard),
        ("X", Gate::RotateX),
        ("Y", Gate::RotateY),
        ("Z", Gate::RotateZ),
        ("T", Gate::ShiftT),
        ("S", Gate::ShiftS),
        ("CNOT", Gate::CNot),
        ("SWAP", Gate::Swap),
        ("CZ", Gate::CZ),
        ("CCNOT", Gate::Toffoli),
        ("CSWAP", Gate::CSwap),
        ("measure", Gate::Measure(5)),
    ];
    for (name, gate) in names.iter() {
        assert_eq!(Gate::from_string(&name.to_string(), 5), Some(*gate));
    }
}

#[test]
fn gate_from_string_rejects_unknown_names() {
    assert_eq!(Gate::from_string(&"h".to_string(), 1), None);
    assert_eq!(Gate::from_string(&"U_f".to_string(), 1), None);
    assert_eq!(Gate::from_string(&"".to_string(), 1), None);
    assert_eq!(Gate::from_string(&"Measure".to_string(), 1), None);
}

#[test]
fn measure_takes_its_arity_from_its_targets() {
    let g = Gate::from_string(&"measure".to_string(), 4).unwrap();
    assert_eq!(g, Gate::Measure(4));
    assert_eq!(g.arity(), 4);
}

#[test]
fn named_gates_have_arity_one_to_three() {
    for name in ["H", "X", "Y", "Z", "T", "S"].iter() {
        assert_eq!(Gate::from_string(&name.to_string(), 9).unwrap().arity(), 1);
    }
    for name in ["CNOT", "SWAP", "CZ"].iter() {
        assert_eq!(Gate::from_string(&name.to_string(), 9).unwrap().arity(), 2);
    }
    for name in ["CCNOT", "CSWAP"].iter() {
        assert_eq!(Gate::from_string(&name.to_string(), 9).unwrap().arity(), 3);
    }
}

#[test]
fn black_box_arity_is_input_plus_output() {
    let bb = BlackBox::new(4, 1);
    assert_eq!(bb.input_size(), 4);
    assert_eq!(bb.output_size(), 1);
    assert_eq!(bb.width(), 5);
    assert_eq!(Gate::BlackBox(bb).arity(), 5);
}

#[test]
fn oracle_operator_spans_its_qubits() {
    let op = Operator::new_u_f(identity(3), 3, 2);
    assert_eq!(*op.gate(), Gate::BlackBox(BlackBox::new(3, 2)));
    assert_eq!(*op.applies(), vec![0, 1, 2, 3, 4]);
    let f = op.function().as_ref().unwrap();
    assert_eq!(f.params, vec!["x".to_string()]);
    assert_eq!(f.param_bit_lengths, vec![3]);
    assert!(Operator::new(Gate::Hadamard, vec![0]).unwrap().function().is_none());
}

#[test]
fn operator_keeps_gate_and_targets() {
    let op = Operator::new(Gate::Toffoli, vec![2, 0, 1]).unwrap();
    assert_eq!(*op.gate(), Gate::Toffoli);
    assert_eq!(*op.applies(), vec![2, 0, 1]);
    let copy = op.clone();
    assert_eq!(*copy.applies(), vec![2, 0, 1]);
    assert!(Operator::new(Gate::Measure(2), vec![0, 1, 2]).is_none());
}

#[test]
fn symbols_of_cnot_are_padded_and_keyed_by_qubit() {
    let op = Operator::new(Gate::CNot, vec![0, 2]).unwrap();
    let table = symbols_from_op(&op, 3).unwrap();
    assert_eq!(table.len(), 2);
    assert_eq!(table.get(&0).unwrap(), "*-");
    assert_eq!(table.get(&2).unwrap(), "X-");
}

#[test]
fn symbols_of_swap_and_oracle() {
    let op = Operator::new(Gate::Swap, vec![1, 0]).unwrap();
    let table = symbols_from_op(&op, 2).unwrap();
    assert_eq!(table.get(&0).unwrap(), "Sw");
    assert_eq!(table.get(&1).unwrap(), "Sw");

    let oracle = Operator::new_u_f(identity(2), 2, 1);
    let table = symbols_from_op(&oracle, 3).unwrap();
    assert_eq!(table.get(&0).unwrap(), "Bx");
    assert_eq!(table.get(&1).unwrap(), "Bx");
    assert_eq!(table.get(&2).unwrap(), "By");
}

#[test]
fn symbols_later_target_overrides_earlier() {
    let op = Operator::new(Gate::Toffoli, vec![1, 1, 0]).unwrap();
    let table = symbols_from_op(&op, 2).unwrap();
    assert_eq!(table.len(), 2);
    assert_eq!(table.get(&1).unwrap(), "*-");
    assert_eq!(table.get(&0).unwrap(), "X-");
}

#[test]
fn symbols_reject_targets_past_the_circuit() {
    let op = Operator::new(Gate::CNot, vec![0, 3]).unwrap();
    assert_eq!(symbols_from_op(&op, 3), Err(RegisterError::RenderFailed));
    let op = Operator::new(Gate::Hadamard, vec![0]).unwrap();
    assert_eq!(symbols_from_op(&op, 0), Err(RegisterError::RenderFailed));
}

#[test]
fn render_bell_circuit() {
    let ops = vec![
        Operator::new(Gate::Hadamard, vec![0]).unwrap(),
        Operator::new(Gate::CNot, vec![0, 1]).unwrap(),
        Operator::new(Gate::Measure(2), vec![0, 1]).unwrap(),
    ];
    let circuit = Circuit::new("00".to_string(), ops);
    let wires = circuit.render_wires(2).unwrap();
    assert_eq!(wires, vec!["|0> H---*---M---".to_string(), "|0> ----X---M---".to_string()]);
}

#[test]
fn render_with_no_spaces_and_no_operators() {
    let circuit = Circuit::new("+-1".to_string(), Vec::new());
    let wires = circuit.render_wires(0).unwrap();
    assert_eq!(wires, vec!["|+> ".to_string(), "|-> ".to_string(), "|1> ".to_string()]);

    let ops = vec![Operator::new(Gate::RotateX, vec![1]).unwrap()];
    let circuit = Circuit::new("01".to_string(), ops);
    assert_eq!(circuit.render_wires(0).unwrap(), vec!["|0> --".to_string(), "|1> X-".to_string()]);
}

#[test]
fn render_wires_are_evenly_placed() {
    let ops = vec![
        Operator::new(Gate::Toffoli, vec![0, 1, 2]).unwrap(),
        Operator::new_u_f(identity(2), 2, 1),
        Operator::new(Gate::ShiftT, vec![2]).unwrap(),
        Operator::new(Gate::Swap, vec![2, 0]).unwrap(),
    ];
    let circuit = Circuit::new("0+1".to_string(), ops);
    let spaces = 3;
    let wires = circuit.render_wires(spaces).unwrap();
    assert_eq!(wires.len(), 3);
    for wire in wires.iter() {
        assert_eq!(wire.chars().count(), 4 + 4 * (2 + spaces));
    }
}

#[test]
fn render_fails_on_a_target_past_the_register() {
    let ops = vec![Operator::new(Gate::CNot, vec![0, 2]).unwrap()];
    let circuit = Circuit::new("00".to_string(), ops);
    assert_eq!(circuit.render_wires(1), Err(RegisterError::RenderFailed));
}

#[test]
fn circuit_keeps_its_pattern_and_operators() {
    let ops = vec![Operator::new(Gate::CZ, vec![1, 0]).unwrap()];
    let circuit = Circuit::new("10".to_string(), ops);
    assert_eq!(circuit.init(), "10");
    assert_eq!(circuit.ops().len(), 1);
    assert_eq!(*circuit.ops()[0].gate(), Gate::CZ);
}

#[test]
fn token_keeps_its_position() {
    let t = Token::new(TokenType::Identifier, "U_f".to_string(), 7, 12);
    assert_eq!(t.token_type, TokenType::Identifier);
    assert_eq!(t.lexeme, "U_f");
    assert_eq!(t.line(), 7);
    assert_eq!(t.col(), 12);
    assert_eq!(t.line, 7);
}
