//! `qlang`: the verified core of a small language for building quantum
//! circuits. The library holds the set of gates, operators and circuits of the
//! engine, the circuit rendering, the token types of the lexer, and the parts
//! of the evaluator that turn declarations into circuits.
pub mod engine;
pub mod interpreter;
