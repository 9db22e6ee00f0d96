use vstd::prelude::*;

verus! {

/// The declared type of a parameter: a bitstring or a qubit register of a
/// given width.
#[derive(Clone, Copy, Debug, PartialEq, Eq, Structural)]
pub enum Type {
    Bits(usize),
    Qubits(usize),
}

/// A typed parameter of a function or an oracle.
#[derive(Debug)]
pub struct Param {
    pub name: String,
    pub ty: Type,
}

/// The classical operators on bitstrings.
#[derive(Clone, Copy, Debug, PartialEq, Eq, Structural)]
pub enum BinaryOp {
    /// `^`
    Xor,
    /// `&`
    And,
    /// `|`
    Or,
    /// `*`, the dot product modulo 2
    Dot,
}

/// A classical expression.
#[derive(Debug)]
pub enum Expr {
    Ident(String),
    IntLiteral(usize),
    /// A bitstring literal: its value and its number of bits.
    BitsLiteral(usize, usize),
    Binary(Box<Expr>, BinaryOp, Box<Expr>),
}

impl Clone for Expr {
    fn clone(&self) -> (r: Self)
        ensures
            r == *self,
        decreases self,
    {
        match self {
            Expr::Ident(s) => Expr::Ident(s.clone()),
            Expr::IntLiteral(n) => Expr::IntLiteral(*n),
            Expr::BitsLiteral(v, l) => Expr::BitsLiteral(*v, *l),
            Expr::Binary(a, op, b) => {
                let a2: Expr = (**a).clone();
                let b2: Expr = (**b).clone();
                Expr::Binary(Box::new(a2), *op, Box::new(b2))
            },
        }
    }
}

/// `function name(params) { body }`
#[derive(Debug)]
pub struct FunctionDecl {
    pub name: String,
    pub params: Vec<Param>,
    pub body: Expr,
}

/// `oracle name(params) loads function;`
#[derive(Debug)]
pub struct OracleDecl {
    pub name: String,
    pub params: Vec<Param>,
    pub loads: String,
}

/// Which qubits of a register an argument refers to.
#[derive(Clone, Copy, Debug, PartialEq, Eq, Structural)]
pub enum Applies {
    /// `x[n]`
    One(usize),
    /// `x`
    All,
}

/// A reference to qubits of a circuit register, as passed to a gate.
#[derive(Debug)]
pub struct CircuitRef {
    pub name: String,
    pub applies: Applies,
}

/// `qubits name = "init" * multiplies;` in the `register:` section of a
/// circuit.
#[derive(Debug)]
pub struct RegisterDecl {
    pub name: String,
    pub init: String,
    pub multiplies: Option<Expr>,
}

/// `name(args);` in the `apply:` section of a circuit.
#[derive(Debug)]
pub struct Instruction {
    pub name: String,
    pub args: Vec<CircuitRef>,
}

/// `circuit name { register: .. apply: .. }`
#[derive(Debug)]
pub struct CircuitDecl {
    pub name: String,
    pub registers: Vec<RegisterDecl>,
    pub instructions: Vec<Instruction>,
}

/// `name = value` in a method call.
#[derive(Debug)]
pub struct MethodArg {
    pub name: String,
    pub value: Expr,
}

/// `name.call(args);`
#[derive(Debug)]
pub struct MethodCall {
    pub name: String,
    pub call: String,
    pub args: Vec<MethodArg>,
}

/// `bits name = value;`
#[derive(Debug)]
pub struct Assignment {
    pub name: String,
    pub value: Expr,
}

/// A statement of a program.
#[derive(Debug)]
pub enum Statement {
    /// An expression on its own; it has no effect.
    Expr(Expr),
    Assignment(Assignment),
    Function(FunctionDecl),
    Oracle(OracleDecl),
    Circuit(CircuitDecl),
    MethodCall(MethodCall),
}

/// A program: its statements, in order.
pub type Program = Vec<Statement>;

} // verus!
