use vstd::prelude::*;

use crate::engine::black_box::BlackBox;

verus! {

/// The gates a circuit can apply.
#[derive(Clone, Copy, Debug, PartialEq, Eq, Structural)]
pub enum Gate {
    Hadamard,
    RotateX,
    RotateY,
    RotateZ,
    ShiftT,
    ShiftS,
    CNot,
    Swap,
    CZ,
    Toffoli,
    CSwap,
    BlackBox(BlackBox),
    Measure(usize),
}

/// `true` exactly when the characters of `name` are those of `lit`.
pub fn name_is(name: &String, lit: &str) -> (r: bool)
    ensures
        r == (name@ == lit@),
{
    let expected: String = String::from_str(lit);
    name.eq(&expected)
}

impl Gate {
    /// What a name denotes in a program; `measure` takes the number
    /// of qubits it is applied to as its arity.
    pub open spec fn spec_from_name(name: Seq<char>, m_arity: usize) -> Option<Gate> {
        if name == "H"@ {
            Some(Gate::Hadamard)
        } else if name == "X"@ {
            Some(Gate::RotateX)
        } else if name == "Y"@ {
            Some(Gate::RotateY)
        } else if name == "Z"@ {
            Some(Gate::RotateZ)
        } else if name == "T"@ {
            Some(Gate::ShiftT)
        } else if name == "S"@ {
            Some(Gate::ShiftS)
        } else if name == "CNOT"@ {
            Some(Gate::CNot)
        } else if name == "SWAP"@ {
            Some(Gate::Swap)
        } else if name == "CZ"@ {
            Some(Gate::CZ)
        } else if name == "CCNOT"@ {
            Some(Gate::Toffoli)
        } else if name == "CSWAP"@ {
            Some(Gate::CSwap)
        } else if name == "measure"@ {
            Some(Gate::Measure(m_arity))
        } else {
            None
        }
    }

    /// The number of qubits a gate applies to.
    pub open spec fn spec_arity(self) -> int {
        match self {
            Gate::Hadamard => 1,
            Gate::RotateX => 1,
            Gate::RotateY => 1,
            Gate::RotateZ => 1,
            Gate::ShiftT => 1,
            Gate::ShiftS => 1,
            Gate::CNot => 2,
            Gate::Swap => 2,
            Gate::CZ => 2,
            Gate::Toffoli => 3,
            Gate::CSwap => 3,
            Gate::BlackBox(bb) => bb.spec_width(),
            Gate::Measure(n) => n as int,
        }
    }

    /// A name in a program other than `measure` denotes an operation on one,
    /// two or three qubits; `measure` denotes a measurement of exactly as many
    /// qubits as it is given. No name denotes an oracle.
    pub proof fn lemma_named_arity(name: Seq<char>, m_arity: usize)
        ensures
            Gate::spec_from_name(name, m_arity) matches Some(g) ==> {
                &&& !(g is BlackBox)
                &&& name == "measure"@ ==> g == Gate::Measure(m_arity) && g.spec_arity() == m_arity
                &&& name != "measure"@ ==> 1 <= g.spec_arity() <= 3
            },
    {
        broadcast use vstd::string::group_string_axioms;

        reveal_strlit("H");
        reveal_strlit("X");
        reveal_strlit("Y");
        reveal_strlit("Z");
        reveal_strlit("T");
        reveal_strlit("S");
        reveal_strlit("CNOT");
        reveal_strlit("SWAP");
        reveal_strlit("CZ");
        reveal_strlit("CCNOT");
        reveal_strlit("CSWAP");
        reveal_strlit("measure");
        assert("measure"@.len() == 7);
    }

    /// The names of the gates of a program and the number of qubits each
    /// applies to: `H`, `X`, `Y`, `Z`, `T`, `S` one, `CNOT`, `SWAP`, `CZ`
    /// two, `CCNOT`, `CSWAP` three, and `measure` as many as it is given. No
    /// other name is a gate.
    pub proof fn lemma_gate_names(name: Seq<char>, m: usize)
        ensures
            Gate::spec_from_name("H"@, m) == Some(Gate::Hadamard) && Gate::Hadamard.spec_arity() == 1,
            Gate::spec_from_name("X"@, m) == Some(Gate::RotateX) && Gate::RotateX.spec_arity() == 1,
            Gate::spec_from_name("Y"@, m) == Some(Gate::RotateY) && Gate::RotateY.spec_arity() == 1,
            Gate::spec_from_name("Z"@, m) == Some(Gate::RotateZ) && Gate::RotateZ.spec_arity() == 1,
            Gate::spec_from_name("T"@, m) == Some(Gate::ShiftT) && Gate::ShiftT.spec_arity() == 1,
            Gate::spec_from_name("S"@, m) == Some(Gate::ShiftS) && Gate::ShiftS.spec_arity() == 1,
            Gate::spec_from_name("CNOT"@, m) == Some(Gate::CNot) && Gate::CNot.spec_arity() == 2,
            Gate::spec_from_name("SWAP"@, m) == Some(Gate::Swap) && Gate::Swap.spec_arity() == 2,
            Gate::spec_from_name("CZ"@, m) == Some(Gate::CZ) && Gate::CZ.spec_arity() == 2,
            Gate::spec_from_name("CCNOT"@, m) == Some(Gate::Toffoli) && Gate::Toffoli.spec_arity() == 3,
            Gate::spec_from_name("CSWAP"@, m) == Some(Gate::CSwap) && Gate::CSwap.spec_arity() == 3,
            Gate::spec_from_name("measure"@, m) == Some(Gate::Measure(m)) && Gate::Measure(m).spec_arity() == m,
            Gate::spec_from_name(name, m) is Some ==> name == "H"@ || name == "X"@ || name == "Y"@ || name == "Z"@
                || name == "T"@ || name == "S"@ || name == "CNOT"@ || name == "SWAP"@ || name == "CZ"@
                || name == "CCNOT"@ || name == "CSWAP"@ || name == "measure"@,
    {
        broadcast use vstd::string::group_string_axioms;

        reveal_strlit("H");
        reveal_strlit("X");
        reveal_strlit("Y");
        reveal_strlit("Z");
        reveal_strlit("T");
        reveal_strlit("S");
        reveal_strlit("CNOT");
        reveal_strlit("SWAP");
        reveal_strlit("CZ");
        reveal_strlit("CCNOT");
        reveal_strlit("CSWAP");
        reveal_strlit("measure");
        assert("H"@[0] == 'H' && "X"@[0] == 'X' && "Y"@[0] == 'Y' && "Z"@[0] == 'Z');
        assert("T"@[0] == 'T' && "S"@[0] == 'S' && "measure"@[0] == 'm');
        assert("CNOT"@[1] == 'N' && "SWAP"@[1] == 'W' && "CZ"@[1] == 'Z' && "CCNOT"@[1] == 'C');
        assert("CSWAP"@[1] == 'S');
        assert("H"@.len() == 1 && "X"@.len() == 1 && "Y"@.len() == 1 && "Z"@.len() == 1);
        assert("T"@.len() == 1 && "S"@.len() == 1 && "CNOT"@.len() == 4 && "SWAP"@.len() == 4);
        assert("CZ"@.len() == 2 && "CCNOT"@.len() == 5 && "CSWAP"@.len() == 5 && "measure"@.len() == 7);
    }

    /// Reads a gate from its name in a program.
    pub fn from_string(gate_name: &String, m_arity: usize) -> (g: Option<Gate>)
        ensures
            g == Gate::spec_from_name(gate_name@, m_arity),
    {
        if name_is(gate_name, "H") {
            Some(Gate::Hadamard)
        } else if name_is(gate_name, "X") {
            Some(Gate::RotateX)
        } else if name_is(gate_name, "Y") {
            Some(Gate::RotateY)
        } else if name_is(gate_name, "Z") {
            Some(Gate::RotateZ)
        } else if name_is(gate_name, "T") {
            Some(Gate::ShiftT)
        } else if name_is(gate_name, "S") {
            Some(Gate::ShiftS)
        } else if name_is(gate_name, "CNOT") {
            Some(Gate::CNot)
        } else if name_is(gate_name, "SWAP") {
            Some(Gate::Swap)
        } else if name_is(gate_name, "CZ") {
            Some(Gate::CZ)
        } else if name_is(gate_name, "CCNOT") {
            Some(Gate::Toffoli)
        } else if name_is(gate_name, "CSWAP") {
            Some(Gate::CSwap)
        } else if name_is(gate_name, "measure") {
            Some(Gate::Measure(m_arity))
        } else {
            None
        }
    }

    /// Returns the number of qubits that a given gate applies to.
    pub fn arity(&self) -> (n: usize)
        ensures
            n == self.spec_arity(),
    {
        match self {
            Gate::Hadamard => 1,
            Gate::RotateX => 1,
            Gate::RotateY => 1,
            Gate::RotateZ => 1,
            Gate::ShiftT => 1,
            Gate::ShiftS => 1,
            Gate::CNot => 2,
            Gate::Swap => 2,
            Gate::CZ => 2,
            Gate::Toffoli => 3,
            Gate::CSwap => 3,
            Gate::BlackBox(bb) => bb.width(),
            Gate::Measure(tgts_count) => *tgts_count,
        }
    }
}

} // verus!
