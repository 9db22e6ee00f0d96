use vstd::prelude::*;

use crate::engine::black_box::{BlackBox, Lambda, LambdaModel, lambda_model};
use crate::engine::gate::Gate;

verus! {

/// The qubit indices `0, 1, .., n - 1`.
pub open spec fn first_indices(n: nat) -> Seq<usize> {
    Seq::new(n, |i: int| i as usize)
}

/// A gate together with the qubits it is applied to, in order, and, for an
/// oracle, the classical function it evaluates.
///
/// The number of qubits always equals the arity of its Gate.
#[derive(Debug)]
pub struct Operator {
    gate: Gate,
    applies: Vec<usize>,
    function: Option<Lambda>,
}

impl Operator {
    #[verifier::type_invariant]
    spec fn arity_matches(self) -> bool {
        self.applies@.len() == self.gate.spec_arity()
    }

    /// What the operator applies.
    pub closed spec fn spec_gate(self) -> Gate {
        self.gate
    }

    /// The qubits its Gate is applied to.
    pub closed spec fn spec_applies(self) -> Seq<usize> {
        self.applies@
    }

    /// The classical function of an oracle operator: its parameter names,
    /// their widths and its body; `None` for any other operator.
    pub closed spec fn spec_function(self) -> Option<LambdaModel> {
        match self.function {
            Some(l) => Some(lambda_model(l)),
            None => None,
        }
    }

    /// Builds the operator applying `gate` to `applies`; `None` when the
    /// number of targets is not the arity of `gate`.
    pub fn new(gate: Gate, applies: Vec<usize>) -> (r: Option<Operator>)
        ensures
            r is Some <==> applies@.len() == gate.spec_arity(),
            r matches Some(op) ==> op.spec_gate() == gate && op.spec_applies() == applies@
                && op.spec_function() is None,
    {
        if gate.arity() == applies.len() {
            Some(Operator { gate, applies, function: None })
        } else {
            None
        }
    }

    /// The oracle operator `U_f` of the function `f`, over `input_size` input
    /// qubits and `output_size` output qubits; it spans the qubits
    /// `0 .. input_size + output_size`.
    pub fn new_u_f(f: Lambda, input_size: usize, output_size: usize) -> (op: Operator)
        requires
            input_size + output_size <= usize::MAX,
        ensures
            op.spec_gate() == Gate::BlackBox(BlackBox::spec_new(input_size, output_size)),
            op.spec_applies() == first_indices((input_size + output_size) as nat),
            op.spec_function() == Some(lambda_model(f)),
    {
        let bb: BlackBox = BlackBox::new(input_size, output_size);
        let n: usize = input_size + output_size;
        let mut applies: Vec<usize> = Vec::new();
        let mut i: usize = 0;
        while i < n
            invariant
                i <= n,
                applies@ == first_indices(i as nat),
            decreases n - i,
        {
            applies.push(i);
            i = i + 1;
        }
        Operator { gate: Gate::BlackBox(bb), applies, function: Some(f) }
    }

    /// The classical function of an oracle operator.
    pub fn function(&self) -> (f: &Option<Lambda>)
        ensures
            match *f {
                Some(l) => self.spec_function() == Some(lambda_model(l)),
                None => self.spec_function() is None,
            },
    {
        &self.function
    }

    pub fn gate(&self) -> (g: &Gate)
        ensures
            *g == self.spec_gate(),
    {
        &self.gate
    }

    /// The targets of the operator; there are always as many as the arity of
    /// its gate.
    pub fn applies(&self) -> (a: &Vec<usize>)
        ensures
            a@ == self.spec_applies(),
            a@.len() == self.spec_gate().spec_arity(),
    {
        proof {
            use_type_invariant(self);
        }
        &self.applies
    }
}

impl Clone for Operator {
    fn clone(&self) -> (r: Self)
        ensures
            r.spec_gate() == self.spec_gate(),
            r.spec_applies() == self.spec_applies(),
            r.spec_function() == self.spec_function(),
    {
        proof {
            use_type_invariant(self);
        }
        let applies: Vec<usize> = self.applies.clone();
        assert(applies@ =~= self.applies@);
        let function: Option<Lambda> = match &self.function {
            Some(l) => Some(l.clone()),
            None => None,
        };
        Operator { gate: self.gate, applies, function }
    }
}

} // verus!
