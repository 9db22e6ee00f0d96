use vstd::prelude::*;

use crate::interpreter::evaluator::eval_expr::{ExprValue, frame_lookup};
use crate::interpreter::parser::ast_types::Expr;

verus! {

/// The shape of a unitary oracle `U_f`: it reads `input_size` qubits and
/// writes its answer onto `output_size` further qubits.
///
/// The two sizes always sum to a `usize`, so the number of qubits the oracle
/// touches can be computed without overflow.
#[derive(Clone, Copy, Debug, PartialEq, Eq, Structural)]
pub struct BlackBox {
    input_size: usize,
    output_size: usize,
}

impl BlackBox {
    #[verifier::type_invariant]
    spec fn sizes_fit(self) -> bool {
        self.input_size + self.output_size <= usize::MAX
    }

    /// Number of input qubits.
    pub closed spec fn spec_input_size(self) -> usize {
        self.input_size
    }

    /// Number of output qubits.
    pub closed spec fn spec_output_size(self) -> usize {
        self.output_size
    }

    /// Total number of qubits the oracle applies to, as an integer.
    pub open spec fn spec_width(self) -> int {
        self.spec_input_size() + self.spec_output_size()
    }

    /// The oracle shape with the given sizes.
    pub closed spec fn spec_new(input_size: usize, output_size: usize) -> BlackBox {
        BlackBox { input_size, output_size }
    }

    pub fn new(input_size: usize, output_size: usize) -> (b: BlackBox)
        requires
            input_size + output_size <= usize::MAX,
        ensures
            b == BlackBox::spec_new(input_size, output_size),
            b.spec_input_size() == input_size,
            b.spec_output_size() == output_size,
    {
        BlackBox { input_size, output_size }
    }

    pub fn input_size(&self) -> (n: usize)
        ensures
            n == self.spec_input_size(),
    {
        self.input_size
    }

    pub fn output_size(&self) -> (n: usize)
        ensures
            n == self.spec_output_size(),
    {
        self.output_size
    }

    /// The number of qubits the oracle touches, `input_size + output_size`.
    pub fn width(&self) -> (n: usize)
        ensures
            n == self.spec_width(),
    {
        proof {
            use_type_invariant(self);
        }
        self.input_size + self.output_size
    }
}

/// The classical function an oracle loads: the name of each parameter, the
/// number of bits each is given, the body, and the value each name of the
/// scope it was made in had then (a nested binding after those it hides).
#[derive(Debug)]
pub struct Lambda {
    pub params: Vec<String>,
    pub param_bit_lengths: Vec<usize>,
    pub body: Expr,
    pub captured: Vec<(String, ExprValue)>,
}

/// A function as its parameter names, their widths, its body, and the value
/// each other name has in it.
pub type LambdaModel = (Seq<String>, Seq<usize>, Expr, spec_fn(Seq<char>) -> Option<ExprValue>);

/// The value each name has among the bindings of a frame.
pub open spec fn frame_values(frame: Seq<(String, ExprValue)>) -> spec_fn(Seq<char>) -> Option<ExprValue> {
    |name: Seq<char>| frame_lookup(frame, name)
}

/// The model of a function.
pub open spec fn lambda_model(l: Lambda) -> LambdaModel {
    (l.params@, l.param_bit_lengths@, l.body, frame_values(l.captured@))
}

impl Clone for Lambda {
    fn clone(&self) -> (r: Self)
        ensures
            lambda_model(r) == lambda_model(*self),
    {
        let params: Vec<String> = self.params.clone();
        let param_bit_lengths: Vec<usize> = self.param_bit_lengths.clone();
        assert(params@ =~= self.params@);
        assert(param_bit_lengths@ =~= self.param_bit_lengths@);
        let mut captured: Vec<(String, ExprValue)> = Vec::new();
        let mut i: usize = 0;
        while i < self.captured.len()
            invariant
                i <= self.captured@.len(),
                captured@ == self.captured@.take(i as int),
            decreases self.captured@.len() - i,
        {
            captured.push((self.captured[i].0.clone(), self.captured[i].1));
            proof {
                assert(self.captured@.take(i + 1) =~= self.captured@.take(i as int).push(
                    self.captured@[i as int],
                ));
            }
            i = i + 1;
        }
        proof {
            assert(self.captured@.take(self.captured@.len() as int) =~= self.captured@);
        }
        Lambda { params, param_bit_lengths, body: self.body.clone(), captured }
    }
}

} // verus!
