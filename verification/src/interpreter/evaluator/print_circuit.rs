use vstd::prelude::*;

use crate::engine::circuit::{renderable, rendered_wire};
use crate::interpreter::evaluator::environment::Circuit;
use crate::interpreter::evaluator::runtime_error::RuntimeError;

verus! {

impl Circuit {
    /// The lines that draw the circuit, one per qubit; a circuit with an
    /// operator that cannot be drawn on its wires is a `Fatal` error.
    pub fn render_wires(&self, spaces: usize) -> (r: Result<Vec<String>, RuntimeError>)
        ensures
            r is Ok <==> renderable(self.circuit.spec_init(), self.circuit.spec_ops()),
            r matches Err(e) ==> e == RuntimeError::Fatal,
            r matches Ok(wires) ==> {
                &&& wires@.len() == self.circuit.spec_init().len()
                &&& forall|i: int|
                    0 <= i < wires@.len() ==> #[trigger] wires@[i]@ == rendered_wire(
                        self.circuit.spec_init(),
                        self.circuit.spec_ops(),
                        i,
                        spaces as nat,
                    )
            },
    {
        match self.circuit.render_wires(spaces) {
            Ok(wires) => Ok(wires),
            Err(_) => Err(RuntimeError::Fatal),
        }
    }
}

} // verus!
