use vstd::prelude::*;

verus! {

/// Errors raised by the circuit engine.
#[derive(Clone, Debug, PartialEq, Eq)]
pub enum RegisterError {
    /// An operator could not be drawn on the wires of its circuit.
    RenderFailed,
    /// The classical function of an oracle failed when called, with a
    /// message saying why.
    RunTimeFailure(Option<String>),
}

/// An engine error with its message taken by its characters.
pub enum RegisterErrorView {
    RenderFailed,
    RunTimeFailure(Option<Seq<char>>),
}

impl View for RegisterError {
    type V = RegisterErrorView;

    open spec fn view(&self) -> RegisterErrorView {
        match self {
            RegisterError::RenderFailed => RegisterErrorView::RenderFailed,
            RegisterError::RunTimeFailure(None) => RegisterErrorView::RunTimeFailure(None),
            RegisterError::RunTimeFailure(Some(m)) => RegisterErrorView::RunTimeFailure(Some(m@)),
        }
    }
}

/// A result with its engine error taken by its view.
pub open spec fn register_result_view<T>(r: Result<T, RegisterError>) -> Result<T, RegisterErrorView> {
    match r {
        Ok(v) => Ok(v),
        Err(e) => Err(e@),
    }
}

} // verus!
