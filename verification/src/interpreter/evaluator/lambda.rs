use vstd::prelude::*;

use crate::engine::black_box::{Lambda, LambdaModel, frame_values, lambda_model};
use crate::engine::register_error::{RegisterError, RegisterErrorView, register_result_view};
use crate::interpreter::evaluator::Evaluator;
use crate::interpreter::evaluator::environment::Bits;
use crate::interpreter::evaluator::eval_expr::{
    ExprValue,
    Scope,
    env_lookup,
    eval_in,
    frame_lookup,
    spec_eval_with,
};
use crate::interpreter::evaluator::runtime_error::{decimal, decimal_text, message_of};
use crate::interpreter::parser::ast_types as ast;

verus! {

/// The bindings of a call: each parameter bound to its argument, as a
/// bitstring as wide as the parameter's width.
pub open spec fn param_frame(params: Seq<String>, widths: Seq<usize>, args: Seq<usize>) -> Seq<
    (String, ExprValue),
> {
    Seq::new(
        params.len(),
        |i: int| (params[i], ExprValue::Bits(Bits { literal: args[i], length: widths[i] })),
    )
}

/// The value each name has inside a call: a parameter's argument, or else
/// what the name had where the function was made.
pub open spec fn call_values(m: LambdaModel, args: Seq<usize>) -> spec_fn(Seq<char>) -> Option<
    ExprValue,
> {
    |name: Seq<char>|
        match frame_lookup(param_frame(m.0, m.1, args), name) {
            Some(v) => Some(v),
            None => (m.3)(name),
        }
}

/// The message of a call with the wrong number of arguments.
pub open spec fn arity_message(expected: usize, got: usize) -> Seq<char> {
    "expected "@ + decimal(expected) + " arguments, got "@ + decimal(got)
}

/// What calling a function on `args` gives: the value of its body, which
/// must be a bitstring, with the parameters bound to the arguments; a
/// failure with a message when the number of arguments is wrong, the body
/// is not a bitstring, or its evaluation fails.
pub open spec fn spec_call(m: LambdaModel, args: Seq<usize>) -> Result<usize, RegisterErrorView> {
    if args.len() != m.0.len() {
        Err(
            RegisterErrorView::RunTimeFailure(
                Some(arity_message(m.0.len() as usize, args.len() as usize)),
            ),
        )
    } else {
        match spec_eval_with(m.2, call_values(m, args)) {
            Ok(ExprValue::Bits(b)) => Ok(b.literal),
            Ok(_) => Err(
                RegisterErrorView::RunTimeFailure(Some("function did not return a bits value"@)),
            ),
            Err(e) => Err(RegisterErrorView::RunTimeFailure(Some(message_of(e)))),
        }
    }
}

/// A name's last binding in a frame is the one found; a name bound nowhere
/// in it is not found.
pub proof fn lemma_frame_lookup_last(frame: Seq<(String, ExprValue)>, name: Seq<char>, i: int)
    requires
        -1 <= i < frame.len(),
        i >= 0 ==> frame[i].0@ == name,
        forall|j: int| i < j < frame.len() ==> #[trigger] frame[j].0@ != name,
    ensures
        frame_lookup(frame, name) == if i >= 0 {
            Some(frame[i].1)
        } else {
            None
        },
    decreases frame.len(),
{
    if frame.len() > 0 && i < frame.len() - 1 {
        let shorter = frame.drop_last();
        assert(frame.last().0@ != name);
        assert forall|j: int| i < j < shorter.len() implies #[trigger] shorter[j].0@ != name by {
            assert(shorter[j] == frame[j]);
        }
        lemma_frame_lookup_last(shorter, name, i);
        if i >= 0 {
            assert(shorter[i] == frame[i]);
        }
    }
}

/// Inside a call, a parameter has its argument as a bitstring of the
/// parameter's width (the last parameter of that name, when names repeat),
/// and every name that is no parameter has the value it had where the
/// function was made.
pub proof fn lemma_call_values(m: LambdaModel, args: Seq<usize>, name: Seq<char>)
    requires
        args.len() == m.0.len(),
        m.0.len() <= m.1.len(),
    ensures
        forall|i: int|
            0 <= i < m.0.len() && m.0[i]@ == name && (forall|j: int| i < j < m.0.len() ==> m.0[j]@ != name)
                ==> call_values(m, args)(name) == Some(
                ExprValue::Bits(Bits { literal: args[i], length: m.1[i] }),
            ),
        (forall|j: int| 0 <= j < m.0.len() ==> m.0[j]@ != name) ==> call_values(m, args)(name) == (m.3)(name),
{
    let frame = param_frame(m.0, m.1, args);
    assert forall|i: int|
        0 <= i < m.0.len() && m.0[i]@ == name && (forall|j: int| i < j < m.0.len() ==> m.0[j]@ != name)
        implies call_values(m, args)(name) == Some(
        ExprValue::Bits(Bits { literal: args[i], length: m.1[i] }),
    ) by {
        assert forall|j: int| i < j < frame.len() implies #[trigger] frame[j].0@ != name by {
            assert(frame[j].0 == m.0[j]);
        }
        lemma_frame_lookup_last(frame, name, i);
    }
    if forall|j: int| 0 <= j < m.0.len() ==> m.0[j]@ != name {
        assert forall|j: int| -1 < j < frame.len() implies #[trigger] frame[j].0@ != name by {
            assert(frame[j].0 == m.0[j]);
        }
        lemma_frame_lookup_last(frame, name, -1);
    }
}

impl Lambda {
    /// Calls the function on `args`: binds each parameter to its argument
    /// and evaluates the body, where every other name has the value it had
    /// when the function was made.
    pub fn call(&self, args: Vec<usize>) -> (r: Result<usize, RegisterError>)
        requires
            args.len() == self.params.len() ==> self.params.len() <= self.param_bit_lengths.len(),
        ensures
            register_result_view(r) == spec_call(lambda_model(*self), args@),
    {
        if args.len() != self.params.len() {
            let mut msg: String = String::from_str("expected ");
            let e: String = decimal_text(self.params.len());
            msg.append(e.as_str());
            msg.append(" arguments, got ");
            let g: String = decimal_text(args.len());
            msg.append(g.as_str());
            return Err(RegisterError::RunTimeFailure(Some(msg)));
        }
        let ghost expected = param_frame(self.params@, self.param_bit_lengths@, args@);
        let mut frame: Vec<(String, ExprValue)> = Vec::new();
        let mut i: usize = 0;
        while i < self.params.len()
            invariant
                args@.len() == self.params@.len(),
                self.params@.len() <= self.param_bit_lengths@.len(),
                i <= self.params@.len(),
                expected == param_frame(self.params@, self.param_bit_lengths@, args@),
                frame@ == expected.take(i as int),
            decreases self.params@.len() - i,
        {
            let bits: Bits = Bits { literal: args[i], length: self.param_bit_lengths[i] };
            frame.push((self.params[i].clone(), ExprValue::Bits(bits)));
            proof {
                assert(expected.take(i + 1) =~= expected.take(i as int).push(expected[i as int]));
            }
            i = i + 1;
        }
        proof {
            assert(expected.take(expected.len() as int) =~= expected);
        }
        let scope: Scope = Scope::Frame(&frame, &self.captured);
        proof {
            assert(scope.lookup_fn() =~= call_values(lambda_model(*self), args@));
        }
        match eval_in(&self.body, &scope) {
            Ok(ExprValue::Bits(b)) => Ok(b.literal),
            Ok(_) => Err(
                RegisterError::RunTimeFailure(
                    Some(String::from_str("function did not return a bits value")),
                ),
            ),
            Err(err) => Err(RegisterError::RunTimeFailure(Some(err.message()))),
        }
    }
}

impl Evaluator {
    /// Given a function and its specifications, produce the `Lambda` that
    /// oracle operators load: the function's body, its parameter names, the
    /// number of bits each parameter is given, and the values the names of
    /// the current scope have now.
    pub fn function_to_lambda(
        &self,
        func: &ast::Expr,
        params: &[String],
        param_bit_lengths: &[usize],
    ) -> (l: Lambda)
        ensures
            lambda_model(l) == (params@, param_bit_lengths@, *func, env_lookup(self.spec_env())),
    {
        let func: ast::Expr = func.clone();
        let mut names: Vec<String> = Vec::new();
        let mut i: usize = 0;
        while i < params.len()
            invariant
                i <= params@.len(),
                names@ == params@.take(i as int),
            decreases params@.len() - i,
        {
            names.push(params[i].clone());
            proof {
                assert(params@.take(i + 1) =~= params@.take(i as int).push(params@[i as int]));
            }
            i = i + 1;
        }
        let mut widths: Vec<usize> = Vec::new();
        let mut j: usize = 0;
        while j < param_bit_lengths.len()
            invariant
                j <= param_bit_lengths@.len(),
                widths@ == param_bit_lengths@.take(j as int),
            decreases param_bit_lengths@.len() - j,
        {
            widths.push(param_bit_lengths[j]);
            proof {
                assert(param_bit_lengths@.take(j + 1) =~= param_bit_lengths@.take(j as int).push(
                    param_bit_lengths@[j as int],
                ));
            }
            j = j + 1;
        }
        proof {
            assert(params@.take(params@.len() as int) =~= params@);
            assert(param_bit_lengths@.take(param_bit_lengths@.len() as int) =~= param_bit_lengths@);
        }
        let captured: Vec<(String, ExprValue)> = self.environment().visible_values();
        proof {
            assert(frame_values(captured@) =~= env_lookup(self.spec_env()));
        }
        Lambda { params: names, param_bit_lengths: widths, body: func, captured }
    }
}

} // verus!
