use vstd::prelude::*;

verus! {

/// Errors raised while evaluating a program.
#[derive(Debug, Clone, PartialEq, Eq)]
pub enum RuntimeError {
    /// A value of one kind was found where another was expected.
    TypeMismatch,
    /// The name is bound to nothing.
    VarNotFound(String),
    /// A declaration has the wrong number of parameters: expected, found.
    IncorrectArgs(usize, usize),
    /// An oracle, or a gate applied to the wrong number of qubits, could not
    /// be built.
    OracleConstructionFailed,
    /// An index past the end of a qubit register: its name and the index.
    OutOfBounds(String, usize),
    /// A method that circuits do not have.
    MethodUndefined(String),
    /// A state the evaluator should never reach.
    Fatal,
}

/// A runtime error with each name taken by its characters.
pub enum RuntimeErrorView {
    TypeMismatch,
    VarNotFound(Seq<char>),
    IncorrectArgs(usize, usize),
    OracleConstructionFailed,
    OutOfBounds(Seq<char>, usize),
    MethodUndefined(Seq<char>),
    Fatal,
}

impl View for RuntimeError {
    type V = RuntimeErrorView;

    open spec fn view(&self) -> RuntimeErrorView {
        match self {
            RuntimeError::TypeMismatch => RuntimeErrorView::TypeMismatch,
            RuntimeError::VarNotFound(s) => RuntimeErrorView::VarNotFound(s@),
            RuntimeError::IncorrectArgs(a, b) => RuntimeErrorView::IncorrectArgs(*a, *b),
            RuntimeError::OracleConstructionFailed => RuntimeErrorView::OracleConstructionFailed,
            RuntimeError::OutOfBounds(s, n) => RuntimeErrorView::OutOfBounds(s@, *n),
            RuntimeError::MethodUndefined(s) => RuntimeErrorView::MethodUndefined(s@),
            RuntimeError::Fatal => RuntimeErrorView::Fatal,
        }
    }
}

/// A result with its error taken by its view.
pub open spec fn result_view<T>(r: Result<T, RuntimeError>) -> Result<T, RuntimeErrorView> {
    match r {
        Ok(v) => Ok(v),
        Err(e) => Err(e@),
    }
}

/// The character of a decimal digit.
pub open spec fn digit_char(d: usize) -> char {
    seq!['0', '1', '2', '3', '4', '5', '6', '7', '8', '9'][d as int]
}

/// The decimal digits of a number, most significant first, with no leading
/// zero: the text `usize`'s `Display` writes.
pub open spec fn decimal(n: usize) -> Seq<char>
    decreases n,
{
    if n < 10 {
        seq![digit_char(n)]
    } else {
        decimal((n / 10) as usize).push(digit_char((n % 10) as usize))
    }
}

/// The one-character text of a decimal digit.
fn digit_str(d: usize) -> (s: &'static str)
    requires
        d < 10,
    ensures
        s@ == seq![digit_char(d)],
{
    proof {
        reveal_strlit("0");
        reveal_strlit("1");
        reveal_strlit("2");
        reveal_strlit("3");
        reveal_strlit("4");
        reveal_strlit("5");
        reveal_strlit("6");
        reveal_strlit("7");
        reveal_strlit("8");
        reveal_strlit("9");
    }
    let s: &'static str = match d {
        0 => "0",
        1 => "1",
        2 => "2",
        3 => "3",
        4 => "4",
        5 => "5",
        6 => "6",
        7 => "7",
        8 => "8",
        _ => "9",
    };
    assert(s@ =~= seq![digit_char(d)]);
    s
}

/// The decimal text of a number.
pub fn decimal_text(n: usize) -> (s: String)
    ensures
        s@ == decimal(n),
    decreases n,
{
    if n < 10 {
        String::from_str(digit_str(n))
    } else {
        let mut s: String = decimal_text(n / 10);
        s.append(digit_str(n % 10));
        s
    }
}

/// The message that describes an error.
pub open spec fn message_of(e: RuntimeErrorView) -> Seq<char> {
    match e {
        RuntimeErrorView::TypeMismatch => "type mismatch"@,
        RuntimeErrorView::VarNotFound(name) => "variable not found: "@ + name,
        RuntimeErrorView::IncorrectArgs(expected, found) => "incorrect number of arguments: expected "@
            + decimal(expected) + ", found "@ + decimal(found),
        RuntimeErrorView::OracleConstructionFailed => "oracle construction failed"@,
        RuntimeErrorView::OutOfBounds(name, index) => "index "@ + decimal(index)
            + " is out of bounds for register "@ + name,
        RuntimeErrorView::MethodUndefined(name) => "undefined method: "@ + name,
        RuntimeErrorView::Fatal => "fatal error"@,
    }
}

impl RuntimeError {
    /// The message that describes the error.
    pub fn message(&self) -> (s: String)
        ensures
            s@ == message_of(self@),
    {
        match self {
            RuntimeError::TypeMismatch => String::from_str("type mismatch"),
            RuntimeError::VarNotFound(name) => {
                let mut s: String = String::from_str("variable not found: ");
                s.append(name.as_str());
                s
            },
            RuntimeError::IncorrectArgs(expected, found) => {
                let mut s: String = String::from_str("incorrect number of arguments: expected ");
                let e: String = decimal_text(*expected);
                s.append(e.as_str());
                s.append(", found ");
                let f: String = decimal_text(*found);
                s.append(f.as_str());
                s
            },
            RuntimeError::OracleConstructionFailed => String::from_str("oracle construction failed"),
            RuntimeError::OutOfBounds(name, index) => {
                let mut s: String = String::from_str("index ");
                let i: String = decimal_text(*index);
                s.append(i.as_str());
                s.append(" is out of bounds for register ");
                s.append(name.as_str());
                s
            },
            RuntimeError::MethodUndefined(name) => {
                let mut s: String = String::from_str("undefined method: ");
                s.append(name.as_str());
                s
            },
            RuntimeError::Fatal => String::from_str("fatal error"),
        }
    }
}

} // verus!
