# qlang

The verified core of `qlang`, a small language for building and drawing
quantum circuits.

- `src/engine`: gates and their arities, oracle shapes, operators (a gate and
  the qubits it applies to), circuits, and the drawing of a circuit as one
  line of text per qubit.
- `src/interpreter/lexer`: token types.
- `src/interpreter/parser`: the syntax the evaluator reads.
- `src/interpreter/evaluator`: scopes, classical expressions on bitstrings,
  the classical functions oracles load (with the values of the scope they
  were made in) and their calls, and the evaluation of each statement of a
  program: assignments, function, oracle and circuit declarations, and
  method calls on circuits.
- `app`: the loop over a program's statements and the output of method calls;
  running a circuit takes a state-vector engine supplied by the caller.
- `tests`: tests of the library.

Every function in `src` carries a contract proved by Verus; the only
contracts it takes on trust are vstd's own specifications of std. The laws of the
library (how names resolve after a binding, what a parameter and every other name
denote inside a call, that a register name denotes its
qubits one by one, that declared circuits stay inside their register, that
drawn wires are evenly placed) are proof functions next to the code they
speak of.
