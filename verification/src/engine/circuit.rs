use vstd::prelude::*;

use std::collections::HashMap;

use crate::engine::gate::Gate;
use crate::engine::operator::Operator;
use crate::engine::register_error::RegisterError;

verus! {

broadcast use vstd::std_specs::hash::group_hash_axioms;

// ----- SPECIFICATION OF THE RENDERING -----

/// The symbols drawn for a gate, one per target qubit, in target order.
pub open spec fn gate_glyphs(g: Gate) -> Seq<Seq<char>> {
    match g {
        Gate::Hadamard => seq!["H"@],
        Gate::RotateX => seq!["X"@],
        Gate::RotateY => seq!["Y"@],
        Gate::RotateZ => seq!["Z"@],
        Gate::ShiftS => seq!["S"@],
        Gate::ShiftT => seq!["T"@],
        Gate::CNot => seq!["*"@, "X"@],
        Gate::CZ => seq!["*"@, "Z"@],
        Gate::Swap => seq!["Sw"@, "Sw"@],
        Gate::BlackBox(b) => Seq::new(b.spec_input_size() as nat, |i: int| "Bx"@) + Seq::new(
            b.spec_output_size() as nat,
            |i: int| "By"@,
        ),
        Gate::Toffoli => seq!["*"@, "*"@, "X"@],
        Gate::CSwap => seq!["*"@, "*"@, "X"@],
        Gate::Measure(n) => Seq::new(n as nat, |i: int| "M"@),
    }
}

/// A one-character symbol is padded with a dash, so that every cell of a
/// wire has the same width.
pub open spec fn pad_glyph(s: Seq<char>) -> Seq<char> {
    if s.len() == 1 {
        s + "-"@
    } else {
        s
    }
}

/// The padded symbols of a gate.
pub open spec fn padded_glyphs(g: Gate) -> Seq<Seq<char>> {
    gate_glyphs(g).map_values(|s: Seq<char>| pad_glyph(s))
}

/// The characters of each string.
pub open spec fn string_views(v: Seq<String>) -> Seq<Seq<char>> {
    v.map_values(|s: String| s@)
}

/// The characters of each string of a table.
pub open spec fn table_view(t: Map<usize, String>) -> Map<usize, Seq<char>> {
    t.map_values(|s: String| s@)
}

/// Binds `applies[j]` to `glyphs[j]` for each `j` in turn; a later target
/// overrides an earlier one on the same qubit.
pub open spec fn symbol_table(applies: Seq<usize>, glyphs: Seq<Seq<char>>) -> Map<
    usize,
    Seq<char>,
>
    decreases applies.len(),
{
    if applies.len() == 0 {
        Map::empty()
    } else {
        symbol_table(applies.drop_last(), glyphs).insert(
            applies.last(),
            glyphs[applies.len() - 1],
        )
    }
}

/// The symbols an operator draws, keyed by qubit.
pub open spec fn op_table(op: Operator) -> Map<usize, Seq<char>> {
    symbol_table(op.spec_applies(), padded_glyphs(op.spec_gate()))
}

/// An operator can be drawn on `circuit_size` wires: it has one symbol per
/// target and every target is below `circuit_size`.
pub open spec fn drawable(op: Operator, circuit_size: usize) -> bool {
    &&& op.spec_applies().len() == padded_glyphs(op.spec_gate()).len()
    &&& forall|j: int| 0 <= j < op.spec_applies().len() ==> op.spec_applies()[j] < circuit_size
}

/// The number of bytes of the UTF-8 encoding of a register pattern.
pub open spec fn byte_len(init: Seq<char>) -> usize {
    vstd::utf8::encode_utf8(init).len() as usize
}

/// The start of the wire of a qubit that starts in state `c`: `|c> `.
pub open spec fn wire_prefix(c: char) -> Seq<char> {
    "|"@ + seq![c] + "> "@
}

/// `n` dashes.
pub open spec fn dashes(n: nat) -> Seq<char>
    decreases n,
{
    if n == 0 {
        Seq::empty()
    } else {
        dashes((n - 1) as nat) + "-"@
    }
}

/// What an operator draws on wire `i`: its symbol there, or `--`.
pub open spec fn cell(t: Map<usize, Seq<char>>, i: usize) -> Seq<char> {
    if t.contains_key(i) {
        t[i]
    } else {
        "--"@
    }
}

/// What a sequence of operators draws on wire `i`, each cell followed by
/// `spaces` dashes.
pub open spec fn wire_body(ops: Seq<Operator>, i: usize, spaces: nat) -> Seq<char>
    decreases ops.len(),
{
    if ops.len() == 0 {
        Seq::empty()
    } else {
        wire_body(ops.drop_last(), i, spaces) + cell(op_table(ops.last()), i) + dashes(spaces)
    }
}

/// Wire `i` of the drawing of a circuit.
pub open spec fn rendered_wire(init: Seq<char>, ops: Seq<Operator>, i: int, spaces: nat) -> Seq<
    char,
> {
    wire_prefix(init[i]) + wire_body(ops, i as usize, spaces)
}

/// Every operator of the circuit can be drawn on its wires.
pub open spec fn renderable(init: Seq<char>, ops: Seq<Operator>) -> bool {
    forall|k: int| 0 <= k < ops.len() ==> drawable(#[trigger] ops[k], byte_len(init))
}

// ----- LAWS OF THE RENDERING -----

/// The cells a gate draws, one per target in target order, each two
/// characters wide.
pub open spec fn drawn_cells(g: Gate) -> Seq<Seq<char>> {
    match g {
        Gate::Hadamard => seq!["H-"@],
        Gate::RotateX => seq!["X-"@],
        Gate::RotateY => seq!["Y-"@],
        Gate::RotateZ => seq!["Z-"@],
        Gate::ShiftS => seq!["S-"@],
        Gate::ShiftT => seq!["T-"@],
        Gate::CNot => seq!["*-"@, "X-"@],
        Gate::CZ => seq!["*-"@, "Z-"@],
        Gate::Swap => seq!["Sw"@, "Sw"@],
        Gate::BlackBox(b) => Seq::new(b.spec_input_size() as nat, |i: int| "Bx"@) + Seq::new(
            b.spec_output_size() as nat,
            |i: int| "By"@,
        ),
        Gate::Toffoli => seq!["*-"@, "*-"@, "X-"@],
        Gate::CSwap => seq!["*-"@, "*-"@, "X-"@],
        Gate::Measure(n) => Seq::new(n as nat, |i: int| "M-"@),
    }
}

/// The padded symbols of every gate are its fixed cells: `H-`, `X-`, `Y-`,
/// `Z-`, `S-`, `T-` for the one-qubit gates, `*-` on each control and `X-`
/// or `Z-` on the target of CNOT, CZ, CCNOT and CSWAP, `Sw` on both qubits of
/// SWAP, `M-` on each measured qubit, and `Bx` / `By` on the input / output
/// qubits of an oracle.
pub proof fn lemma_gate_cells(g: Gate)
    ensures
        padded_glyphs(g) == drawn_cells(g),
{
    broadcast use vstd::string::group_string_axioms;

    reveal_strlit("-");
    reveal_strlit("H");
    reveal_strlit("X");
    reveal_strlit("Y");
    reveal_strlit("Z");
    reveal_strlit("S");
    reveal_strlit("T");
    reveal_strlit("*");
    reveal_strlit("M");
    reveal_strlit("Sw");
    reveal_strlit("Bx");
    reveal_strlit("By");
    reveal_strlit("H-");
    reveal_strlit("X-");
    reveal_strlit("Y-");
    reveal_strlit("Z-");
    reveal_strlit("S-");
    reveal_strlit("T-");
    reveal_strlit("*-");
    reveal_strlit("M-");
    assert("H"@ + "-"@ =~= "H-"@);
    assert("X"@ + "-"@ =~= "X-"@);
    assert("Y"@ + "-"@ =~= "Y-"@);
    assert("Z"@ + "-"@ =~= "Z-"@);
    assert("S"@ + "-"@ =~= "S-"@);
    assert("T"@ + "-"@ =~= "T-"@);
    assert("*"@ + "-"@ =~= "*-"@);
    assert("M"@ + "-"@ =~= "M-"@);
    assert(padded_glyphs(g) =~= drawn_cells(g));
}

/// Binding targets that are all different, each target gets its own symbol.
proof fn lemma_symbol_table_distinct(applies: Seq<usize>, glyphs: Seq<Seq<char>>, j: int)
    requires
        0 <= j < applies.len(),
        applies.len() <= glyphs.len(),
        forall|a: int, b: int| 0 <= a < b < applies.len() ==> applies[a] != applies[b],
    ensures
        symbol_table(applies, glyphs).contains_key(applies[j]),
        symbol_table(applies, glyphs)[applies[j]] == glyphs[j],
    decreases applies.len(),
{
    if j < applies.len() - 1 {
        let shorter = applies.drop_last();
        lemma_symbol_table_distinct(shorter, glyphs, j);
        assert(shorter[j] == applies[j]);
        assert(applies[j] != applies.last());
    }
}

/// An operator on distinct qubits draws, on the wire of its `j`-th target,
/// the `j`-th cell of its gate: a CZ on `[a, b]` draws `*-` on wire `a` and
/// `Z-` on wire `b`, a CCNOT on `[a, b, c]` draws `*-`, `*-`, `X-`.
pub proof fn lemma_op_cells(op: Operator, j: int)
    requires
        0 <= j < op.spec_applies().len(),
        op.spec_applies().len() == drawn_cells(op.spec_gate()).len(),
        forall|a: int, b: int|
            0 <= a < b < op.spec_applies().len() ==> op.spec_applies()[a] != op.spec_applies()[b],
    ensures
        cell(op_table(op), op.spec_applies()[j]) == drawn_cells(op.spec_gate())[j],
{
    lemma_gate_cells(op.spec_gate());
    lemma_symbol_table_distinct(op.spec_applies(), padded_glyphs(op.spec_gate()), j);
}


/// `n` dashes are `n` characters.
pub proof fn lemma_dashes_len(n: nat)
    ensures
        dashes(n).len() == n,
    decreases n,
{
    broadcast use vstd::string::group_string_axioms;

    reveal_strlit("-");
    if n > 0 {
        lemma_dashes_len((n - 1) as nat);
    }
}

/// Every padded symbol of a gate is two characters wide.
pub proof fn lemma_padded_glyphs_width(g: Gate)
    ensures
        forall|j: int| 0 <= j < padded_glyphs(g).len() ==> #[trigger] padded_glyphs(g)[j].len() == 2,
{
    broadcast use vstd::string::group_string_axioms;

    reveal_strlit("H");
    reveal_strlit("X");
    reveal_strlit("Y");
    reveal_strlit("Z");
    reveal_strlit("S");
    reveal_strlit("T");
    reveal_strlit("*");
    reveal_strlit("Sw");
    reveal_strlit("Bx");
    reveal_strlit("By");
    reveal_strlit("M");
    reveal_strlit("-");
    assert forall|j: int| 0 <= j < gate_glyphs(g).len() implies 1 <= #[trigger] gate_glyphs(
        g,
    )[j].len() <= 2 by {
        match g {
            Gate::BlackBox(b) => {
                let x = Seq::new(b.spec_input_size() as nat, |i: int| "Bx"@);
                let y = Seq::new(b.spec_output_size() as nat, |i: int| "By"@);
                if j < x.len() {
                    assert((x + y)[j] == x[j]);
                } else {
                    assert((x + y)[j] == y[j - x.len()]);
                }
            },
            _ => {},
        }
    }
}

/// Every symbol of a table built from two-character symbols, no more targets
/// than symbols, is two characters wide.
proof fn lemma_symbol_table_width(applies: Seq<usize>, glyphs: Seq<Seq<char>>)
    requires
        applies.len() <= glyphs.len(),
        forall|j: int| 0 <= j < glyphs.len() ==> #[trigger] glyphs[j].len() == 2,
    ensures
        forall|k: usize| #[trigger]
            symbol_table(applies, glyphs).contains_key(k) ==> symbol_table(applies, glyphs)[k].len()
                == 2,
    decreases applies.len(),
{
    if applies.len() > 0 {
        lemma_symbol_table_width(applies.drop_last(), glyphs);
        assert(glyphs[applies.len() - 1].len() == 2);
        let prev = symbol_table(applies.drop_last(), glyphs);
        assert(symbol_table(applies, glyphs) == prev.insert(
            applies.last(),
            glyphs[applies.len() - 1],
        ));
        assert forall|k: usize| #[trigger]
            symbol_table(applies, glyphs).contains_key(k) implies symbol_table(applies, glyphs)[k].len()
            == 2 by {
            if k != applies.last() {
                assert(prev.contains_key(k));
            }
        }
    }
}

/// Every cell a drawable operator draws is two characters wide.
pub proof fn lemma_cell_width(op: Operator, circuit_size: usize, i: usize)
    requires
        drawable(op, circuit_size),
    ensures
        cell(op_table(op), i).len() == 2,
{
    broadcast use vstd::string::group_string_axioms;

    reveal_strlit("--");
    lemma_padded_glyphs_width(op.spec_gate());
    lemma_symbol_table_width(op.spec_applies(), padded_glyphs(op.spec_gate()));
}

/// The wires of a drawable circuit are evenly placed: each is four characters
/// for the initial state of its qubit, then `2 + spaces` characters for each
/// operator.
pub proof fn lemma_wires_evenly_placed(init: Seq<char>, ops: Seq<Operator>, i: int, spaces: nat)
    requires
        renderable(init, ops),
        0 <= i < init.len(),
    ensures
        rendered_wire(init, ops, i, spaces).len() == 4 + ops.len() * (2 + spaces),
    decreases ops.len(),
{
    broadcast use vstd::string::group_string_axioms;

    reveal_strlit("|");
    reveal_strlit("> ");
    lemma_wire_body_len(init, ops, i as usize, spaces);
}

proof fn lemma_wire_body_len(init: Seq<char>, ops: Seq<Operator>, i: usize, spaces: nat)
    requires
        renderable(init, ops),
    ensures
        wire_body(ops, i, spaces).len() == ops.len() * (2 + spaces),
    decreases ops.len(),
{
    if ops.len() > 0 {
        let rest = ops.drop_last();
        assert forall|k: int| 0 <= k < rest.len() implies drawable(
            #[trigger] rest[k],
            byte_len(init),
        ) by {
            assert(rest[k] == ops[k]);
        }
        lemma_wire_body_len(init, rest, i, spaces);
        assert(drawable(ops[ops.len() - 1], byte_len(init)));
        lemma_cell_width(ops.last(), byte_len(init), i);
        lemma_dashes_len(spaces);
        let n = ops.len() as int;
        assert((n - 1) * (2 + spaces) + 2 + spaces == n * (2 + spaces)) by (nonlinear_arith);
    }
}

/// In the body of a wire, operator `k` occupies the `2 + spaces` characters
/// from `k * (2 + spaces)`: its cell on that wire, then `spaces` dashes.
proof fn lemma_wire_body_cells(init: Seq<char>, ops: Seq<Operator>, i: usize, spaces: nat, k: int)
    requires
        renderable(init, ops),
        0 <= k < ops.len(),
    ensures
        wire_body(ops, i, spaces).subrange(k * (2 + spaces), k * (2 + spaces) + 2) == cell(op_table(ops[k]), i),
        wire_body(ops, i, spaces).subrange(k * (2 + spaces) + 2, (k + 1) * (2 + spaces)) == dashes(spaces),
    decreases ops.len(),
{
    let rest = ops.drop_last();
    let n = ops.len() as int;
    assert forall|j: int| 0 <= j < rest.len() implies drawable(#[trigger] rest[j], byte_len(init)) by {
        assert(rest[j] == ops[j]);
    }
    assert(drawable(ops[n - 1], byte_len(init)));
    lemma_wire_body_len(init, rest, i, spaces);
    lemma_cell_width(ops.last(), byte_len(init), i);
    lemma_dashes_len(spaces);
    let body = wire_body(ops, i, spaces);
    let prev = wire_body(rest, i, spaces);
    assert(body == prev + cell(op_table(ops.last()), i) + dashes(spaces));
    assert((n - 1) * (2 + spaces) + 2 + spaces == n * (2 + spaces)) by (nonlinear_arith);
    if k < n - 1 {
        lemma_wire_body_cells(init, rest, i, spaces, k);
        assert(rest[k] == ops[k]);
        assert((k + 1) * (2 + spaces) <= (n - 1) * (2 + spaces)) by (nonlinear_arith)
            requires
                k + 1 <= n - 1,
        ;
        assert(k * (2 + spaces) + 2 + spaces == (k + 1) * (2 + spaces)) by (nonlinear_arith);
        assert(0 <= k * (2 + spaces)) by (nonlinear_arith)
            requires
                k >= 0,
        ;
        assert(body.subrange(k * (2 + spaces), k * (2 + spaces) + 2) =~= prev.subrange(
            k * (2 + spaces),
            k * (2 + spaces) + 2,
        ));
        assert(body.subrange(k * (2 + spaces) + 2, (k + 1) * (2 + spaces)) =~= prev.subrange(
            k * (2 + spaces) + 2,
            (k + 1) * (2 + spaces),
        ));
    } else {
        assert(k * (2 + spaces) == prev.len());
        assert(body.subrange(k * (2 + spaces), k * (2 + spaces) + 2) =~= cell(op_table(ops[k]), i));
        assert(body.subrange(k * (2 + spaces) + 2, (k + 1) * (2 + spaces)) =~= dashes(spaces));
    }
}

/// Wire `i` of a drawable circuit reads `|c> `, `c` the initial state of
/// qubit `i`, then for each operator in order its cell on that wire (its
/// symbol there, `--` when it does not touch the qubit) followed by
/// `spaces` dashes.
pub proof fn lemma_wire_layout(init: Seq<char>, ops: Seq<Operator>, i: int, spaces: nat, k: int)
    requires
        renderable(init, ops),
        0 <= i < init.len(),
        0 <= k < ops.len(),
    ensures
        rendered_wire(init, ops, i, spaces).subrange(0, 4) == seq!['|', init[i], '>', ' '],
        rendered_wire(init, ops, i, spaces).subrange(4 + k * (2 + spaces), 4 + k * (2 + spaces) + 2) == cell(
            op_table(ops[k]),
            i as usize,
        ),
        rendered_wire(init, ops, i, spaces).subrange(4 + k * (2 + spaces) + 2, 4 + (k + 1) * (2 + spaces))
            == dashes(spaces),
{
    broadcast use vstd::string::group_string_axioms;

    reveal_strlit("|");
    reveal_strlit("> ");
    lemma_wire_body_cells(init, ops, i as usize, spaces, k);
    lemma_wire_body_len(init, ops, i as usize, spaces);
    let w = rendered_wire(init, ops, i, spaces);
    let body = wire_body(ops, i as usize, spaces);
    let pre = wire_prefix(init[i]);
    assert(pre =~= seq!['|', init[i], '>', ' ']);
    assert(w == pre + body);
    assert(0 <= k * (2 + spaces)) by (nonlinear_arith)
        requires
            k >= 0,
    ;
    assert((k + 1) * (2 + spaces) <= ops.len() * (2 + spaces)) by (nonlinear_arith)
        requires
            k + 1 <= ops.len(),
    ;
    assert(k * (2 + spaces) + 2 <= (k + 1) * (2 + spaces)) by (nonlinear_arith);
    assert(w.subrange(0, 4) =~= pre);
    assert(w.subrange(4 + k * (2 + spaces), 4 + k * (2 + spaces) + 2) =~= body.subrange(
        k * (2 + spaces),
        k * (2 + spaces) + 2,
    ));
    assert(w.subrange(4 + k * (2 + spaces) + 2, 4 + (k + 1) * (2 + spaces)) =~= body.subrange(
        k * (2 + spaces) + 2,
        (k + 1) * (2 + spaces),
    ));
}

// ----- CIRCUIT -----

/// A circuit: the initial state of each qubit, one character per qubit, and
/// the operators to apply in order.
#[derive(Debug, Clone)]
pub struct Circuit {
    init: String,
    ops: Vec<Operator>,
}

impl Circuit {
    /// The initial-state pattern.
    pub closed spec fn spec_init(self) -> Seq<char> {
        self.init@
    }

    /// The operators, in order.
    pub closed spec fn spec_ops(self) -> Seq<Operator> {
        self.ops@
    }

    pub fn new(init: String, ops: Vec<Operator>) -> (c: Self)
        ensures
            c.spec_init() == init@,
            c.spec_ops() == ops@,
    {
        Self { init, ops }
    }

    pub fn init(&self) -> (s: &String)
        ensures
            s@ == self.spec_init(),
    {
        &self.init
    }

    pub fn ops(&self) -> (v: &Vec<Operator>)
        ensures
            v@ == self.spec_ops(),
    {
        &self.ops
    }

    /// The lines that draw the circuit, one per qubit: the initial state of
    /// the qubit, then for each operator its symbol on that qubit (or `--`),
    /// followed by `spaces` dashes.
    pub fn render_wires(&self, spaces: usize) -> (r: Result<Vec<String>, RegisterError>)
        ensures
            r is Ok <==> renderable(self.spec_init(), self.spec_ops()),
            r matches Err(e) ==> e == RegisterError::RenderFailed,
            r matches Ok(wires) ==> {
                &&& wires@.len() == self.spec_init().len()
                &&& forall|i: int|
                    0 <= i < wires@.len() ==> #[trigger] wires@[i]@ == rendered_wire(
                        self.spec_init(),
                        self.spec_ops(),
                        i,
                        spaces as nat,
                    )
            },
    {
        let n: usize = self.init.as_str().unicode_len();
        let mut wires: Vec<String> = Vec::new();
        let mut i: usize = 0;
        while i < n
            invariant
                n == self.init@.len(),
                i <= n,
                wires@.len() == i,
                forall|j: int| 0 <= j < i ==> #[trigger] wires@[j]@ == wire_prefix(self.init@[j]),
            decreases n - i,
        {
            let c: &str = self.init.as_str().substring_char(i, i + 1);
            let mut wire: String = String::from_str("|");
            wire.append(c);
            wire.append("> ");
            assert(c@ =~= seq![self.init@[i as int]]);
            wires.push(wire);
            i = i + 1;
        }
        let dash: String = dash_string(spaces);
        let circuit_size: usize = self.init.as_str().len();
        let n_ops: usize = self.ops.len();
        let mut k: usize = 0;
        while k < n_ops
            invariant
                n == self.init@.len(),
                n_ops == self.ops@.len(),
                k <= n_ops,
                circuit_size == byte_len(self.init@),
                dash@ == dashes(spaces as nat),
                wires@.len() == n,
                forall|k2: int| 0 <= k2 < k ==> drawable(#[trigger] self.ops@[k2], circuit_size),
                forall|j: int|
                    0 <= j < n ==> #[trigger] wires@[j]@ == wire_prefix(self.init@[j]) + wire_body(
                        self.ops@.take(k as int),
                        j as usize,
                        spaces as nat,
                    ),
            decreases n_ops - k,
        {
            let op: &Operator = &self.ops[k];
            let symbols: HashMap<usize, String> = match symbols_from_op(op, circuit_size) {
                Ok(t) => t,
                Err(e) => {
                    return Err(e);
                },
            };
            let ghost prev = wires@;
            let mut j: usize = 0;
            while j < n
                invariant
                    n == self.init@.len(),
                    k < n_ops,
                    n_ops == self.ops@.len(),
                    *op == self.ops@[k as int],
                    dash@ == dashes(spaces as nat),
                    table_view(symbols@) == op_table(*op),
                    wires@.len() == n,
                    prev.len() == n,
                    j <= n,
                    forall|j2: int| j <= j2 < n ==> #[trigger] wires@[j2] == prev[j2],
                    forall|j2: int|
                        0 <= j2 < j ==> #[trigger] wires@[j2]@ == prev[j2]@ + cell(
                            op_table(*op),
                            j2 as usize,
                        ) + dashes(spaces as nat),
                decreases n - j,
            {
                let mut wire: String = wires[j].clone();
                match symbols.get(&j) {
                    Some(g) => {
                        assert(table_view(symbols@)[j] == g@);
                        wire.append(g.as_str());
                    },
                    None => {
                        assert(!table_view(symbols@).contains_key(j));
                        wire.append("--");
                    },
                }
                wire.append(dash.as_str());
                wires.set(j, wire);
                j = j + 1;
            }
            proof {
                let ops_next = self.ops@.take(k + 1);
                assert(ops_next.drop_last() =~= self.ops@.take(k as int));
                assert(ops_next.last() == self.ops@[k as int]);
                assert forall|j2: int| 0 <= j2 < n implies #[trigger] wires@[j2]@ == wire_prefix(
                    self.init@[j2],
                ) + wire_body(ops_next, j2 as usize, spaces as nat) by {
                    assert(wires@[j2]@ =~= wire_prefix(self.init@[j2]) + wire_body(
                        ops_next,
                        j2 as usize,
                        spaces as nat,
                    ));
                }
            }
            k = k + 1;
        }
        proof {
            assert(self.ops@.take(n_ops as int) =~= self.ops@);
        }
        Ok(wires)
    }
}

/// `n` dashes, as a string.
fn dash_string(n: usize) -> (s: String)
    ensures
        s@ == dashes(n as nat),
{
    let mut s: String = String::new();
    let mut i: usize = 0;
    while i < n
        invariant
            i <= n,
            s@ == dashes(i as nat),
        decreases n - i,
    {
        s.append("-");
        i = i + 1;
    }
    s
}

/// `n` copies of `glyph`.
fn repeated_glyph(glyph: &str, n: usize) -> (v: Vec<String>)
    ensures
        string_views(v@) == Seq::new(n as nat, |i: int| glyph@),
{
    let mut v: Vec<String> = Vec::new();
    let mut i: usize = 0;
    while i < n
        invariant
            i <= n,
            string_views(v@) =~= Seq::new(i as nat, |i: int| glyph@),
        decreases n - i,
    {
        let ghost old_v = v@;
        let g: String = String::from_str(glyph);
        v.push(g);
        assert(string_views(v@) =~= string_views(old_v).push(g@));
        i = i + 1;
    }
    v
}

/// One string holding `glyph`.
fn single_glyph(glyph: &str) -> (v: Vec<String>)
    ensures
        string_views(v@) == seq![glyph@],
{
    let mut v: Vec<String> = Vec::new();
    v.push(String::from_str(glyph));
    assert(string_views(v@) =~= seq![glyph@]);
    v
}

/// The strings `a`, `b` (and `c`).
fn glyph_list(a: &str, b: &str, c: Option<&str>) -> (v: Vec<String>)
    ensures
        string_views(v@) == match c {
            Some(c) => seq![a@, b@, c@],
            None => seq![a@, b@],
        },
{
    let mut v: Vec<String> = Vec::new();
    v.push(String::from_str(a));
    v.push(String::from_str(b));
    match c {
        Some(c) => {
            v.push(String::from_str(c));
            assert(string_views(v@) =~= seq![a@, b@, c@]);
        },
        None => {
            assert(string_views(v@) =~= seq![a@, b@]);
        },
    }
    v
}

/// The symbols of a gate, unpadded.
fn glyphs_of(g: &Gate) -> (v: Vec<String>)
    ensures
        string_views(v@) == gate_glyphs(*g),
{
    match g {
        Gate::Hadamard => single_glyph("H"),
        Gate::RotateX => single_glyph("X"),
        Gate::RotateY => single_glyph("Y"),
        Gate::RotateZ => single_glyph("Z"),
        Gate::ShiftS => single_glyph("S"),
        Gate::ShiftT => single_glyph("T"),
        Gate::CNot => glyph_list("*", "X", None),
        Gate::CZ => glyph_list("*", "Z", None),
        Gate::Swap => glyph_list("Sw", "Sw", None),
        Gate::BlackBox(b) => {
            let mut x_s: Vec<String> = repeated_glyph("Bx", b.input_size());
            let mut y_s: Vec<String> = repeated_glyph("By", b.output_size());
            let ghost xv = x_s@;
            let ghost yv = y_s@;
            x_s.append(&mut y_s);
            assert(string_views(x_s@) =~= string_views(xv) + string_views(yv));
            x_s
        },
        Gate::Toffoli => glyph_list("*", "*", Some("X")),
        Gate::CSwap => glyph_list("*", "*", Some("X")),
        Gate::Measure(n) => repeated_glyph("M", *n),
    }
}

/// Given an operator, return the table of the symbols it draws, keyed by
/// qubit. For example, a CNOT applied to `[0, 2]` gives `{0: "*-", 2: "X-"}`.
/// Fails when the operator has not one symbol per target, or targets a qubit
/// at or beyond `circuit_size`.
pub fn symbols_from_op(op: &Operator, circuit_size: usize) -> (r: Result<
    HashMap<usize, String>,
    RegisterError,
>)
    ensures
        r is Ok <==> drawable(*op, circuit_size),
        r matches Err(e) ==> e == RegisterError::RenderFailed,
        r matches Ok(t) ==> table_view(t@) == op_table(*op),
{
    let mut table: HashMap<usize, String> = HashMap::new();
    let raw: Vec<String> = glyphs_of(op.gate());

    // pad symbols that aren't length two (so the wires are evenly placed)
    let mut symbols: Vec<String> = Vec::new();
    let mut s: usize = 0;
    while s < raw.len()
        invariant
            s <= raw@.len(),
            string_views(raw@) == gate_glyphs(op.spec_gate()),
            string_views(symbols@) =~= string_views(raw@).take(s as int).map_values(
                |g: Seq<char>| pad_glyph(g),
            ),
        decreases raw@.len() - s,
    {
        let mut symbol: String = raw[s].clone();
        if symbol.as_str().unicode_len() == 1 {
            symbol.append("-");
        }
        assert(symbol@ == pad_glyph(string_views(raw@)[s as int]));
        let ghost old_symbols = symbols@;
        symbols.push(symbol);
        assert(string_views(symbols@) =~= string_views(old_symbols).push(symbol@));
        assert(string_views(raw@).take(s + 1) =~= string_views(raw@).take(s as int).push(
            string_views(raw@)[s as int],
        ));
        s = s + 1;
    }
    assert(string_views(raw@).take(raw@.len() as int) =~= string_views(raw@));
    assert(string_views(symbols@) =~= padded_glyphs(op.spec_gate()));

    // bind symbols to indices
    let applies: &Vec<usize> = op.applies();
    if applies.len() != symbols.len() {
        return Err(RegisterError::RenderFailed);
    }
    let mut i: usize = 0;
    while i < applies.len()
        invariant
            i <= applies@.len(),
            applies@ == op.spec_applies(),
            applies@.len() == symbols@.len(),
            string_views(symbols@) == padded_glyphs(op.spec_gate()),
            forall|j: int| 0 <= j < i ==> applies@[j] < circuit_size,
            table_view(table@) =~= symbol_table(
                applies@.take(i as int),
                padded_glyphs(op.spec_gate()),
            ),
        decreases applies@.len() - i,
    {
        let idx: usize = applies[i];
        if idx >= circuit_size {
            return Err(RegisterError::RenderFailed);
        }
        let symbol: String = symbols[i].clone();
        table.insert(idx, symbol);
        proof {
            let next = applies@.take(i + 1);
            assert(next.drop_last() =~= applies@.take(i as int));
            assert(next.last() == idx);
            assert(string_views(symbols@)[i as int] == symbols@[i as int]@);
        }
        i = i + 1;
    }
    assert(applies@.take(applies@.len() as int) =~= applies@);
    Ok(table)
}

} // verus!
