use vstd::prelude::*;

use crate::engine::circuit;
use crate::engine::operator::Operator;
use crate::interpreter::evaluator::eval_expr::{ExprValue, env_lookup, frame_lookup, value_of};
use crate::interpreter::parser::ast_types as ast;

verus! {

/// The values a name can be bound to.
#[derive(Debug, Clone)]
pub enum EvaluatorType {
    Const(usize),
    Bits(Bits),
    Function(Function),
    Oracle(Oracle),
    Circuit(Circuit),
}

// ----- BITS DEFINITION -----
/// A bitstring: its value and its number of bits.
#[derive(Debug, Clone, Copy, PartialEq, Eq, Structural)]
pub struct Bits {
    pub literal: usize,
    pub length: usize,
}

// ----- FUNCTION DEFINITION -----
/// A classical function: the identifier of each argument, and its body.
#[derive(Debug)]
pub struct Function {
    pub input: Vec<String>,
    pub func: ast::Expr,
}

impl Clone for Function {
    fn clone(&self) -> (r: Self)
        ensures
            r.input@ == self.input@,
            r.func == self.func,
    {
        let input: Vec<String> = self.input.clone();
        assert(input@ =~= self.input@);
        Function { input, func: self.func.clone() }
    }
}

// ----- ORACLE DEFINITION -----
/// A unitary oracle: the number of qubits of each of its two registers, and
/// the function it loads.
#[derive(Debug)]
pub struct Oracle {
    pub input: (usize, usize),
    pub loads: Function,
}

impl Clone for Oracle {
    fn clone(&self) -> (r: Self)
        ensures
            r.input == self.input,
            r.loads.input@ == self.loads.input@,
            r.loads.func == self.loads.func,
    {
        Oracle { input: (self.input.0, self.input.1), loads: self.loads.clone() }
    }
}

// ----- CIRCUIT DEFINITION -----
/// A circuit bound to a name.
#[derive(Debug, Clone)]
pub struct Circuit {
    pub circuit: circuit::Circuit,
}

impl Circuit {
    pub fn new(init: String, ops: Vec<Operator>) -> (c: Self)
        ensures
            c.circuit.spec_init() == init@,
            c.circuit.spec_ops() == ops@,
    {
        Self { circuit: circuit::Circuit::new(init, ops) }
    }
}

// ----- ENVIRONMENT -----
/// A scope: the names bound in it, each at most once, and the scope it is
/// nested in.
#[derive(Debug)]
pub struct Environment {
    working_env: Vec<(String, EvaluatorType)>,
    parent: Option<Box<Environment>>,
}

/// The position of the binding of `name` among `entries`.
pub open spec fn binds_at(entries: Seq<(String, EvaluatorType)>, name: Seq<char>, i: int) -> bool {
    0 <= i < entries.len() && entries[i].0@ == name
}

/// No name is bound twice among `entries`.
pub open spec fn names_distinct(entries: Seq<(String, EvaluatorType)>) -> bool {
    forall|i: int, j: int|
        0 <= i < entries.len() && 0 <= j < entries.len() && i != j ==> #[trigger] entries[i].0@
            != #[trigger] entries[j].0@
}

/// The map from each name bound among `entries` to its value.
pub open spec fn bindings_of(entries: Seq<(String, EvaluatorType)>) -> Map<Seq<char>, EvaluatorType> {
    Map::new(
        |k: Seq<char>| exists|i: int| binds_at(entries, k, i),
        |k: Seq<char>| entries[choose|i: int| binds_at(entries, k, i)].1,
    )
}

/// Overwriting the binding of `key` at `i` with `value` rebinds `key`.
proof fn lemma_replace_binding(
    old_env: Seq<(String, EvaluatorType)>,
    new_env: Seq<(String, EvaluatorType)>,
    i: int,
    key: Seq<char>,
    value: EvaluatorType,
)
    requires
        names_distinct(old_env),
        binds_at(old_env, key, i),
        new_env.len() == old_env.len(),
        new_env[i].0@ == key,
        new_env[i].1 == value,
        forall|j: int| 0 <= j < old_env.len() && j != i ==> new_env[j] == old_env[j],
    ensures
        names_distinct(new_env),
        bindings_of(new_env) == bindings_of(old_env).insert(key, value),
{
    assert forall|a: int, b: int|
        0 <= a < new_env.len() && 0 <= b < new_env.len() && a != b implies #[trigger] new_env[a].0@
        != #[trigger] new_env[b].0@ by {
        assert(old_env[a].0@ != old_env[b].0@);
    }
    let old_map = bindings_of(old_env);
    let new_map = bindings_of(new_env);
    assert forall|k: Seq<char>| #[trigger]
        new_map.contains_key(k) == old_map.insert(key, value).contains_key(k) by {
        if k != key {
            if exists|j: int| binds_at(new_env, k, j) {
                let j = choose|j: int| binds_at(new_env, k, j);
                assert(binds_at(old_env, k, j));
            }
            if exists|j: int| binds_at(old_env, k, j) {
                let j = choose|j: int| binds_at(old_env, k, j);
                assert(binds_at(new_env, k, j));
            }
        } else {
            assert(binds_at(new_env, k, i));
        }
    }
    assert forall|k: Seq<char>| #[trigger] new_map.contains_key(k) implies new_map[k]
        == old_map.insert(key, value)[k] by {
        let j = choose|j: int| binds_at(new_env, k, j);
        if k == key {
            assert(binds_at(new_env, k, i));
        } else {
            assert(binds_at(old_env, k, j));
            let j0 = choose|j0: int| binds_at(old_env, k, j0);
            assert(j0 == j);
        }
    }
    assert(new_map =~= old_map.insert(key, value));
}

/// Appending a binding of a name that was unbound binds it.
proof fn lemma_push_binding(
    old_env: Seq<(String, EvaluatorType)>,
    new_env: Seq<(String, EvaluatorType)>,
    key: Seq<char>,
    value: EvaluatorType,
)
    requires
        names_distinct(old_env),
        forall|j: int| 0 <= j < old_env.len() ==> !binds_at(old_env, key, j),
        new_env.len() == old_env.len() + 1,
        new_env[old_env.len() as int].0@ == key,
        new_env[old_env.len() as int].1 == value,
        forall|j: int| 0 <= j < old_env.len() ==> new_env[j] == old_env[j],
    ensures
        names_distinct(new_env),
        bindings_of(new_env) == bindings_of(old_env).insert(key, value),
{
    let n = old_env.len() as int;
    assert forall|a: int, b: int|
        0 <= a < new_env.len() && 0 <= b < new_env.len() && a != b implies #[trigger] new_env[a].0@
        != #[trigger] new_env[b].0@ by {
        if a < n && b < n {
            assert(old_env[a].0@ != old_env[b].0@);
        } else if a < n {
            assert(!binds_at(old_env, key, a));
        } else {
            assert(!binds_at(old_env, key, b));
        }
    }
    let old_map = bindings_of(old_env);
    let new_map = bindings_of(new_env);
    assert forall|k: Seq<char>| #[trigger]
        new_map.contains_key(k) == old_map.insert(key, value).contains_key(k) by {
        if k != key {
            if exists|j: int| binds_at(new_env, k, j) {
                let j = choose|j: int| binds_at(new_env, k, j);
                assert(binds_at(old_env, k, j));
            }
            if exists|j: int| binds_at(old_env, k, j) {
                let j = choose|j: int| binds_at(old_env, k, j);
                assert(binds_at(new_env, k, j));
            }
        } else {
            assert(binds_at(new_env, k, n));
        }
    }
    assert forall|k: Seq<char>| #[trigger] new_map.contains_key(k) implies new_map[k]
        == old_map.insert(key, value)[k] by {
        let j = choose|j: int| binds_at(new_env, k, j);
        if k == key {
            assert(binds_at(new_env, k, n));
            if j != n {
                assert(!binds_at(old_env, key, j));
            }
        } else {
            assert(binds_at(old_env, k, j));
            let j0 = choose|j0: int| binds_at(old_env, k, j0);
            assert(j0 == j);
        }
    }
    assert(new_map =~= old_map.insert(key, value));
}

/// Adding a binding at the end of a frame makes it the one that counts for
/// its name, and leaves every other name as it was.
pub proof fn lemma_frame_lookup_push(frame: Seq<(String, ExprValue)>, x: (String, ExprValue), name: Seq<char>)
    ensures
        frame_lookup(frame.push(x), name) == if x.0@ == name {
            Some(x.1)
        } else {
            frame_lookup(frame, name)
        },
{
    assert(frame.push(x).drop_last() =~= frame);
}

impl Environment {
    #[verifier::type_invariant]
    spec fn bindings_distinct(self) -> bool {
        names_distinct(self.working_env@)
    }

    /// The names bound in this scope (not its parents) and their values.
    pub closed spec fn spec_bindings(self) -> Map<Seq<char>, EvaluatorType> {
        bindings_of(self.working_env@)
    }

    /// The scope this one is nested in.
    pub closed spec fn spec_parent(self) -> Option<Environment> {
        match self.parent {
            Some(p) => Some(*p),
            None => None,
        }
    }

    /// The value a name resolves to: its binding in this scope, or else its
    /// resolution in the enclosing scope.
    pub closed spec fn spec_resolve(self, name: Seq<char>) -> Option<EvaluatorType>
        decreases self,
    {
        if self.spec_bindings().contains_key(name) {
            Some(self.spec_bindings()[name])
        } else {
            match self.parent {
                Some(p) => p.spec_resolve(name),
                None => None,
            }
        }
    }

    /// A read gives back what a write wrote: once `name` is bound to `v` in a
    /// scope, `name` resolves to `v` there, and every other name resolves as
    /// it did before.
    pub proof fn lemma_resolve_after_insert(
        before: Environment,
        after: Environment,
        name: Seq<char>,
        v: EvaluatorType,
    )
        requires
            after.spec_bindings() == before.spec_bindings().insert(name, v),
            after.spec_parent() == before.spec_parent(),
        ensures
            after.spec_resolve(name) == Some(v),
            forall|k: Seq<char>| k != name ==> after.spec_resolve(k) == before.spec_resolve(k),
    {
        assert forall|k: Seq<char>| k != name implies after.spec_resolve(k) == before.spec_resolve(
            k,
        ) by {
            assert(after.spec_bindings().contains_key(k) == before.spec_bindings().contains_key(k));
        }
    }

    /// A name bound in a scope hides any binding of it in the enclosing
    /// scopes; a name not bound in a scope resolves as in its parent.
    pub proof fn lemma_resolve_shadows(self, name: Seq<char>)
        ensures
            self.spec_bindings().contains_key(name) ==> self.spec_resolve(name) == Some(
                self.spec_bindings()[name],
            ),
            !self.spec_bindings().contains_key(name) ==> self.spec_resolve(name) == match self.spec_parent() {
                Some(p) => p.spec_resolve(name),
                None => None,
            },
    {
    }

    /// An empty scope nested in `parent`.
    pub fn new(parent: Option<Box<Environment>>) -> (e: Self)
        ensures
            e.spec_bindings() == Map::<Seq<char>, EvaluatorType>::empty(),
            e.spec_parent() == match parent {
                Some(p) => Some(*p),
                None => None::<Environment>,
            },
    {
        let e = Environment { working_env: Vec::new(), parent };
        assert(e.spec_bindings() =~= Map::<Seq<char>, EvaluatorType>::empty());
        e
    }

    /// The value bound to `name` in this scope, not looking at its parents.
    pub fn get(&self, name: &String) -> (r: Option<&EvaluatorType>)
        ensures
            r is Some <==> self.spec_bindings().contains_key(name@),
            r matches Some(v) ==> *v == self.spec_bindings()[name@],
    {
        proof {
            use_type_invariant(self);
        }
        let n: usize = self.working_env.len();
        let mut i: usize = 0;
        while i < n
            invariant
                n == self.working_env@.len(),
                names_distinct(self.working_env@),
                i <= n,
                forall|j: int| 0 <= j < i ==> !binds_at(self.working_env@, name@, j),
            decreases n - i,
        {
            if self.working_env[i].0.eq(name) {
                proof {
                    assert(binds_at(self.working_env@, name@, i as int));
                    let c = choose|j: int| binds_at(self.working_env@, name@, j);
                    assert(c == i);
                }
                return Some(&self.working_env[i].1);
            }
            i = i + 1;
        }
        None
    }

    /// Binds `name` to `value` in this scope, replacing any binding it had
    /// here.
    pub fn insert(&mut self, name: String, value: EvaluatorType)
        ensures
            final(self).spec_bindings() == old(self).spec_bindings().insert(name@, value),
            final(self).spec_parent() == old(self).spec_parent(),
    {
        proof {
            use_type_invariant(&*self);
        }
        let ghost old_env = self.working_env@;
        let ghost key = name@;
        let mut entries: Vec<(String, EvaluatorType)> = Vec::new();
        std::mem::swap(&mut entries, &mut self.working_env);
        let n: usize = entries.len();
        let mut i: usize = 0;
        while i < n
            invariant
                n == entries@.len(),
                entries@ == old_env,
                old_env == old(self).working_env@,
                names_distinct(old_env),
                key == name@,
                self.working_env@.len() == 0,
                self.parent == old(self).parent,
                i <= n,
                forall|j: int| 0 <= j < i ==> !binds_at(old_env, key, j),
            decreases n - i,
        {
            if entries[i].0.eq(&name) {
                entries.set(i, (name, value));
                proof {
                    lemma_replace_binding(old_env, entries@, i as int, key, value);
                }
                self.working_env = entries;
                return ;
            }
            i = i + 1;
        }
        entries.push((name, value));
        proof {
            lemma_push_binding(old_env, entries@, key, value);
        }
        self.working_env = entries;
    }

    /// Every name visible from this scope with the value it has in an
    /// expression; a binding in a nested scope comes after those it hides.
    pub fn visible_values(&self) -> (r: Vec<(String, ExprValue)>)
        ensures
            forall|k: Seq<char>| #[trigger] frame_lookup(r@, k) == env_lookup(*self)(k),
        decreases self,
    {
        proof {
            use_type_invariant(self);
        }
        let mut out: Vec<(String, ExprValue)> = match &self.parent {
            Some(p) => p.visible_values(),
            None => Vec::new(),
        };
        let ghost outer = out@;
        let n: usize = self.working_env.len();
        let mut i: usize = 0;
        while i < n
            invariant
                n == self.working_env@.len(),
                i <= n,
                names_distinct(self.working_env@),
                forall|j: int|
                    0 <= j < i ==> frame_lookup(out@, #[trigger] self.working_env@[j].0@) == Some(
                        value_of(self.working_env@[j].1),
                    ),
                forall|k: Seq<char>|
                    (forall|j: int| 0 <= j < i ==> !binds_at(self.working_env@, k, j))
                        ==> #[trigger] frame_lookup(out@, k) == frame_lookup(outer, k),
            decreases n - i,
        {
            let value: ExprValue = match &self.working_env[i].1 {
                EvaluatorType::Const(c) => ExprValue::Const(*c),
                EvaluatorType::Bits(b) => ExprValue::Bits(*b),
                _ => ExprValue::Other,
            };
            let entry: (String, ExprValue) = (self.working_env[i].0.clone(), value);
            let ghost before = out@;
            out.push(entry);
            proof {
                assert forall|k: Seq<char>| #[trigger] frame_lookup(out@, k) == if entry.0@ == k {
                    Some(entry.1)
                } else {
                    frame_lookup(before, k)
                } by {
                    lemma_frame_lookup_push(before, entry, k);
                }
                assert forall|j: int| 0 <= j < i + 1 implies frame_lookup(
                    out@,
                    #[trigger] self.working_env@[j].0@,
                ) == Some(value_of(self.working_env@[j].1)) by {
                    if j < i {
                        assert(self.working_env@[j].0@ != self.working_env@[i as int].0@);
                    }
                }
                assert forall|k: Seq<char>|
                    (forall|j: int| 0 <= j < i + 1 ==> !binds_at(self.working_env@, k, j)) implies #[trigger] frame_lookup(
                    out@,
                    k,
                ) == frame_lookup(outer, k) by {
                    assert(!binds_at(self.working_env@, k, i as int));
                }
            }
            i = i + 1;
        }
        proof {
            assert forall|k: Seq<char>| #[trigger] frame_lookup(out@, k) == env_lookup(*self)(k) by {
                if exists|j: int| binds_at(self.working_env@, k, j) {
                    let j = choose|j: int| binds_at(self.working_env@, k, j);
                    assert(frame_lookup(out@, self.working_env@[j].0@) == Some(value_of(self.working_env@[j].1)));
                    assert(self.spec_bindings().contains_key(k));
                } else {
                    assert(!self.spec_bindings().contains_key(k));
                }
            }
        }
        out
    }

    /// The value `name` resolves to: its binding in this scope, or else its
    /// resolution in the enclosing scope.
    pub fn resolve(&self, name: &String) -> (r: Option<&EvaluatorType>)
        ensures
            r is Some <==> self.spec_resolve(name@) is Some,
            r matches Some(v) ==> self.spec_resolve(name@) == Some(*v),
        decreases self,
    {
        match self.get(name) {
            Some(t) => {
                return Some(t);
            },
            None => {},
        }
        match &self.parent {
            Some(e) => e.resolve(name),
            None => None,
        }
    }
}

} // verus!
