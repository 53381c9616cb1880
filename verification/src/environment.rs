//! The lexical scope chain.
//!
//! `Environment` owns every scope node the interpreter ever creates, in an
//! arena. A node is addressed by its index; it holds a binding table and an
//! optional link to the node that lexically encloses it. Nodes are only ever
//! appended, and a node's enclosing link always points at an older (smaller)
//! index, so the chain is acyclic by construction. Closures capture a node
//! by index, which gives shared, mutable scopes without shared pointers.
//!
//! A binding table is a list of (name, value) pairs read from the end, so a
//! later `define` of the same name overwrites the earlier one for every
//! subsequent lookup.

use vstd::prelude::*;

use crate::execute::VMError;
use crate::value::{clone_value, Value};

verus! {

/// One scope: its bindings and the scope that lexically encloses it
/// (`None` for the root).
pub struct EnvNode {
    pub enclosing: Option<usize>,
    pub bindings: Vec<(String, Value)>,
}

/// Mathematical image of one scope node.
#[verifier::ext_equal]
pub struct EnvNodeV {
    pub enclosing: Option<usize>,
    pub bindings: Seq<(String, Value)>,
}

impl View for EnvNode {
    type V = EnvNodeV;

    open spec fn view(&self) -> EnvNodeV {
        EnvNodeV { enclosing: self.enclosing, bindings: self.bindings@ }
    }
}

/// The arena of scope nodes. Node 0, created by `new`, is the root scope.
pub struct Environment {
    pub nodes: Vec<EnvNode>,
}

impl View for Environment {
    type V = Seq<EnvNodeV>;

    open spec fn view(&self) -> Seq<EnvNodeV> {
        self.nodes@.map_values(|n: EnvNode| n@)
    }
}

/// The value bound to `name` in one binding table: the latest pair whose
/// name reads as `name`, if any.
pub open spec fn lookup(b: Seq<(String, Value)>, name: Seq<char>) -> Option<Value>
    decreases b.len(),
{
    if b.len() == 0 {
        None
    } else if b.last().0@ == name {
        Some(b.last().1)
    } else {
        lookup(b.drop_last(), name)
    }
}

/// Every enclosing link points at an older node, so walking outward
/// terminates.
pub open spec fn env_wf(envs: Seq<EnvNodeV>) -> bool {
    forall|i: int|
        0 <= i < envs.len() ==> (#[trigger] envs[i].enclosing matches Some(p) ==> p < i)
}

/// The index of the innermost node, searching outward from `node`, whose
/// binding table contains `name`; `None` when the chain is exhausted.
pub open spec fn resolve(envs: Seq<EnvNodeV>, node: int, name: Seq<char>) -> Option<int>
    decreases node,
{
    if node < 0 || node >= envs.len() {
        None
    } else if lookup(envs[node].bindings, name) is Some {
        Some(node)
    } else {
        match envs[node].enclosing {
            Some(p) => if (p as int) < node {
                resolve(envs, p as int, name)
            } else {
                None
            },
            None => None,
        }
    }
}

/// The value `name` denotes in the chain starting at `node`.
pub open spec fn env_get(envs: Seq<EnvNodeV>, node: int, name: Seq<char>) -> Option<Value> {
    match resolve(envs, node, name) {
        Some(k) => lookup(envs[k].bindings, name),
        None => None,
    }
}

/// The arena after a binding of `name` to `value` is added to `node`'s own
/// table (shadowing any earlier binding of the same name there).
pub open spec fn env_define(
    envs: Seq<EnvNodeV>,
    node: int,
    name: String,
    value: Value,
) -> Seq<EnvNodeV> {
    envs.update(
        node,
        EnvNodeV {
            enclosing: envs[node].enclosing,
            bindings: envs[node].bindings.push((name, value)),
        },
    )
}

/// The arena after assignment of `value` to `name` through the chain
/// starting at `node`: the innermost node already holding `name` is
/// rebound; nothing changes when no node holds it.
pub open spec fn env_set(
    envs: Seq<EnvNodeV>,
    node: int,
    name: String,
    value: Value,
) -> Seq<EnvNodeV> {
    match resolve(envs, node, name@) {
        Some(k) => env_define(envs, k, name, value),
        None => envs,
    }
}

/// A successful lookup yields one of the stored values: any property that
/// holds of every value in the table holds of the result.
pub proof fn lemma_lookup_pred(
    b: Seq<(String, Value)>,
    name: Seq<char>,
    pred: spec_fn(Value) -> bool,
)
    requires
        forall|j: int| 0 <= j < b.len() ==> pred(#[trigger] b[j].1),
    ensures
        lookup(b, name) matches Some(v) ==> pred(v),
    decreases b.len(),
{
    if b.len() > 0 && b.last().0@ != name {
        lemma_lookup_pred(b.drop_last(), name, pred);
    }
}

/// A successful chain read yields one of the stored values: any property
/// that holds of every value bound anywhere in the arena holds of the
/// result.
pub proof fn lemma_env_get_pred(
    envs: Seq<EnvNodeV>,
    node: int,
    name: Seq<char>,
    pred: spec_fn(Value) -> bool,
)
    requires
        forall|i: int, j: int|
            0 <= i < envs.len() && 0 <= j < envs[i].bindings.len() ==> pred(
                #[trigger] envs[i].bindings[j].1,
            ),
    ensures
        env_get(envs, node, name) matches Some(v) ==> pred(v),
{
    if resolve(envs, node, name) is Some {
        lemma_resolve_bounds(envs, node, name);
        let k = resolve(envs, node, name)->Some_0;
        lemma_lookup_pred(envs[k].bindings, name, pred);
    }
}

/// Where a chain resolves a name, the resolved index lies between the root
/// and the starting node and its table does contain the name.
pub proof fn lemma_resolve_bounds(envs: Seq<EnvNodeV>, node: int, name: Seq<char>)
    requires
        resolve(envs, node, name) is Some,
    ensures
        ({
            let k = resolve(envs, node, name)->Some_0;
            &&& 0 <= k <= node
            &&& k < envs.len()
            &&& lookup(envs[k].bindings, name) is Some
        }),
    decreases node,
{
    if !(node < 0 || node >= envs.len()) && !(lookup(envs[node].bindings, name) is Some) {
        match envs[node].enclosing {
            Some(p) => {
                if (p as int) < node {
                    lemma_resolve_bounds(envs, p as int, name);
                }
            },
            None => {},
        }
    }
}

/// Name resolution from node `p` only ever reads nodes at indices up to
/// `p`: two arenas that agree there resolve and read identically.
pub proof fn lemma_env_get_agrees(
    e1: Seq<EnvNodeV>,
    e2: Seq<EnvNodeV>,
    p: int,
    name: Seq<char>,
)
    requires
        0 <= p < e1.len(),
        p < e2.len(),
        forall|i: int| 0 <= i <= p ==> e1[i] == e2[i],
    ensures
        resolve(e1, p, name) == resolve(e2, p, name),
        env_get(e1, p, name) == env_get(e2, p, name),
    decreases p,
{
    if lookup(e1[p].bindings, name) is Some {
    } else {
        match e1[p].enclosing {
            Some(q) => {
                if (q as int) < p {
                    lemma_env_get_agrees(e1, e2, q as int, name);
                    if resolve(e1, q as int, name) is Some {
                        lemma_resolve_bounds(e1, q as int, name);
                    }
                }
            },
            None => {},
        }
    }
}

/// Rebinding a name at one node is invisible to resolution that already
/// resolved the name to that very node: every chain that reached `k`
/// before still reaches `k`.
pub proof fn lemma_resolve_stable_update(
    envs: Seq<EnvNodeV>,
    envs2: Seq<EnvNodeV>,
    start: int,
    k: int,
    name: Seq<char>,
)
    requires
        resolve(envs, start, name) == Some(k),
        envs2.len() == envs.len(),
        forall|i: int| 0 <= i < envs.len() && i != k ==> envs2[i] == envs[i],
        envs2[k].enclosing == envs[k].enclosing,
        lookup(envs2[k].bindings, name) is Some,
    ensures
        resolve(envs2, start, name) == Some(k),
    decreases start,
{
    lemma_resolve_bounds(envs, start, name);
    if lookup(envs[start].bindings, name) is Some {
    } else {
        match envs[start].enclosing {
            Some(p) => {
                if (p as int) < start {
                    lemma_resolve_stable_update(envs, envs2, p as int, k, name);
                }
            },
            None => {},
        }
    }
}

/// Law: block scoping. Where a name is declared in an inner scope node,
/// assignment through that node rebinds the inner declaration only: every
/// other node keeps its bindings, and every chain that starts outside the
/// inner node (at a smaller index, as every enclosing scope does) reads
/// the same values before and after.
pub proof fn lemma_block_scoping(envs: Seq<EnvNodeV>, node: int, name: String, value: Value)
    requires
        0 <= node < envs.len(),
        lookup(envs[node].bindings, name@) is Some,
    ensures
        ({
            let envs2 = env_set(envs, node, name, value);
            &&& forall|j: int| 0 <= j < envs.len() && j != node ==> envs2[j] == envs[j]
            &&& env_get(envs2, node, name@) == Some(value)
            &&& forall|p: int|
                0 <= p < node ==> env_get(envs2, p, name@) == env_get(envs, p, name@)
        }),
{
    let envs2 = env_set(envs, node, name, value);
    assert(resolve(envs, node, name@) == Some(node));
    assert(envs2 == env_define(envs, node, name, value));
    let b2 = envs2[node].bindings;
    assert(b2.last() == (name, value));
    assert(lookup(b2, name@) == Some(value));
    assert(resolve(envs2, node, name@) == Some(node));
    assert forall|p: int| 0 <= p < node implies env_get(envs2, p, name@) == env_get(
        envs,
        p,
        name@,
    ) by {
        lemma_env_get_agrees(envs, envs2, p, name@);
    }
}

/// Law: capture by reference. Two chains that resolve a name to the same
/// scope node (for instance a closure's captured chain and the chain of
/// the scope that defined the variable) observe each other's assignments:
/// after assigning through one chain, reading through the other yields the
/// assigned value.
pub proof fn lemma_closure_capture(
    envs: Seq<EnvNodeV>,
    n1: int,
    n2: int,
    name: String,
    value: Value,
)
    requires
        resolve(envs, n1, name@) is Some,
        resolve(envs, n2, name@) == resolve(envs, n1, name@),
    ensures
        env_get(env_set(envs, n2, name, value), n1, name@) == Some(value),
        env_get(env_set(envs, n1, name, value), n2, name@) == Some(value),
{
    let k = resolve(envs, n1, name@)->Some_0;
    lemma_resolve_bounds(envs, n1, name@);
    let envs2 = env_set(envs, n2, name, value);
    assert(envs2 == env_define(envs, k, name, value));
    assert(envs2[k].bindings.last() == (name, value));
    assert(lookup(envs2[k].bindings, name@) == Some(value));
    lemma_resolve_stable_update(envs, envs2, n1, k, name@);
    lemma_resolve_stable_update(envs, envs2, n2, k, name@);
}

/// Scans a binding table for `name`, newest binding first, and hands back a
/// copy of the bound value.
#[verifier::loop_isolation(false)]
pub fn lookup_binding(b: &Vec<(String, Value)>, name: &String) -> (r: Option<Value>)
    ensures
        r == lookup(b@, name@),
{
    proof {
        assert(b@.take(b@.len() as int) =~= b@);
    }
    let mut i: usize = b.len();
    while i > 0
        invariant
            i <= b.len(),
            lookup(b@, name@) == lookup(b@.take(i as int), name@),
        decreases i,
    {
        i = i - 1;
        proof {
            assert(b@.take(i as int + 1).last() == b@[i as int]);
            assert(b@.take(i as int + 1).drop_last() =~= b@.take(i as int));
        }
        if b[i].0.eq(name) {
            return Some(clone_value(&b[i].1));
        }
    }
    None
}

impl Environment {
    /// A fresh arena holding only the root scope, with no bindings.
    pub fn new() -> (r: Environment)
        ensures
            r@.len() == 1,
            r@[0].enclosing is None,
            r@[0].bindings == Seq::<(String, Value)>::empty(),
    {
        let mut nodes: Vec<EnvNode> = Vec::new();
        nodes.push(EnvNode { enclosing: None, bindings: Vec::new() });
        Environment { nodes }
    }

    /// Appends a new, empty scope node whose enclosing scope is `enclosing`
    /// and hands back its index.
    pub fn new_enclosing(&mut self, enclosing: usize) -> (id: usize)
        requires
            enclosing < old(self)@.len(),
        ensures
            id == old(self)@.len(),
            final(self)@ == old(self)@.push(
                EnvNodeV { enclosing: Some(enclosing), bindings: Seq::empty() },
            ),
            env_wf(old(self)@) ==> env_wf(final(self)@),
    {
        let id = self.nodes.len();
        self.nodes.push(EnvNode { enclosing: Some(enclosing), bindings: Vec::new() });
        proof {
            assert(self@ =~~= old(self)@.push(
                EnvNodeV { enclosing: Some(enclosing), bindings: Seq::empty() },
            ));
        }
        id
    }

    /// Binds `name` to `value` in `node`'s own table only: declarations
    /// never search outward, so an inner declaration shadows an outer one.
    pub fn define(&mut self, node: usize, name: String, value: Value)
        requires
            node < old(self)@.len(),
        ensures
            final(self)@ == env_define(old(self)@, node as int, name, value),
    {
        let mut entry = self.nodes.remove(node);
        entry.bindings.push((name, value));
        self.nodes.insert(node, entry);
        proof {
            assert(self@ =~~= env_define(old(self)@, node as int, name, value));
        }
    }

    /// Reads `name` through the chain starting at `node`; fails with
    /// `UnknownName` exactly when no node in the chain binds it.
    pub fn get(&self, node: usize, name: &String) -> (r: Result<Value, VMError>)
        requires
            env_wf(self@),
            node < self@.len(),
        ensures
            match env_get(self@, node as int, name@) {
                Some(v) => r == Ok::<Value, VMError>(v),
                None => r == Err::<Value, VMError>(VMError::UnknownName(*name)),
            },
        decreases node,
    {
        let found = lookup_binding(&self.nodes[node].bindings, name);
        match found {
            Some(v) => Ok(v),
            None => match self.nodes[node].enclosing {
                Some(p) => self.get(p, name),
                None => Err(VMError::UnknownName(name.clone())),
            },
        }
    }

    /// Assigns `value` to an existing binding of `name`, searching outward
    /// from `node`; never creates a binding. Fails with `UnknownName`
    /// exactly when no node in the chain binds `name` — assignment to an
    /// undeclared name is an error, not an implicit declaration.
    pub fn set(&mut self, node: usize, name: String, value: Value) -> (r: Result<Value, VMError>)
        requires
            env_wf(old(self)@),
            node < old(self)@.len(),
        ensures
            final(self)@ == env_set(old(self)@, node as int, name, value),
            match resolve(old(self)@, node as int, name@) {
                Some(k) => r == Ok::<Value, VMError>(value),
                None => r == Err::<Value, VMError>(VMError::UnknownName(name)),
            },
        decreases node,
    {
        let found = lookup_binding(&self.nodes[node].bindings, &name);
        match found {
            Some(_) => {
                let stored = clone_value(&value);
                let mut entry = self.nodes.remove(node);
                entry.bindings.push((name, stored));
                self.nodes.insert(node, entry);
                proof {
                    assert(self@ =~~= env_define(old(self)@, node as int, name, value));
                }
                Ok(value)
            },
            None => match self.nodes[node].enclosing {
                Some(p) => self.set(p, name, value),
                None => Err(VMError::UnknownName(name)),
            },
        }
    }
}

} // verus!
