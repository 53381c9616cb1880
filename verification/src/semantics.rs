//! The mathematical semantics of the language.
//!
//! `StateV` is the image of the interpreter's whole mutable state. The
//! `eval_*` functions are a fuelled big-step semantics: each maps a state
//! and a piece of syntax to the state after execution and an outcome. The
//! executable evaluator in `execute` is proved to return exactly what these
//! functions denote. Fuel bounds call depth and loop iterations; running
//! out surfaces as `ResourceExhausted`, the stand-in for the host's
//! resource limits.

use vstd::prelude::*;

use crate::environment::{env_define, env_get, env_wf, lookup, resolve, EnvNodeV};
use crate::execute::{OpKind, VMError};
use crate::parser::{expr_size, exprs_size, fields_size, node_size, nodes_size, Expr, Node};
use crate::value::{value_wf, Native, Value};

verus! {

/// The interpreter's state: every scope node, every array and object
/// backing store, and the values emitted on the output channel so far.
#[verifier::ext_equal]
pub struct StateV {
    pub envs: Seq<EnvNodeV>,
    pub arrays: Seq<Seq<Value>>,
    pub objects: Seq<Seq<(String, Value)>>,
    pub output: Seq<Value>,
}

/// The value's heap handles all point inside `st`'s heaps.
pub open spec fn st_value_wf(st: StateV, v: Value) -> bool {
    value_wf(v, st.envs.len(), st.arrays.len(), st.objects.len())
}

/// Every value reachable from the state is well formed and the scope chain
/// is acyclic. Execution preserves this.
pub open spec fn state_wf(st: StateV) -> bool {
    &&& env_wf(st.envs)
    &&& forall|i: int, j: int|
        0 <= i < st.envs.len() && 0 <= j < st.envs[i].bindings.len() ==> st_value_wf(
            st,
            #[trigger] st.envs[i].bindings[j].1,
        )
    &&& forall|i: int, j: int|
        0 <= i < st.arrays.len() && 0 <= j < st.arrays[i].len() ==> st_value_wf(
            st,
            #[trigger] st.arrays[i][j],
        )
    &&& forall|i: int, j: int|
        0 <= i < st.objects.len() && 0 <= j < st.objects[i].len() ==> st_value_wf(
            st,
            #[trigger] st.objects[i][j].1,
        )
}

/// Every value in the list is well formed in `st`.
pub open spec fn values_wf(st: StateV, vs: Seq<Value>) -> bool {
    forall|j: int| 0 <= j < vs.len() ==> st_value_wf(st, #[trigger] vs[j])
}

/// Every value in the pair list is well formed in `st`.
pub open spec fn pairs_wf(st: StateV, ps: Seq<(String, Value)>) -> bool {
    forall|j: int| 0 <= j < ps.len() ==> st_value_wf(st, #[trigger] ps[j].1)
}

/// The optional receiver, if present, is well formed in `st`.
pub open spec fn base_wf(st: StateV, base: Option<Value>) -> bool {
    match base {
        Some(v) => st_value_wf(st, v),
        None => true,
    }
}

/// Execution only ever appends to the heaps, so handles stay in range.
pub open spec fn st_extends(pre: StateV, post: StateV) -> bool {
    &&& pre.envs.len() <= post.envs.len()
    &&& pre.arrays.len() <= post.arrays.len()
    &&& pre.objects.len() <= post.objects.len()
}

/// The value a failure carries (a return signal's payload) is well formed
/// in `st`.
pub open spec fn err_wf(st: StateV, e: VMError) -> bool {
    match e {
        VMError::Return(v) => st_value_wf(st, v),
        _ => true,
    }
}

/// The value an outcome carries (a result or a return signal) is well
/// formed in `st`.
pub open spec fn outcome_wf(st: StateV, r: Result<Value, VMError>) -> bool {
    match r {
        Ok(v) => st_value_wf(st, v),
        Err(e) => err_wf(st, e),
    }
}

/// Well-formedness of a value survives heap growth.
pub proof fn lemma_value_wf_mono(st1: StateV, st2: StateV, v: Value)
    requires
        st_value_wf(st1, v),
        st_extends(st1, st2),
    ensures
        st_value_wf(st2, v),
{
}

pub proof fn lemma_wf_define(st: StateV, node: int, name: String, value: Value)
    requires
        state_wf(st),
        0 <= node < st.envs.len(),
        st_value_wf(st, value),
    ensures
        state_wf(StateV { envs: env_define(st.envs, node, name, value), ..st }),
{
    let st2 = StateV { envs: env_define(st.envs, node, name, value), ..st };
    assert forall|i: int|
        0 <= i < st2.envs.len() implies (#[trigger] st2.envs[i].enclosing matches Some(p) ==> p
        < i) by {
        assert(st2.envs[i].enclosing == st.envs[i].enclosing);
    };
    assert forall|i: int, j: int|
        0 <= i < st2.envs.len() && 0 <= j < st2.envs[i].bindings.len() implies st_value_wf(
        st2,
        #[trigger] st2.envs[i].bindings[j].1,
    ) by {
        if i == node && j == st.envs[i].bindings.len() {
            assert(st2.envs[i].bindings[j] == (name, value));
        } else {
            assert(st2.envs[i].bindings[j] == st.envs[i].bindings[j]);
        }
    };
}

pub proof fn lemma_wf_push_node(st: StateV, enclosing: usize, bindings: Seq<(String, Value)>)
    requires
        state_wf(st),
        enclosing < st.envs.len(),
        pairs_wf(st, bindings),
    ensures
        state_wf(
            StateV {
                envs: st.envs.push(EnvNodeV { enclosing: Some(enclosing), bindings }),
                ..st
            },
        ),
{
    let st2 = StateV {
        envs: st.envs.push(EnvNodeV { enclosing: Some(enclosing), bindings }),
        ..st
    };
    assert forall|i: int|
        0 <= i < st2.envs.len() implies (#[trigger] st2.envs[i].enclosing matches Some(p) ==> p
        < i) by {
        if i < st.envs.len() {
            assert(st2.envs[i] == st.envs[i]);
        }
    };
    assert forall|i: int, j: int|
        0 <= i < st2.envs.len() && 0 <= j < st2.envs[i].bindings.len() implies st_value_wf(
        st2,
        #[trigger] st2.envs[i].bindings[j].1,
    ) by {
        if i < st.envs.len() {
            assert(st2.envs[i] == st.envs[i]);
            assert(st_value_wf(st, st.envs[i].bindings[j].1));
        } else {
            assert(st2.envs[i].bindings == bindings);
            assert(st_value_wf(st, bindings[j].1));
        }
    };
    assert forall|i: int, j: int|
        0 <= i < st2.arrays.len() && 0 <= j < st2.arrays[i].len() implies st_value_wf(
        st2,
        #[trigger] st2.arrays[i][j],
    ) by {
        assert(st_value_wf(st, st.arrays[i][j]));
    };
    assert forall|i: int, j: int|
        0 <= i < st2.objects.len() && 0 <= j < st2.objects[i].len() implies st_value_wf(
        st2,
        #[trigger] st2.objects[i][j].1,
    ) by {
        assert(st_value_wf(st, st.objects[i][j].1));
    };
}

pub proof fn lemma_wf_push_array(st: StateV, vs: Seq<Value>)
    requires
        state_wf(st),
        values_wf(st, vs),
    ensures
        state_wf(StateV { arrays: st.arrays.push(vs), ..st }),
        st_value_wf(
            StateV { arrays: st.arrays.push(vs), ..st },
            Value::Array(st.arrays.len() as usize),
        ),
{
    let st2 = StateV { arrays: st.arrays.push(vs), ..st };
    assert forall|i: int, j: int|
        0 <= i < st2.envs.len() && 0 <= j < st2.envs[i].bindings.len() implies st_value_wf(
        st2,
        #[trigger] st2.envs[i].bindings[j].1,
    ) by {
        assert(st_value_wf(st, st.envs[i].bindings[j].1));
    };
    assert forall|i: int, j: int|
        0 <= i < st2.arrays.len() && 0 <= j < st2.arrays[i].len() implies st_value_wf(
        st2,
        #[trigger] st2.arrays[i][j],
    ) by {
        if i < st.arrays.len() {
            assert(st2.arrays[i] == st.arrays[i]);
            assert(st_value_wf(st, st.arrays[i][j]));
        } else {
            assert(st2.arrays[i] == vs);
            assert(st_value_wf(st, vs[j]));
        }
    };
    assert forall|i: int, j: int|
        0 <= i < st2.objects.len() && 0 <= j < st2.objects[i].len() implies st_value_wf(
        st2,
        #[trigger] st2.objects[i][j].1,
    ) by {
        assert(st_value_wf(st, st.objects[i][j].1));
    };
}

pub proof fn lemma_wf_push_object(st: StateV, ps: Seq<(String, Value)>)
    requires
        state_wf(st),
        pairs_wf(st, ps),
    ensures
        state_wf(StateV { objects: st.objects.push(ps), ..st }),
        st_value_wf(
            StateV { objects: st.objects.push(ps), ..st },
            Value::Object(st.objects.len() as usize),
        ),
{
    let st2 = StateV { objects: st.objects.push(ps), ..st };
    assert forall|i: int, j: int|
        0 <= i < st2.envs.len() && 0 <= j < st2.envs[i].bindings.len() implies st_value_wf(
        st2,
        #[trigger] st2.envs[i].bindings[j].1,
    ) by {
        assert(st_value_wf(st, st.envs[i].bindings[j].1));
    };
    assert forall|i: int, j: int|
        0 <= i < st2.arrays.len() && 0 <= j < st2.arrays[i].len() implies st_value_wf(
        st2,
        #[trigger] st2.arrays[i][j],
    ) by {
        assert(st_value_wf(st, st.arrays[i][j]));
    };
    assert forall|i: int, j: int|
        0 <= i < st2.objects.len() && 0 <= j < st2.objects[i].len() implies st_value_wf(
        st2,
        #[trigger] st2.objects[i][j].1,
    ) by {
        if i < st.objects.len() {
            assert(st2.objects[i] == st.objects[i]);
            assert(st_value_wf(st, st.objects[i][j].1));
        } else {
            assert(st2.objects[i] == ps);
            assert(st_value_wf(st, ps[j].1));
        }
    };
}

pub proof fn lemma_wf_set_array(st: StateV, a: int, contents: Seq<Value>)
    requires
        state_wf(st),
        0 <= a < st.arrays.len(),
        values_wf(st, contents),
    ensures
        state_wf(StateV { arrays: st.arrays.update(a, contents), ..st }),
{
    let st2 = StateV { arrays: st.arrays.update(a, contents), ..st };
    assert forall|i: int, j: int|
        0 <= i < st2.envs.len() && 0 <= j < st2.envs[i].bindings.len() implies st_value_wf(
        st2,
        #[trigger] st2.envs[i].bindings[j].1,
    ) by {
        assert(st_value_wf(st, st.envs[i].bindings[j].1));
    };
    assert forall|i: int, j: int|
        0 <= i < st2.arrays.len() && 0 <= j < st2.arrays[i].len() implies st_value_wf(
        st2,
        #[trigger] st2.arrays[i][j],
    ) by {
        if i == a {
            assert(st_value_wf(st, contents[j]));
        } else {
            assert(st2.arrays[i] == st.arrays[i]);
            assert(st_value_wf(st, st.arrays[i][j]));
        }
    };
    assert forall|i: int, j: int|
        0 <= i < st2.objects.len() && 0 <= j < st2.objects[i].len() implies st_value_wf(
        st2,
        #[trigger] st2.objects[i][j].1,
    ) by {
        assert(st_value_wf(st, st.objects[i][j].1));
    };
}

pub proof fn lemma_wf_set_object(st: StateV, o: int, contents: Seq<(String, Value)>)
    requires
        state_wf(st),
        0 <= o < st.objects.len(),
        pairs_wf(st, contents),
    ensures
        state_wf(StateV { objects: st.objects.update(o, contents), ..st }),
{
    let st2 = StateV { objects: st.objects.update(o, contents), ..st };
    assert forall|i: int, j: int|
        0 <= i < st2.envs.len() && 0 <= j < st2.envs[i].bindings.len() implies st_value_wf(
        st2,
        #[trigger] st2.envs[i].bindings[j].1,
    ) by {
        assert(st_value_wf(st, st.envs[i].bindings[j].1));
    };
    assert forall|i: int, j: int|
        0 <= i < st2.arrays.len() && 0 <= j < st2.arrays[i].len() implies st_value_wf(
        st2,
        #[trigger] st2.arrays[i][j],
    ) by {
        assert(st_value_wf(st, st.arrays[i][j]));
    };
    assert forall|i: int, j: int|
        0 <= i < st2.objects.len() && 0 <= j < st2.objects[i].len() implies st_value_wf(
        st2,
        #[trigger] st2.objects[i][j].1,
    ) by {
        if i == o {
            assert(st_value_wf(st, contents[j].1));
        } else {
            assert(st2.objects[i] == st.objects[i]);
            assert(st_value_wf(st, st.objects[i][j].1));
        }
    };
}

pub proof fn lemma_wf_output(st: StateV, out: Seq<Value>)
    requires
        state_wf(st),
    ensures
        state_wf(StateV { output: out, ..st }),
{
    let st2 = StateV { output: out, ..st };
    assert forall|i: int, j: int|
        0 <= i < st2.envs.len() && 0 <= j < st2.envs[i].bindings.len() implies st_value_wf(
        st2,
        #[trigger] st2.envs[i].bindings[j].1,
    ) by {
        assert(st_value_wf(st, st.envs[i].bindings[j].1));
    };
}

/// A value read through the scope chain of a well-formed state is well
/// formed.
pub proof fn lemma_env_get_wf(st: StateV, env: int, name: Seq<char>)
    requires
        state_wf(st),
    ensures
        env_get(st.envs, env, name) matches Some(v) ==> st_value_wf(st, v),
{
    crate::environment::lemma_env_get_pred(st.envs, env, name, |v: Value| st_value_wf(st, v));
}

/// A value read by a property access on a well-formed state is well
/// formed.
pub proof fn lemma_eval_get_wf(st: StateV, base: Value, key: Value)
    requires
        state_wf(st),
        st_value_wf(st, base),
    ensures
        eval_get(st, base, key) matches Ok(v) ==> st_value_wf(st, v),
{
    match base {
        Value::Object(i) => match key {
            Value::String(s) => {
                crate::environment::lemma_lookup_pred(
                    st.objects[i as int],
                    s@,
                    |v: Value| st_value_wf(st, v),
                );
            },
            _ => {},
        },
        _ => {},
    }
}

pub broadcast proof fn lemma_expr_size_pos(e: Expr)
    ensures
        #[trigger] expr_size(e) >= 1,
{
}

/// What a binary operator yields on two evaluated operands: both must be
/// numbers (there is no implicit coercion); comparisons yield a boolean,
/// the arithmetic operators a two's-complement wrapping number. Any other
/// pairing is a `TypeMismatch` naming the operator.
pub open spec fn eval_binary(op: OpKind, l: Value, r: Value) -> Result<Value, VMError> {
    match (l, r) {
        (Value::Number(a), Value::Number(b)) => Ok(apply_binary(op, a, b)),
        _ => Err(VMError::TypeMismatch(op)),
    }
}

/// The result of a binary operator on two numbers. The condition kinds
/// never reach this function; they are mapped to `Nothing`.
pub open spec fn apply_binary(op: OpKind, a: i32, b: i32) -> Value {
    match op {
        OpKind::Eq => Value::Boolean(a == b),
        OpKind::Ne => Value::Boolean(a != b),
        OpKind::Greater => Value::Boolean(a > b),
        OpKind::GreaterEqual => Value::Boolean(a >= b),
        OpKind::Less => Value::Boolean(a < b),
        OpKind::LessEqual => Value::Boolean(a <= b),
        OpKind::Plus => Value::Number(a.wrapping_add(b)),
        OpKind::Minus => Value::Number(a.wrapping_sub(b)),
        OpKind::Multiply => Value::Number(a.wrapping_mul(b)),
        OpKind::WhileCondition => Value::Nothing,
        OpKind::IfCondition => Value::Nothing,
    }
}

/// Property read `base[key]`. Array bases take a non-negative in-range
/// number, or the reserved string keys `length` and `push`; object bases
/// take a string key they hold. Everything else fails as stated.
pub open spec fn eval_get(st: StateV, base: Value, key: Value) -> Result<Value, VMError> {
    match base {
        Value::Array(i) => match key {
            Value::Number(n) => if n < 0 {
                Err(VMError::InvalidIndex)
            } else if n as int >= st.arrays[i as int].len() {
                Err(VMError::IndexOutOfRange)
            } else {
                Ok(st.arrays[i as int][n as int])
            },
            Value::String(s) => if s@ == "length"@ {
                Ok(Value::Number(st.arrays[i as int].len() as i32))
            } else if s@ == "push"@ {
                Ok(Value::NativeFunction(Native::Push))
            } else {
                Err(VMError::InvalidAccess)
            },
            _ => Err(VMError::InvalidAccess),
        },
        Value::Object(i) => match key {
            Value::String(s) => match lookup(st.objects[i as int], s@) {
                Some(v) => Ok(v),
                None => Err(VMError::NoSuchProperty(s)),
            },
            _ => Err(VMError::InvalidAccess),
        },
        _ => Err(VMError::InvalidAccess),
    }
}

/// Property write `base[key] = value`: element replacement at an existing
/// array index (no auto-extension), or object field upsert; yields the
/// assigned value. Same error conditions as the read.
pub open spec fn eval_put(st: StateV, base: Value, key: Value, value: Value) -> (
    StateV,
    Result<Value, VMError>,
) {
    match base {
        Value::Array(i) => match key {
            Value::Number(n) => if n < 0 {
                (st, Err(VMError::InvalidIndex))
            } else if n as int >= st.arrays[i as int].len() {
                (st, Err(VMError::IndexOutOfRange))
            } else {
                (
                    StateV {
                        arrays: st.arrays.update(
                            i as int,
                            st.arrays[i as int].update(n as int, value),
                        ),
                        ..st
                    },
                    Ok(value),
                )
            },
            _ => (st, Err(VMError::InvalidAccess)),
        },
        Value::Object(i) => match key {
            Value::String(s) => (
                StateV {
                    objects: st.objects.update(
                        i as int,
                        st.objects[i as int].push((s, value)),
                    ),
                    ..st
                },
                Ok(value),
            ),
            _ => (st, Err(VMError::InvalidAccess)),
        },
        _ => (st, Err(VMError::InvalidAccess)),
    }
}

/// What a native call does. `Println` emits its arguments on the output
/// channel; `Push` appends its arguments to the receiving array in place,
/// and does nothing when called without an array receiver. Both yield
/// `Nothing`.
pub open spec fn apply_native(st: StateV, nf: Native, base: Option<Value>, args: Seq<Value>) -> (
    StateV,
    Result<Value, VMError>,
) {
    match nf {
        Native::Println => (StateV { output: st.output + args, ..st }, Ok(Value::Nothing)),
        Native::Push => match base {
            Some(Value::Array(i)) => (
                StateV { arrays: st.arrays.update(i as int, st.arrays[i as int] + args), ..st },
                Ok(Value::Nothing),
            ),
            _ => (st, Ok(Value::Nothing)),
        },
    }
}

/// The binding table a function call starts from: each parameter bound to
/// the argument in its position. Missing trailing arguments are bound to
/// `Nothing`; extra arguments are ignored.
pub open spec fn param_bindings(params: Seq<String>, args: Seq<Value>) -> Seq<(String, Value)> {
    Seq::new(
        params.len(),
        |j: int|
            (
                params[j],
                if j < args.len() {
                    args[j]
                } else {
                    Value::Nothing
                },
            ),
    )
}

/// The call protocol, applied to an evaluated callee, optional receiver and
/// evaluated arguments. A native is applied directly. A function gets a
/// fresh scope node enclosing its captured scope, its parameters bound
/// there; its body then runs in that node. A `Return` signal raised in the
/// body is consumed here and carries the call's value; normal completion
/// yields `Nothing` (no implicit return). Anything else is `NotCallable`.
pub open spec fn apply_call(
    st: StateV,
    callee: Value,
    base: Option<Value>,
    args: Seq<Value>,
    fuel: nat,
) -> (StateV, Result<Value, VMError>)
    decreases fuel, 0nat,
{
    match callee {
        Value::NativeFunction(nf) => apply_native(st, nf, base, args),
        Value::Function(params, body, fenv) => {
            if fuel == 0 {
                (st, Err(VMError::ResourceExhausted))
            } else {
                let local = st.envs.len() as int;
                let envs2 = st.envs.push(
                    EnvNodeV {
                        enclosing: Some(fenv),
                        bindings: param_bindings((*params)@, args),
                    },
                );
                let (st2, r) = eval_node(
                    StateV { envs: envs2, ..st },
                    local,
                    *body,
                    (fuel - 1) as nat,
                );
                match r {
                    Ok(_) => (st2, Ok(Value::Nothing)),
                    Err(VMError::Return(v)) => (st2, Ok(v)),
                    Err(e) => (st2, Err(e)),
                }
            }
        },
        _ => (st, Err(VMError::NotCallable)),
    }
}

/// Evaluates both operands of a binary operator, left first, then applies
/// the operator.
pub open spec fn eval_binop_args(
    st: StateV,
    env: int,
    op: OpKind,
    l: Expr,
    r: Expr,
    fuel: nat,
) -> (StateV, Result<Value, VMError>)
    decreases fuel, expr_size(l) + expr_size(r),
    via eval_binop_args_dec
{
    let (st1, r1) = eval_expr(st, env, l, fuel);
    match r1 {
        Err(e) => (st1, Err(e)),
        Ok(lv) => {
            let (st2, r2) = eval_expr(st1, env, r, fuel);
            match r2 {
                Err(e) => (st2, Err(e)),
                Ok(rv) => (st2, eval_binary(op, lv, rv)),
            }
        },
    }
}

#[via_fn]
proof fn eval_binop_args_dec(st: StateV, env: int, op: OpKind, l: Expr, r: Expr, fuel: nat) {
    lemma_expr_size_pos(l);
    lemma_expr_size_pos(r);
}

/// The call protocol from an evaluated callee: the callee must be a
/// native or a function — anything else fails with `NotCallable` before
/// any argument is evaluated. The argument expressions are then evaluated
/// left to right, in the caller's scope, and the callee is applied.
pub open spec fn eval_call_args(
    st: StateV,
    env: int,
    callee: Value,
    base: Option<Value>,
    args: Seq<Expr>,
    fuel: nat,
) -> (StateV, Result<Value, VMError>)
    decreases fuel, 1 + exprs_size(args),
{
    if callee matches Value::NativeFunction(_) || callee matches Value::Function(_, _, _) {
        let (st1, r1) = eval_exprs(st, env, args, fuel);
        match r1 {
            Err(e) => (st1, Err(e)),
            Ok(argv) => apply_call(st1, callee, base, argv, fuel),
        }
    } else {
        (st, Err(VMError::NotCallable))
    }
}

/// Evaluates a list of expressions in order, yielding their values, or the
/// first failure.
pub open spec fn eval_exprs(st: StateV, env: int, es: Seq<Expr>, fuel: nat) -> (
    StateV,
    Result<Seq<Value>, VMError>,
)
    decreases fuel, exprs_size(es),
{
    if es.len() == 0 {
        (st, Ok(Seq::empty()))
    } else {
        let (st1, r1) = eval_expr(st, env, es[0], fuel);
        match r1 {
            Err(e) => (st1, Err(e)),
            Ok(v) => {
                let (st2, r2) = eval_exprs(st1, env, es.drop_first(), fuel);
                match r2 {
                    Err(e) => (st2, Err(e)),
                    Ok(vs) => (st2, Ok(vs.insert(0, v))),
                }
            },
        }
    }
}

/// Evaluates the fields of a record literal in declaration order.
pub open spec fn eval_fields(st: StateV, env: int, fs: Seq<(String, Expr)>, fuel: nat) -> (
    StateV,
    Result<Seq<(String, Value)>, VMError>,
)
    decreases fuel, fields_size(fs),
{
    if fs.len() == 0 {
        (st, Ok(Seq::empty()))
    } else {
        let (st1, r1) = eval_expr(st, env, fs[0].1, fuel);
        match r1 {
            Err(e) => (st1, Err(e)),
            Ok(v) => {
                let (st2, r2) = eval_fields(st1, env, fs.drop_first(), fuel);
                match r2 {
                    Err(e) => (st2, Err(e)),
                    Ok(ps) => (st2, Ok(ps.insert(0, (fs[0].0, v)))),
                }
            },
        }
    }
}

/// Evaluates one expression in the scope chain starting at `env`.
pub open spec fn eval_expr(st: StateV, env: int, e: Expr, fuel: nat) -> (
    StateV,
    Result<Value, VMError>,
)
    decreases fuel, expr_size(e),
    via eval_expr_dec
{
    match e {
        Expr::Eq(l, r) => eval_binop_args(st, env, OpKind::Eq, *l, *r, fuel),
        Expr::Ne(l, r) => eval_binop_args(st, env, OpKind::Ne, *l, *r, fuel),
        Expr::Greater(l, r) => eval_binop_args(st, env, OpKind::Greater, *l, *r, fuel),
        Expr::GreaterEqual(l, r) => eval_binop_args(st, env, OpKind::GreaterEqual, *l, *r, fuel),
        Expr::Less(l, r) => eval_binop_args(st, env, OpKind::Less, *l, *r, fuel),
        Expr::LessEqual(l, r) => eval_binop_args(st, env, OpKind::LessEqual, *l, *r, fuel),
        Expr::Plus(l, r) => eval_binop_args(st, env, OpKind::Plus, *l, *r, fuel),
        Expr::Minus(l, r) => eval_binop_args(st, env, OpKind::Minus, *l, *r, fuel),
        Expr::Multiply(l, r) => eval_binop_args(st, env, OpKind::Multiply, *l, *r, fuel),
        Expr::Number(n) => (st, Ok(Value::Number(n))),
        Expr::String(s) => (st, Ok(Value::String(s))),
        Expr::Boolean(b) => (st, Ok(Value::Boolean(b))),
        Expr::Identifier(name) => (
            st,
            match env_get(st.envs, env, name@) {
                Some(v) => Ok(v),
                None => Err(VMError::UnknownName(name)),
            },
        ),
        Expr::Assign(name, e2) => {
            let (st1, r1) = eval_expr(st, env, *e2, fuel);
            match r1 {
                Err(e3) => (st1, Err(e3)),
                Ok(v) => match resolve(st1.envs, env, name@) {
                    Some(k) => (
                        StateV { envs: env_define(st1.envs, k, name, v), ..st1 },
                        Ok(v),
                    ),
                    None => (st1, Err(VMError::UnknownName(name))),
                },
            }
        },
        Expr::Call(c, args) => {
            let (st1, r1) = eval_expr(st, env, *c, fuel);
            match r1 {
                Err(e2) => (st1, Err(e2)),
                Ok(callee) => eval_call_args(st1, env, callee, None, args@, fuel),
            }
        },
        Expr::MethodCall(b, k, args) => {
            let (st1, r1) = eval_expr(st, env, *b, fuel);
            match r1 {
                Err(e2) => (st1, Err(e2)),
                Ok(base) => {
                    let (st2, r2) = eval_expr(st1, env, *k, fuel);
                    match r2 {
                        Err(e2) => (st2, Err(e2)),
                        Ok(key) => match eval_get(st2, base, key) {
                            Err(e2) => (st2, Err(e2)),
                            Ok(callee) => eval_call_args(st2, env, callee, Some(base), args@, fuel),
                        },
                    }
                },
            }
        },
        Expr::Array(es) => {
            let (st1, r1) = eval_exprs(st, env, es@, fuel);
            match r1 {
                Err(e2) => (st1, Err(e2)),
                Ok(vs) => (
                    StateV { arrays: st1.arrays.push(vs), ..st1 },
                    Ok(Value::Array(st1.arrays.len() as usize)),
                ),
            }
        },
        Expr::Object(fs) => {
            let (st1, r1) = eval_fields(st, env, fs@, fuel);
            match r1 {
                Err(e2) => (st1, Err(e2)),
                Ok(ps) => (
                    StateV { objects: st1.objects.push(ps), ..st1 },
                    Ok(Value::Object(st1.objects.len() as usize)),
                ),
            }
        },
        Expr::Get(b, k) => {
            let (st1, r1) = eval_expr(st, env, *b, fuel);
            match r1 {
                Err(e2) => (st1, Err(e2)),
                Ok(base) => {
                    let (st2, r2) = eval_expr(st1, env, *k, fuel);
                    match r2 {
                        Err(e2) => (st2, Err(e2)),
                        Ok(key) => (st2, eval_get(st2, base, key)),
                    }
                },
            }
        },
        Expr::SetProperty(b, k, v) => {
            let (st1, r1) = eval_expr(st, env, *b, fuel);
            match r1 {
                Err(e2) => (st1, Err(e2)),
                Ok(base) => {
                    let (st2, r2) = eval_expr(st1, env, *k, fuel);
                    match r2 {
                        Err(e2) => (st2, Err(e2)),
                        Ok(key) => {
                            let (st3, r3) = eval_expr(st2, env, *v, fuel);
                            match r3 {
                                Err(e2) => (st3, Err(e2)),
                                Ok(value) => eval_put(st3, base, key, value),
                            }
                        },
                    }
                },
            }
        },
    }
}

#[via_fn]
proof fn eval_expr_dec(st: StateV, env: int, e: Expr, fuel: nat) {
    broadcast use lemma_expr_size_pos;

}

/// The node a shared body handle holds.
pub open spec fn shared_node(b: std::rc::Rc<Node>) -> Node {
    *b
}

/// Law: the step budget is semantically inert. Whenever execution of a
/// statement completes within the budget — with any outcome other than
/// `ResourceExhausted` — every larger budget gives the identical final
/// state and outcome: fuel only truncates executions, it never alters
/// them.
pub proof fn lemma_fuel_monotone_node(st: StateV, env: int, n: Node, f1: nat, f2: nat)
    requires
        f1 <= f2,
        eval_node(st, env, n, f1).1 != Err::<Value, VMError>(VMError::ResourceExhausted),
    ensures
        eval_node(st, env, n, f2) == eval_node(st, env, n, f1),
    decreases f1, node_size(n),
{
    match n {
        Node::Statements(ss) => {
            lemma_fuel_monotone_stmts(st, env, ss@, f1, f2);
        },
        Node::Block(ss) => {
            let envs2 = st.envs.push(
                EnvNodeV { enclosing: Some(env as usize), bindings: Seq::empty() },
            );
            lemma_fuel_monotone_stmts(
                StateV { envs: envs2, ..st },
                st.envs.len() as int,
                ss@,
                f1,
                f2,
            );
        },
        Node::ExpressionStatement(e) => {
            lemma_fuel_monotone_expr(st, env, *e, f1, f2);
        },
        Node::Var(_, init) => {
            match init {
                Some(e) => {
                    lemma_fuel_monotone_expr(st, env, *e, f1, f2);
                },
                None => {},
            }
        },
        Node::Fun(_, _, _) => {},
        Node::Return(e) => {
            lemma_fuel_monotone_expr(st, env, *e, f1, f2);
        },
        Node::Print(e) => {
            lemma_fuel_monotone_expr(st, env, *e, f1, f2);
        },
        Node::While(c, b) => {
            lemma_fuel_monotone_expr(st, env, *c, f1, f2);
            let (st1, r1) = eval_expr(st, env, *c, f1);
            if r1 == Ok::<Value, VMError>(Value::Boolean(true)) {
                lemma_fuel_monotone_node(st1, env, *b, f1, f2);
                let (st2, r2) = eval_node(st1, env, *b, f1);
                if r2 is Ok {
                    lemma_fuel_monotone_node(st2, env, n, (f1 - 1) as nat, (f2 - 1) as nat);
                }
            }
        },
        Node::If(c, t, o) => {
            lemma_fuel_monotone_expr(st, env, *c, f1, f2);
            let (st1, r1) = eval_expr(st, env, *c, f1);
            if r1 == Ok::<Value, VMError>(Value::Boolean(true)) {
                lemma_fuel_monotone_node(st1, env, *t, f1, f2);
            } else if r1 == Ok::<Value, VMError>(Value::Boolean(false)) {
                lemma_fuel_monotone_node(st1, env, *o, f1, f2);
            }
        },
    }
}

pub proof fn lemma_fuel_monotone_stmts(st: StateV, env: int, ss: Seq<Node>, f1: nat, f2: nat)
    requires
        f1 <= f2,
        eval_stmts(st, env, ss, f1).1 != Err::<Value, VMError>(VMError::ResourceExhausted),
    ensures
        eval_stmts(st, env, ss, f2) == eval_stmts(st, env, ss, f1),
    decreases f1, nodes_size(ss),
{
    if ss.len() > 0 {
        lemma_fuel_monotone_node(st, env, ss[0], f1, f2);
        let (st1, r1) = eval_node(st, env, ss[0], f1);
        if r1 is Ok && ss.len() > 1 {
            lemma_fuel_monotone_stmts(st1, env, ss.drop_first(), f1, f2);
        }
    }
}

pub proof fn lemma_fuel_monotone_expr(st: StateV, env: int, e: Expr, f1: nat, f2: nat)
    requires
        f1 <= f2,
        eval_expr(st, env, e, f1).1 != Err::<Value, VMError>(VMError::ResourceExhausted),
    ensures
        eval_expr(st, env, e, f2) == eval_expr(st, env, e, f1),
    decreases f1, expr_size(e),
{
    match e {
        Expr::Eq(l, r) => lemma_fuel_monotone_binop(st, env, OpKind::Eq, *l, *r, f1, f2),
        Expr::Ne(l, r) => lemma_fuel_monotone_binop(st, env, OpKind::Ne, *l, *r, f1, f2),
        Expr::Greater(l, r) => lemma_fuel_monotone_binop(
            st,
            env,
            OpKind::Greater,
            *l,
            *r,
            f1,
            f2,
        ),
        Expr::GreaterEqual(l, r) => lemma_fuel_monotone_binop(
            st,
            env,
            OpKind::GreaterEqual,
            *l,
            *r,
            f1,
            f2,
        ),
        Expr::Less(l, r) => lemma_fuel_monotone_binop(st, env, OpKind::Less, *l, *r, f1, f2),
        Expr::LessEqual(l, r) => lemma_fuel_monotone_binop(
            st,
            env,
            OpKind::LessEqual,
            *l,
            *r,
            f1,
            f2,
        ),
        Expr::Plus(l, r) => lemma_fuel_monotone_binop(st, env, OpKind::Plus, *l, *r, f1, f2),
        Expr::Minus(l, r) => lemma_fuel_monotone_binop(st, env, OpKind::Minus, *l, *r, f1, f2),
        Expr::Multiply(l, r) => lemma_fuel_monotone_binop(
            st,
            env,
            OpKind::Multiply,
            *l,
            *r,
            f1,
            f2,
        ),
        Expr::Number(_) => {},
        Expr::String(_) => {},
        Expr::Boolean(_) => {},
        Expr::Identifier(_) => {},
        Expr::Assign(_, e2) => {
            lemma_fuel_monotone_expr(st, env, *e2, f1, f2);
        },
        Expr::Call(c, args) => {
            lemma_expr_size_pos(*c);
            lemma_fuel_monotone_expr(st, env, *c, f1, f2);
            let (st1, r1) = eval_expr(st, env, *c, f1);
            match r1 {
                Ok(callee) => {
                    lemma_fuel_monotone_call_args(st1, env, callee, None, args@, f1, f2);
                },
                Err(_) => {},
            }
        },
        Expr::MethodCall(b, k, args) => {
            lemma_expr_size_pos(*b);
            lemma_expr_size_pos(*k);
            lemma_fuel_monotone_expr(st, env, *b, f1, f2);
            let (st1, r1) = eval_expr(st, env, *b, f1);
            match r1 {
                Ok(base) => {
                    lemma_fuel_monotone_expr(st1, env, *k, f1, f2);
                    let (st2, r2) = eval_expr(st1, env, *k, f1);
                    match r2 {
                        Ok(key) => match eval_get(st2, base, key) {
                            Ok(callee) => {
                                lemma_fuel_monotone_call_args(
                                    st2,
                                    env,
                                    callee,
                                    Some(base),
                                    args@,
                                    f1,
                                    f2,
                                );
                            },
                            Err(_) => {},
                        },
                        Err(_) => {},
                    }
                },
                Err(_) => {},
            }
        },
        Expr::Array(es) => {
            lemma_fuel_monotone_exprs(st, env, es@, f1, f2);
        },
        Expr::Object(fs) => {
            lemma_fuel_monotone_fields(st, env, fs@, f1, f2);
        },
        Expr::Get(b, k) => {
            lemma_fuel_monotone_expr(st, env, *b, f1, f2);
            let (st1, r1) = eval_expr(st, env, *b, f1);
            if r1 is Ok {
                lemma_fuel_monotone_expr(st1, env, *k, f1, f2);
            }
        },
        Expr::SetProperty(b, k, v) => {
            lemma_fuel_monotone_expr(st, env, *b, f1, f2);
            let (st1, r1) = eval_expr(st, env, *b, f1);
            if r1 is Ok {
                lemma_fuel_monotone_expr(st1, env, *k, f1, f2);
                let (st2, r2) = eval_expr(st1, env, *k, f1);
                if r2 is Ok {
                    lemma_fuel_monotone_expr(st2, env, *v, f1, f2);
                }
            }
        },
    }
}

pub proof fn lemma_fuel_monotone_binop(
    st: StateV,
    env: int,
    op: OpKind,
    l: Expr,
    r: Expr,
    f1: nat,
    f2: nat,
)
    requires
        f1 <= f2,
        eval_binop_args(st, env, op, l, r, f1).1 != Err::<Value, VMError>(
            VMError::ResourceExhausted,
        ),
    ensures
        eval_binop_args(st, env, op, l, r, f2) == eval_binop_args(st, env, op, l, r, f1),
    decreases f1, expr_size(l) + expr_size(r),
{
    lemma_expr_size_pos(l);
    lemma_expr_size_pos(r);
    lemma_fuel_monotone_expr(st, env, l, f1, f2);
    let (st1, r1) = eval_expr(st, env, l, f1);
    if r1 is Ok {
        lemma_fuel_monotone_expr(st1, env, r, f1, f2);
    }
}

pub proof fn lemma_fuel_monotone_call_args(
    st: StateV,
    env: int,
    callee: Value,
    base: Option<Value>,
    args: Seq<Expr>,
    f1: nat,
    f2: nat,
)
    requires
        f1 <= f2,
        eval_call_args(st, env, callee, base, args, f1).1 != Err::<Value, VMError>(
            VMError::ResourceExhausted,
        ),
    ensures
        eval_call_args(st, env, callee, base, args, f2) == eval_call_args(
            st,
            env,
            callee,
            base,
            args,
            f1,
        ),
    decreases f1, 1 + exprs_size(args),
{
    if callee matches Value::NativeFunction(_) || callee matches Value::Function(_, _, _) {
        lemma_fuel_monotone_exprs(st, env, args, f1, f2);
        let (st1, r1) = eval_exprs(st, env, args, f1);
        match r1 {
            Ok(argv) => {
                lemma_fuel_monotone_apply_call(st1, callee, base, argv, f1, f2);
            },
            Err(_) => {},
        }
    }
}

pub proof fn lemma_fuel_monotone_apply_call(
    st: StateV,
    callee: Value,
    base: Option<Value>,
    args: Seq<Value>,
    f1: nat,
    f2: nat,
)
    requires
        f1 <= f2,
        apply_call(st, callee, base, args, f1).1 != Err::<Value, VMError>(
            VMError::ResourceExhausted,
        ),
    ensures
        apply_call(st, callee, base, args, f2) == apply_call(st, callee, base, args, f1),
    decreases f1, 0nat,
{
    match callee {
        Value::Function(_, _, _) => {
            let params = callee->Function_0;
            let body = callee->Function_1;
            let fenv = callee->Function_2;
            let envs2 = st.envs.push(
                EnvNodeV {
                    enclosing: Some(fenv),
                    bindings: param_bindings((*params)@, args),
                },
            );
            lemma_fuel_monotone_node(
                StateV { envs: envs2, ..st },
                st.envs.len() as int,
                shared_node(body),
                (f1 - 1) as nat,
                (f2 - 1) as nat,
            );
        },
        _ => {},
    }
}

pub proof fn lemma_fuel_monotone_exprs(st: StateV, env: int, es: Seq<Expr>, f1: nat, f2: nat)
    requires
        f1 <= f2,
        eval_exprs(st, env, es, f1).1 != Err::<Seq<Value>, VMError>(VMError::ResourceExhausted),
    ensures
        eval_exprs(st, env, es, f2) == eval_exprs(st, env, es, f1),
    decreases f1, exprs_size(es),
{
    if es.len() > 0 {
        lemma_fuel_monotone_expr(st, env, es[0], f1, f2);
        let (st1, r1) = eval_expr(st, env, es[0], f1);
        if r1 is Ok {
            lemma_fuel_monotone_exprs(st1, env, es.drop_first(), f1, f2);
        }
    }
}

pub proof fn lemma_fuel_monotone_fields(
    st: StateV,
    env: int,
    fs: Seq<(String, Expr)>,
    f1: nat,
    f2: nat,
)
    requires
        f1 <= f2,
        eval_fields(st, env, fs, f1).1 != Err::<Seq<(String, Value)>, VMError>(
            VMError::ResourceExhausted,
        ),
    ensures
        eval_fields(st, env, fs, f2) == eval_fields(st, env, fs, f1),
    decreases f1, fields_size(fs),
{
    if fs.len() > 0 {
        lemma_fuel_monotone_expr(st, env, fs[0].1, f1, f2);
        let (st1, r1) = eval_expr(st, env, fs[0].1, f1);
        if r1 is Ok {
            lemma_fuel_monotone_fields(st1, env, fs.drop_first(), f1, f2);
        }
    }
}

/// Executes a list of statements in order. The list's value is the last
/// statement's value (`Nothing` when empty); the first failure or return
/// signal short-circuits the rest.
pub open spec fn eval_stmts(st: StateV, env: int, ss: Seq<Node>, fuel: nat) -> (
    StateV,
    Result<Value, VMError>,
)
    decreases fuel, nodes_size(ss),
{
    if ss.len() == 0 {
        (st, Ok(Value::Nothing))
    } else {
        let (st1, r1) = eval_node(st, env, ss[0], fuel);
        match r1 {
            Err(e) => (st1, Err(e)),
            Ok(v) => if ss.len() == 1 {
                (st1, Ok(v))
            } else {
                eval_stmts(st1, env, ss.drop_first(), fuel)
            },
        }
    }
}

/// Law: reference semantics of arrays. A `push` through any handle to an
/// array extends the one shared backing store, and a later `length` read
/// through any handle with the same index — in particular a copy made
/// before the push — sees the extended length.
pub proof fn lemma_reference_semantics(
    st: StateV,
    a: usize,
    args: Seq<Value>,
    key: String,
    fuel: nat,
)
    requires
        a < st.arrays.len(),
        key@ == "length"@,
    ensures
        ({
            let (st2, r2) = apply_call(
                st,
                Value::NativeFunction(Native::Push),
                Some(Value::Array(a)),
                args,
                fuel,
            );
            &&& r2 == Ok::<Value, VMError>(Value::Nothing)
            &&& st2.arrays[a as int].len() == st.arrays[a as int].len() + args.len()
            &&& eval_get(st2, Value::Array(a), Value::String(key)) == Ok::<Value, VMError>(
                Value::Number((st.arrays[a as int].len() + args.len()) as i32),
            )
        }),
{
}

/// Law: call isolation. A function call runs in a fresh scope node whose
/// enclosing scope is the function's captured one. Name resolution from
/// that node reads the node itself or the captured chain (at indices up to
/// the captured node), and never any scope created after the capture — in
/// particular never a sibling call's scope.
pub proof fn lemma_call_isolation(
    envs: Seq<EnvNodeV>,
    fenv: usize,
    bindings: Seq<(String, Value)>,
    name: Seq<char>,
)
    requires
        fenv < envs.len(),
    ensures
        ({
            let local = envs.len() as int;
            let envs2 = envs.push(EnvNodeV { enclosing: Some(fenv), bindings });
            forall|k: int|
                fenv < k < local ==> #[trigger] crate::environment::resolve(envs2, local, name)
                    != Some(k)
        }),
{
    let local = envs.len() as int;
    let envs2 = envs.push(EnvNodeV { enclosing: Some(fenv), bindings });
    if crate::environment::lookup(envs2[local].bindings, name) is Some {
    } else {
        if crate::environment::resolve(envs2, fenv as int, name) is Some {
            crate::environment::lemma_resolve_bounds(envs2, fenv as int, name);
        }
    }
}

/// Law: no implicit return. When a function body completes normally, the
/// call's value is `Nothing` — never the body's last expression. When the
/// body raises the return signal, the call's value is exactly the carried
/// value, consumed at this boundary.
pub proof fn lemma_no_implicit_return(
    st: StateV,
    params: std::rc::Rc<Vec<String>>,
    body: std::rc::Rc<Node>,
    fenv: usize,
    base: Option<Value>,
    args: Seq<Value>,
    fuel: nat,
)
    requires
        fuel > 0,
    ensures
        ({
            let envs2 = st.envs.push(
                EnvNodeV {
                    enclosing: Some(fenv),
                    bindings: param_bindings((*params)@, args),
                },
            );
            let (st2, r) = eval_node(
                StateV { envs: envs2, ..st },
                st.envs.len() as int,
                *body,
                (fuel - 1) as nat,
            );
            let call_result = apply_call(st, Value::Function(params, body, fenv), base, args, fuel);
            &&& (r matches Ok(_) ==> call_result == (st2, Ok::<Value, VMError>(Value::Nothing)))
            &&& (r matches Err(VMError::Return(v)) ==> call_result == (
                st2,
                Ok::<Value, VMError>(v),
            ))
        }),
{
}

/// Executes one statement in the scope chain starting at `env`.
pub open spec fn eval_node(st: StateV, env: int, n: Node, fuel: nat) -> (
    StateV,
    Result<Value, VMError>,
)
    decreases fuel, node_size(n),
{
    match n {
        Node::Statements(ss) => eval_stmts(st, env, ss@, fuel),
        Node::Block(ss) => {
            // A block runs its statements in a fresh scope node enclosing
            // the current one, so its declarations do not leak outward.
            let envs2 = st.envs.push(
                EnvNodeV { enclosing: Some(env as usize), bindings: Seq::empty() },
            );
            eval_stmts(StateV { envs: envs2, ..st }, st.envs.len() as int, ss@, fuel)
        },
        Node::ExpressionStatement(e) => eval_expr(st, env, *e, fuel),
        Node::Var(name, init) => {
            match init {
                Some(e) => {
                    let (st1, r1) = eval_expr(st, env, *e, fuel);
                    match r1 {
                        Err(e2) => (st1, Err(e2)),
                        Ok(v) => (
                            StateV { envs: env_define(st1.envs, env, name, v), ..st1 },
                            Ok(v),
                        ),
                    }
                },
                None => (
                    StateV { envs: env_define(st.envs, env, name, Value::Nothing), ..st },
                    Ok(Value::Nothing),
                ),
            }
        },
        Node::Fun(name, params, body) => (
            StateV {
                envs: env_define(
                    st.envs,
                    env,
                    name,
                    Value::Function(params, body, env as usize),
                ),
                ..st
            },
            Ok(Value::Nothing),
        ),
        Node::Return(e) => {
            let (st1, r1) = eval_expr(st, env, *e, fuel);
            match r1 {
                Err(e2) => (st1, Err(e2)),
                Ok(v) => (st1, Err(VMError::Return(v))),
            }
        },
        Node::Print(e) => {
            let (st1, r1) = eval_expr(st, env, *e, fuel);
            match r1 {
                Err(e2) => (st1, Err(e2)),
                Ok(v) => (StateV { output: st1.output.push(v), ..st1 }, Ok(v)),
            }
        },
        Node::While(c, b) => {
            let (st1, r1) = eval_expr(st, env, *c, fuel);
            match r1 {
                Err(e2) => (st1, Err(e2)),
                Ok(Value::Boolean(false)) => (st1, Ok(Value::Nothing)),
                Ok(Value::Boolean(true)) => {
                    let (st2, r2) = eval_node(st1, env, *b, fuel);
                    match r2 {
                        Err(e2) => (st2, Err(e2)),
                        Ok(_) => if fuel == 0 {
                            (st2, Err(VMError::ResourceExhausted))
                        } else {
                            eval_node(st2, env, n, (fuel - 1) as nat)
                        },
                    }
                },
                Ok(_) => (st1, Err(VMError::TypeMismatch(OpKind::WhileCondition))),
            }
        },
        Node::If(c, t, o) => {
            let (st1, r1) = eval_expr(st, env, *c, fuel);
            match r1 {
                Err(e2) => (st1, Err(e2)),
                Ok(Value::Boolean(true)) => eval_node(st1, env, *t, fuel),
                Ok(Value::Boolean(false)) => eval_node(st1, env, *o, fuel),
                Ok(_) => (st1, Err(VMError::TypeMismatch(OpKind::IfCondition))),
            }
        },
    }
}

} // verus!
