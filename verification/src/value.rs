//! Runtime values.
//!
//! `Number`, `String`, `Boolean` and `Nothing` are plain values. `Array`,
//! `Object` and the captured scope of a `Function` are reference values:
//! the variant holds an index into the interpreter's heap, so copying the
//! `Value` copies a handle and every copy aliases the same storage.

use vstd::prelude::*;

use std::rc::Rc;

use crate::parser::Node;

verus! {

/// A host-provided callable. The set is closed: the interpreter knows how
/// to apply each one (see the call protocol in `execute`).
#[derive(Clone, Copy)]
pub enum Native {
    /// Appends its arguments to the interpreter's output channel.
    Println,
    /// Appends its arguments to the receiving array, in order.
    Push,
}

pub enum Value {
    Nothing,
    Number(i32),
    String(String),
    Boolean(bool),
    NativeFunction(Native),
    /// Parameter names, body, and the scope chain node captured where the
    /// function was defined (lexical scoping).
    Function(Rc<Vec<String>>, Rc<Node>, usize),
    /// Index of the backing store in the interpreter's array heap.
    Array(usize),
    /// Index of the backing store in the interpreter's object heap.
    Object(usize),
}

/// A value is well formed when every heap handle it carries points inside
/// the heaps of the current interpreter state.
pub open spec fn value_wf(v: Value, n_envs: nat, n_arrays: nat, n_objects: nat) -> bool {
    match v {
        Value::Function(_, _, env) => env < n_envs,
        Value::Array(i) => i < n_arrays,
        Value::Object(i) => i < n_objects,
        _ => true,
    }
}

/// Relies on `Rc::clone`: the clone is a second handle to the same
/// allocation, so it equals the original.
#[verifier::external_body]
pub fn rc_clone<T>(rc: &Rc<T>) -> (r: Rc<T>)
    ensures
        r == *rc,
{
    rc.clone()
}

/// Copies a value. Plain variants are duplicated; reference variants copy
/// the handle, so the copy aliases the same storage as the original.
pub fn clone_value(v: &Value) -> (r: Value)
    ensures
        r == *v,
{
    match v {
        Value::Nothing => Value::Nothing,
        Value::Number(n) => Value::Number(*n),
        Value::String(s) => Value::String(s.clone()),
        Value::Boolean(b) => Value::Boolean(*b),
        Value::NativeFunction(nf) => Value::NativeFunction(*nf),
        Value::Function(params, body, env) => Value::Function(
            rc_clone(params),
            rc_clone(body),
            *env,
        ),
        Value::Array(i) => Value::Array(*i),
        Value::Object(i) => Value::Object(*i),
    }
}

} // verus!
