//! Evaluation outcomes.
//!
//! `VMError` is the single propagation channel of the evaluator. All but
//! one variant are terminal failures that abort the whole execution. The
//! exception is `Return`, the control-transfer signal raised by a `return`
//! statement: it unwinds statement execution like a failure but is consumed
//! at the nearest function-call boundary and never surfaces as an error
//! there.

use vstd::prelude::*;

use crate::environment::{EnvNodeV, Environment};
use crate::object::Object;
use crate::parser::{expr_size, exprs_size, fields_size, node_size, nodes_size, Expr, Node};
use crate::semantics::{
    apply_native, base_wf, eval_binary, eval_binop_args, eval_call_args, eval_expr, eval_exprs,
    eval_fields, eval_get, eval_node, eval_put, eval_stmts, err_wf, lemma_env_get_wf,
    lemma_eval_get_wf, lemma_expr_size_pos, lemma_value_wf_mono, lemma_wf_define, lemma_wf_output,
    lemma_wf_push_array, lemma_wf_push_node, lemma_wf_push_object, lemma_wf_set_array,
    lemma_wf_set_object, outcome_wf, pairs_wf, param_bindings, st_extends, st_value_wf, state_wf,
    values_wf, StateV,
};
use crate::value::{clone_value, rc_clone, Native, Value};

verus! {

/// The construct whose operand had the wrong type, carried by
/// `VMError::TypeMismatch`.
#[derive(Clone, Copy, PartialEq, Eq, Structural)]
pub enum OpKind {
    Eq,
    Ne,
    Greater,
    GreaterEqual,
    Less,
    LessEqual,
    Plus,
    Minus,
    Multiply,
    WhileCondition,
    IfCondition,
}

pub enum VMError {
    /// A name was read or assigned that no scope in the chain defines.
    UnknownName(String),
    /// An operator or control condition was given an operand of the wrong
    /// variant; the payload names the construct.
    TypeMismatch(OpKind),
    /// A call was made on a value that is neither a function nor a native.
    NotCallable,
    /// An array was indexed at or past its length.
    IndexOutOfRange,
    /// An array was indexed with a negative number.
    InvalidIndex,
    /// An object was read at a key it does not hold; carries the key.
    NoSuchProperty(String),
    /// A property access with a base/key pairing the language does not
    /// define.
    InvalidAccess,
    /// The step budget ran out: recursion too deep or a loop too long.
    ResourceExhausted,
    /// The return control-transfer signal, carrying the returned value.
    /// Not a failure: it is consumed at the function-call boundary.
    Return(Value),
}

/// The interpreter: the scope arena and the heaps that back the language's
/// reference values, plus the output channel. Its view is the semantic
/// state `StateV`; every evaluator function is proved to transform it
/// exactly as the `semantics` functions say.
pub struct Interp {
    pub env: Environment,
    pub arrays: Vec<Vec<Value>>,
    pub objects: Vec<Object>,
    pub output: Vec<Value>,
}

impl View for Interp {
    type V = StateV;

    open spec fn view(&self) -> StateV {
        StateV {
            envs: self.env@,
            arrays: self.arrays@.map_values(|a: Vec<Value>| a@),
            objects: self.objects@.map_values(|o: Object| o@),
            output: self.output@,
        }
    }
}

impl Interp {
    pub open spec fn wf(&self) -> bool {
        state_wf(self@)
    }

    /// A fresh interpreter: one empty root scope, empty heaps, no output.
    /// The host registers its native bindings (at least an output
    /// primitive) into scope 0 before execution begins.
    pub fn new() -> (r: Interp)
        ensures
            r.wf(),
            r@.envs.len() == 1,
            r@.envs[0].enclosing is None,
            r@.envs[0].bindings == Seq::<(String, Value)>::empty(),
            r@.arrays == Seq::<Seq<Value>>::empty(),
            r@.objects == Seq::<Seq<(String, Value)>>::empty(),
            r@.output == Seq::<Value>::empty(),
    {
        let r = Interp {
            env: Environment::new(),
            arrays: Vec::new(),
            objects: Vec::new(),
            output: Vec::new(),
        };
        proof {
            assert(r@.arrays =~= Seq::<Seq<Value>>::empty());
            assert(r@.objects =~= Seq::<Seq<(String, Value)>>::empty());
        }
        r
    }

    /// Allocates a new array with the given contents and hands back its
    /// handle.
    fn array_new(&mut self, vals: Vec<Value>) -> (id: usize)
        ensures
            final(self)@ == (StateV { arrays: old(self)@.arrays.push(vals@), ..old(self)@ }),
            id == old(self)@.arrays.len(),
    {
        let id = self.arrays.len();
        self.arrays.push(vals);
        proof {
            assert(self@ =~~= (StateV { arrays: old(self)@.arrays.push(vals@), ..old(self)@ }));
        }
        id
    }

    /// Replaces the element at `idx` of array `a`.
    fn array_set_elem(&mut self, a: usize, idx: usize, v: Value)
        requires
            a < old(self)@.arrays.len(),
            idx < old(self)@.arrays[a as int].len(),
        ensures
            final(self)@ == (StateV {
                arrays: old(self)@.arrays.update(
                    a as int,
                    old(self)@.arrays[a as int].update(idx as int, v),
                ),
                ..old(self)@
            }),
    {
        let mut arr = self.arrays.remove(a);
        arr[idx] = v;
        self.arrays.insert(a, arr);
        proof {
            assert(self@ =~~= (StateV {
                arrays: old(self)@.arrays.update(
                    a as int,
                    old(self)@.arrays[a as int].update(idx as int, v),
                ),
                ..old(self)@
            }));
        }
    }

    /// Appends `args` to array `a` in place.
    fn array_append(&mut self, a: usize, mut args: Vec<Value>)
        requires
            a < old(self)@.arrays.len(),
        ensures
            final(self)@ == (StateV {
                arrays: old(self)@.arrays.update(
                    a as int,
                    old(self)@.arrays[a as int] + args@,
                ),
                ..old(self)@
            }),
    {
        let ghost appended = args@;
        let mut arr = self.arrays.remove(a);
        arr.append(&mut args);
        self.arrays.insert(a, arr);
        proof {
            assert(self@ =~~= (StateV {
                arrays: old(self)@.arrays.update(
                    a as int,
                    old(self)@.arrays[a as int] + appended,
                ),
                ..old(self)@
            }));
        }
    }

    /// Allocates a new record with the given fields and hands back its
    /// handle.
    fn object_new(&mut self, fields: Vec<(String, Value)>) -> (id: usize)
        ensures
            final(self)@ == (StateV { objects: old(self)@.objects.push(fields@), ..old(self)@ }),
            id == old(self)@.objects.len(),
    {
        let id = self.objects.len();
        self.objects.push(Object { fields });
        proof {
            assert(self@ =~~= (StateV {
                objects: old(self)@.objects.push(fields@),
                ..old(self)@
            }));
        }
        id
    }

    /// Upserts a field of record `o` in place.
    fn object_push_field(&mut self, o: usize, name: String, v: Value)
        requires
            o < old(self)@.objects.len(),
        ensures
            final(self)@ == (StateV {
                objects: old(self)@.objects.update(
                    o as int,
                    old(self)@.objects[o as int].push((name, v)),
                ),
                ..old(self)@
            }),
    {
        let mut obj = self.objects.remove(o);
        obj.set(name, v);
        self.objects.insert(o, obj);
        proof {
            assert(self@ =~~= (StateV {
                objects: old(self)@.objects.update(
                    o as int,
                    old(self)@.objects[o as int].push((name, v)),
                ),
                ..old(self)@
            }));
        }
    }

    /// Emits one value on the output channel.
    fn output_push(&mut self, v: Value)
        ensures
            final(self)@ == (StateV { output: old(self)@.output.push(v), ..old(self)@ }),
    {
        self.output.push(v);
        proof {
            assert(self@ =~~= (StateV { output: old(self)@.output.push(v), ..old(self)@ }));
        }
    }

    /// Emits a list of values on the output channel, in order.
    fn output_append(&mut self, mut vs: Vec<Value>)
        ensures
            final(self)@ == (StateV { output: old(self)@.output + vs@, ..old(self)@ }),
    {
        let ghost appended = vs@;
        self.output.append(&mut vs);
        proof {
            assert(self@ =~~= (StateV { output: old(self)@.output + appended, ..old(self)@ }));
        }
    }
}

/// Applies a binary operator to two evaluated operands: both must be
/// numbers; arithmetic wraps in two's complement; any other operand
/// pairing is a `TypeMismatch` naming the operator.
pub fn binary_result(op: OpKind, l: &Value, r: &Value) -> (res: Result<Value, VMError>)
    ensures
        res == eval_binary(op, *l, *r),
        match res {
            Ok(v) => v matches Value::Number(_) || v matches Value::Boolean(_) || v
                matches Value::Nothing,
            Err(_) => true,
        },
{
    match (l, r) {
        (Value::Number(a), Value::Number(b)) => match op {
            OpKind::Eq => Ok(Value::Boolean(*a == *b)),
            OpKind::Ne => Ok(Value::Boolean(*a != *b)),
            OpKind::Greater => Ok(Value::Boolean(*a > *b)),
            OpKind::GreaterEqual => Ok(Value::Boolean(*a >= *b)),
            OpKind::Less => Ok(Value::Boolean(*a < *b)),
            OpKind::LessEqual => Ok(Value::Boolean(*a <= *b)),
            OpKind::Plus => Ok(Value::Number(a.wrapping_add(*b))),
            OpKind::Minus => Ok(Value::Number(a.wrapping_sub(*b))),
            OpKind::Multiply => Ok(Value::Number(a.wrapping_mul(*b))),
            OpKind::WhileCondition => Ok(Value::Nothing),
            OpKind::IfCondition => Ok(Value::Nothing),
        },
        _ => Err(VMError::TypeMismatch(op)),
    }
}

/// Property read `base[key]` (`base.name` is the same operation with a
/// string key). Arrays take a non-negative in-range numeric index or the
/// reserved keys `length` and `push`; records take a string key they hold.
pub fn get(interp: &Interp, base: &Value, key: &Value) -> (r: Result<Value, VMError>)
    requires
        interp.wf(),
        st_value_wf(interp@, *base),
    ensures
        r == eval_get(interp@, *base, *key),
        r matches Ok(v) ==> st_value_wf(interp@, v),
{
    proof {
        lemma_eval_get_wf(interp@, *base, *key);
    }
    match base {
        Value::Array(i) => match key {
            Value::Number(n) => {
                if *n < 0 {
                    Err(VMError::InvalidIndex)
                } else {
                    let idx = *n as usize;
                    if idx >= array_len_of(interp, *i) {
                        Err(VMError::IndexOutOfRange)
                    } else {
                        Ok(clone_value(&interp.arrays[*i][idx]))
                    }
                }
            },
            Value::String(s) => {
                let length_key = "length".to_owned();
                let push_key = "push".to_owned();
                if s.eq(&length_key) {
                    Ok(Value::Number(#[verifier::truncate] (array_len_of(interp, *i) as i32)))
                } else if s.eq(&push_key) {
                    Ok(Value::NativeFunction(Native::Push))
                } else {
                    Err(VMError::InvalidAccess)
                }
            },
            _ => Err(VMError::InvalidAccess),
        },
        Value::Object(i) => match key {
            Value::String(s) => {
                let found = crate::environment::lookup_binding(&interp.objects[*i].fields, s);
                match found {
                    Some(v) => Ok(v),
                    None => Err(VMError::NoSuchProperty(s.clone())),
                }
            },
            _ => Err(VMError::InvalidAccess),
        },
        _ => Err(VMError::InvalidAccess),
    }
}

/// The length of array `a`.
fn array_len_of(interp: &Interp, a: usize) -> (n: usize)
    requires
        a < interp@.arrays.len(),
    ensures
        n == interp@.arrays[a as int].len(),
{
    interp.arrays[a].len()
}

/// Property write `base[key] = value`: replaces an existing array element
/// (no auto-extension) or upserts a record field, and yields the assigned
/// value.
pub fn set_property(interp: &mut Interp, base: &Value, key: &Value, value: Value) -> (r: Result<
    Value,
    VMError,
>)
    requires
        old(interp).wf(),
        st_value_wf(old(interp)@, *base),
        st_value_wf(old(interp)@, value),
    ensures
        final(interp).wf(),
        st_extends(old(interp)@, final(interp)@),
        eval_put(old(interp)@, *base, *key, value) == (final(interp)@, r),
        outcome_wf(final(interp)@, r),
{
    match base {
        Value::Array(i) => match key {
            Value::Number(n) => {
                if *n < 0 {
                    Err(VMError::InvalidIndex)
                } else {
                    let idx = *n as usize;
                    if idx >= array_len_of(interp, *i) {
                        Err(VMError::IndexOutOfRange)
                    } else {
                        let stored = clone_value(&value);
                        proof {
                            let st = old(interp)@;
                            let contents = st.arrays[*i as int].update(idx as int, value);
                            assert(values_wf(st, contents)) by {
                                assert forall|j: int|
                                    0 <= j < contents.len() implies st_value_wf(
                                    st,
                                    #[trigger] contents[j],
                                ) by {
                                    if j != idx {
                                        assert(contents[j] == st.arrays[*i as int][j]);
                                    }
                                };
                            };
                            lemma_wf_set_array(st, *i as int, contents);
                        }
                        interp.array_set_elem(*i, idx, stored);
                        Ok(value)
                    }
                }
            },
            _ => Err(VMError::InvalidAccess),
        },
        Value::Object(i) => match key {
            Value::String(s) => {
                let stored = clone_value(&value);
                proof {
                    let st = old(interp)@;
                    let contents = st.objects[*i as int].push((*s, value));
                    assert(pairs_wf(st, contents)) by {
                        assert forall|j: int|
                            0 <= j < contents.len() implies st_value_wf(
                            st,
                            #[trigger] contents[j].1,
                        ) by {
                            if j < st.objects[*i as int].len() {
                                assert(contents[j] == st.objects[*i as int][j]);
                            }
                        };
                    };
                    lemma_wf_set_object(st, *i as int, contents);
                }
                interp.object_push_field(*i, s.clone(), stored);
                Ok(value)
            },
            _ => Err(VMError::InvalidAccess),
        },
        _ => Err(VMError::InvalidAccess),
    }
}

/// Applies a host-provided native callable to an optional receiver and
/// evaluated arguments.
pub fn run_native(interp: &mut Interp, nf: Native, base: &Option<Value>, args: Vec<Value>) -> (r:
    Result<Value, VMError>)
    requires
        old(interp).wf(),
        base_wf(old(interp)@, *base),
        values_wf(old(interp)@, args@),
    ensures
        final(interp).wf(),
        st_extends(old(interp)@, final(interp)@),
        apply_native(old(interp)@, nf, *base, args@) == (final(interp)@, r),
        outcome_wf(final(interp)@, r),
{
    match nf {
        Native::Println => {
            proof {
                lemma_wf_output(old(interp)@, old(interp)@.output + args@);
            }
            interp.output_append(args);
            Ok(Value::Nothing)
        },
        Native::Push => match base {
            Some(Value::Array(i)) => {
                proof {
                    let st = old(interp)@;
                    let contents = st.arrays[*i as int] + args@;
                    assert(values_wf(st, contents)) by {
                        assert forall|j: int|
                            0 <= j < contents.len() implies st_value_wf(
                            st,
                            #[trigger] contents[j],
                        ) by {
                            if j < st.arrays[*i as int].len() {
                                assert(contents[j] == st.arrays[*i as int][j]);
                            } else {
                                assert(contents[j] == args@[j - st.arrays[*i as int].len()]);
                            }
                        };
                    };
                    lemma_wf_set_array(st, *i as int, contents);
                }
                interp.array_append(*i, args);
                Ok(Value::Nothing)
            },
            _ => Ok(Value::Nothing),
        },
    }
}

/// Evaluates both operands of a binary operator, left first, then applies
/// the operator.
fn execute_binop(interp: &mut Interp, env: usize, op: OpKind, l: &Expr, r: &Expr, fuel: u64) -> (
    res: Result<Value, VMError>)
    requires
        old(interp).wf(),
        env < old(interp)@.envs.len(),
    ensures
        final(interp).wf(),
        st_extends(old(interp)@, final(interp)@),
        eval_binop_args(old(interp)@, env as int, op, *l, *r, fuel as nat) == (final(interp)@, res),
        outcome_wf(final(interp)@, res),
    decreases fuel as int, expr_size(*l) + expr_size(*r),
{
    proof {
        lemma_expr_size_pos(*l);
        lemma_expr_size_pos(*r);
    }
    let lv = match execute_expr(interp, env, l, fuel) {
        Ok(v) => v,
        Err(e) => return Err(e),
    };
    let rv = match execute_expr(interp, env, r, fuel) {
        Ok(v) => v,
        Err(e) => return Err(e),
    };
    binary_result(op, &lv, &rv)
}

/// Evaluates the expressions `es[i..]` in order, in the caller's scope,
/// yielding their values or the first failure.
fn execute_exprs(interp: &mut Interp, env: usize, es: &Vec<Expr>, i: usize, fuel: u64) -> (r:
    Result<Vec<Value>, VMError>)
    requires
        old(interp).wf(),
        env < old(interp)@.envs.len(),
        i <= es.len(),
    ensures
        final(interp).wf(),
        st_extends(old(interp)@, final(interp)@),
        ({
            let (st2, r2) = eval_exprs(old(interp)@, env as int, es@.skip(i as int), fuel as nat);
            &&& final(interp)@ == st2
            &&& match r2 {
                Ok(vs) => r matches Ok(v) && v@ == vs,
                Err(e) => r == Err::<Vec<Value>, VMError>(e),
            }
        }),
        r matches Ok(v) ==> values_wf(final(interp)@, v@),
        r matches Err(e) ==> err_wf(final(interp)@, e),
    decreases fuel as int, exprs_size(es@.skip(i as int)),
{
    if i == es.len() {
        proof {
            assert(es@.skip(i as int) =~= Seq::<Expr>::empty());
        }
        Ok(Vec::new())
    } else {
        proof {
            assert(es@.skip(i as int)[0] == es@[i as int]);
            assert(es@.skip(i as int).drop_first() =~= es@.skip(i as int + 1));
        }
        let v = match execute_expr(interp, env, &es[i], fuel) {
            Ok(v) => v,
            Err(e) => return Err(e),
        };
        let ghost st1 = interp@;
        let mut rest = match execute_exprs(interp, env, es, i + 1, fuel) {
            Ok(vs) => vs,
            Err(e) => return Err(e),
        };
        let ghost rest0 = rest@;
        proof {
            rest0.insert_ensures(0, v);
            lemma_value_wf_mono(st1, interp@, v);
        }
        rest.insert(0, v);
        proof {
            assert forall|j: int| 0 <= j < rest@.len() implies st_value_wf(
                interp@,
                #[trigger] rest@[j],
            ) by {
                if j == 0 {
                    assert(rest@[j] == v);
                } else {
                    assert(rest@[j] == rest0[j - 1]);
                }
            };
        }
        Ok(rest)
    }
}

/// Evaluates the fields `fs[i..]` of a record literal in declaration
/// order.
fn execute_fields(interp: &mut Interp, env: usize, fs: &Vec<(String, Expr)>, i: usize, fuel: u64)
    -> (r: Result<Vec<(String, Value)>, VMError>)
    requires
        old(interp).wf(),
        env < old(interp)@.envs.len(),
        i <= fs.len(),
    ensures
        final(interp).wf(),
        st_extends(old(interp)@, final(interp)@),
        ({
            let (st2, r2) = eval_fields(old(interp)@, env as int, fs@.skip(i as int), fuel as nat);
            &&& final(interp)@ == st2
            &&& match r2 {
                Ok(ps) => r matches Ok(v) && v@ == ps,
                Err(e) => r == Err::<Vec<(String, Value)>, VMError>(e),
            }
        }),
        r matches Ok(v) ==> pairs_wf(final(interp)@, v@),
        r matches Err(e) ==> err_wf(final(interp)@, e),
    decreases fuel as int, fields_size(fs@.skip(i as int)),
{
    if i == fs.len() {
        proof {
            assert(fs@.skip(i as int) =~= Seq::<(String, Expr)>::empty());
        }
        Ok(Vec::new())
    } else {
        proof {
            assert(fs@.skip(i as int)[0] == fs@[i as int]);
            assert(fs@.skip(i as int).drop_first() =~= fs@.skip(i as int + 1));
        }
        let v = match execute_expr(interp, env, &fs[i].1, fuel) {
            Ok(v) => v,
            Err(e) => return Err(e),
        };
        let name = fs[i].0.clone();
        let ghost st1 = interp@;
        let mut rest = match execute_fields(interp, env, fs, i + 1, fuel) {
            Ok(ps) => ps,
            Err(e) => return Err(e),
        };
        let ghost rest0 = rest@;
        proof {
            rest0.insert_ensures(0, (name, v));
            lemma_value_wf_mono(st1, interp@, v);
        }
        rest.insert(0, (name, v));
        proof {
            assert forall|j: int| 0 <= j < rest@.len() implies st_value_wf(
                interp@,
                #[trigger] rest@[j].1,
            ) by {
                if j == 0 {
                    assert(rest@[j] == (name, v));
                } else {
                    assert(rest@[j] == rest0[j - 1]);
                }
            };
        }
        Ok(rest)
    }
}

/// The call protocol: evaluates the argument expressions left to right in
/// the caller's scope, then applies the callee. A native is applied
/// directly. A function value gets a fresh scope node enclosing its
/// captured scope (not the caller's), its parameters bound there by
/// position — missing trailing arguments are bound to `Nothing`, extra
/// arguments ignored — and its body runs in that node. A `Return` signal
/// from the body is consumed here; normal completion yields `Nothing`.
/// Calling any other value fails with `NotCallable`.
#[verifier::loop_isolation(false)]
pub fn call(
    interp: &mut Interp,
    env: usize,
    callee: Value,
    base: Option<Value>,
    arguments: &Vec<Expr>,
    fuel: u64,
) -> (r: Result<Value, VMError>)
    requires
        old(interp).wf(),
        env < old(interp)@.envs.len(),
        st_value_wf(old(interp)@, callee),
        base_wf(old(interp)@, base),
    ensures
        final(interp).wf(),
        st_extends(old(interp)@, final(interp)@),
        eval_call_args(old(interp)@, env as int, callee, base, arguments@, fuel as nat) == (
            final(interp)@,
            r,
        ),
        outcome_wf(final(interp)@, r),
    decreases fuel as int, 1 + exprs_size(arguments@),
{
    match &callee {
        Value::NativeFunction(_) => {},
        Value::Function(_, _, _) => {},
        _ => {
            return Err(VMError::NotCallable);
        },
    }
    proof {
        assert(arguments@.skip(0) =~= arguments@);
    }
    let argv = match execute_exprs(interp, env, arguments, 0, fuel) {
        Ok(v) => v,
        Err(e) => return Err(e),
    };
    let ghost st1 = interp@;
    match callee {
        Value::NativeFunction(nf) => {
            proof {
                lemma_value_wf_mono(old(interp)@, st1, callee);
                match &base {
                    Some(b) => lemma_value_wf_mono(old(interp)@, st1, *b),
                    None => {},
                }
            }
            run_native(interp, nf, &base, argv)
        },
        Value::Function(params, body, fenv) => {
            if fuel == 0 {
                return Err(VMError::ResourceExhausted);
            }
            proof {
                lemma_value_wf_mono(old(interp)@, st1, callee);
                lemma_wf_push_node(st1, fenv, Seq::empty());
            }
            let local = interp.env.new_enclosing(fenv);
            proof {
                assert(interp@ =~~= (StateV {
                    envs: st1.envs.push(
                        EnvNodeV { enclosing: Some(fenv), bindings: Seq::empty() },
                    ),
                    ..st1
                }));
                assert(param_bindings((*params)@, argv@).take(0) =~= Seq::<(
                    String,
                    Value,
                )>::empty());
            }
            let ps: &Vec<String> = &*params;
            let n_params = ps.len();
            let mut j: usize = 0;
            while j < n_params
                invariant
                    j <= n_params,
                    interp@ == (StateV {
                        envs: st1.envs.push(
                            EnvNodeV {
                                enclosing: Some(fenv),
                                bindings: param_bindings((*params)@, argv@).take(j as int),
                            },
                        ),
                        ..st1
                    }),
                    state_wf(interp@),
                decreases n_params - j,
            {
                let name = ps[j].clone();
                let arg = if j < argv.len() {
                    clone_value(&argv[j])
                } else {
                    Value::Nothing
                };
                proof {
                    if j < argv.len() {
                        lemma_value_wf_mono(st1, interp@, arg);
                    }
                    lemma_wf_define(interp@, local as int, name, arg);
                    assert(param_bindings((*params)@, argv@).take(j as int).push(
                        (name, arg),
                    ) =~= param_bindings((*params)@, argv@).take(j as int + 1));
                }
                interp.env.define(local, name, arg);
                proof {
                    assert(interp@ =~~= (StateV {
                        envs: st1.envs.push(
                            EnvNodeV {
                                enclosing: Some(fenv),
                                bindings: param_bindings((*params)@, argv@).take(j as int + 1),
                            },
                        ),
                        ..st1
                    }));
                }
                j += 1;
            }
            proof {
                assert(param_bindings((*params)@, argv@).take(n_params as int)
                    =~= param_bindings((*params)@, argv@));
            }
            let res = execute_node(interp, local, &*body, fuel - 1);
            match res {
                Ok(_) => Ok(Value::Nothing),
                Err(VMError::Return(v)) => Ok(v),
                Err(e) => Err(e),
            }
        },
        _ => Err(VMError::NotCallable),
    }
}

/// Evaluates one expression in the scope chain starting at `env`.
pub fn execute_expr(interp: &mut Interp, env: usize, expr: &Expr, fuel: u64) -> (r: Result<
    Value,
    VMError,
>)
    requires
        old(interp).wf(),
        env < old(interp)@.envs.len(),
    ensures
        final(interp).wf(),
        st_extends(old(interp)@, final(interp)@),
        eval_expr(old(interp)@, env as int, *expr, fuel as nat) == (final(interp)@, r),
        outcome_wf(final(interp)@, r),
    decreases fuel as int, expr_size(*expr),
{
    match expr {
        Expr::Eq(l, r2) => execute_binop(interp, env, OpKind::Eq, &**l, &**r2, fuel),
        Expr::Ne(l, r2) => execute_binop(interp, env, OpKind::Ne, &**l, &**r2, fuel),
        Expr::Greater(l, r2) => execute_binop(interp, env, OpKind::Greater, &**l, &**r2, fuel),
        Expr::GreaterEqual(l, r2) => execute_binop(
            interp,
            env,
            OpKind::GreaterEqual,
            &**l,
            &**r2,
            fuel,
        ),
        Expr::Less(l, r2) => execute_binop(interp, env, OpKind::Less, &**l, &**r2, fuel),
        Expr::LessEqual(l, r2) => execute_binop(interp, env, OpKind::LessEqual, &**l, &**r2, fuel),
        Expr::Plus(l, r2) => execute_binop(interp, env, OpKind::Plus, &**l, &**r2, fuel),
        Expr::Minus(l, r2) => execute_binop(interp, env, OpKind::Minus, &**l, &**r2, fuel),
        Expr::Multiply(l, r2) => execute_binop(interp, env, OpKind::Multiply, &**l, &**r2, fuel),
        Expr::Number(n) => Ok(Value::Number(*n)),
        Expr::String(s) => Ok(Value::String(s.clone())),
        Expr::Boolean(b) => Ok(Value::Boolean(*b)),
        Expr::Identifier(name) => {
            proof {
                lemma_env_get_wf(interp@, env as int, name@);
            }
            interp.env.get(env, name)
        },
        Expr::Assign(name, e2) => {
            let v = match execute_expr(interp, env, &**e2, fuel) {
                Ok(v) => v,
                Err(e) => return Err(e),
            };
            proof {
                if crate::environment::resolve(interp@.envs, env as int, name@) is Some {
                    crate::environment::lemma_resolve_bounds(interp@.envs, env as int, name@);
                    let k = crate::environment::resolve(interp@.envs, env as int, name@)->Some_0;
                    lemma_wf_define(interp@, k, *name, v);
                }
            }
            interp.env.set(env, name.clone(), clone_value(&v))
        },
        Expr::Call(c, args) => {
            proof {
                lemma_expr_size_pos(**c);
            }
            let callee = match execute_expr(interp, env, &**c, fuel) {
                Ok(v) => v,
                Err(e) => return Err(e),
            };
            call(interp, env, callee, None, args, fuel)
        },
        Expr::MethodCall(b, k, args) => {
            proof {
                lemma_expr_size_pos(**b);
                lemma_expr_size_pos(**k);
            }
            let base = match execute_expr(interp, env, &**b, fuel) {
                Ok(v) => v,
                Err(e) => return Err(e),
            };
            let ghost st_b = interp@;
            let key = match execute_expr(interp, env, &**k, fuel) {
                Ok(v) => v,
                Err(e) => return Err(e),
            };
            proof {
                lemma_value_wf_mono(st_b, interp@, base);
            }
            let callee = match get(interp, &base, &key) {
                Ok(v) => v,
                Err(e) => return Err(e),
            };
            call(interp, env, callee, Some(base), args, fuel)
        },
        Expr::Array(es) => {
            proof {
                assert(es@.skip(0) =~= es@);
            }
            let vals = match execute_exprs(interp, env, es, 0, fuel) {
                Ok(v) => v,
                Err(e) => return Err(e),
            };
            proof {
                lemma_wf_push_array(interp@, vals@);
            }
            let id = interp.array_new(vals);
            Ok(Value::Array(id))
        },
        Expr::Object(fs) => {
            proof {
                assert(fs@.skip(0) =~= fs@);
            }
            let fields = match execute_fields(interp, env, fs, 0, fuel) {
                Ok(v) => v,
                Err(e) => return Err(e),
            };
            proof {
                lemma_wf_push_object(interp@, fields@);
            }
            let id = interp.object_new(fields);
            Ok(Value::Object(id))
        },
        Expr::Get(b, k) => {
            let base = match execute_expr(interp, env, &**b, fuel) {
                Ok(v) => v,
                Err(e) => return Err(e),
            };
            let ghost st_b = interp@;
            let key = match execute_expr(interp, env, &**k, fuel) {
                Ok(v) => v,
                Err(e) => return Err(e),
            };
            proof {
                lemma_value_wf_mono(st_b, interp@, base);
            }
            get(interp, &base, &key)
        },
        Expr::SetProperty(b, k, v) => {
            let base = match execute_expr(interp, env, &**b, fuel) {
                Ok(v2) => v2,
                Err(e) => return Err(e),
            };
            let ghost st_b = interp@;
            let key = match execute_expr(interp, env, &**k, fuel) {
                Ok(v2) => v2,
                Err(e) => return Err(e),
            };
            let ghost st_k = interp@;
            let value = match execute_expr(interp, env, &**v, fuel) {
                Ok(v2) => v2,
                Err(e) => return Err(e),
            };
            proof {
                lemma_value_wf_mono(st_b, st_k, base);
                lemma_value_wf_mono(st_k, interp@, base);
            }
            set_property(interp, &base, &key, value)
        },
    }
}

/// Executes the statements `ss[i..]` in order in the scope chain starting
/// at `env`. The value is the last statement's value (`Nothing` when the
/// list is empty); the first failure or return signal short-circuits the
/// rest.
fn execute_stmts(interp: &mut Interp, env: usize, ss: &Vec<Node>, i: usize, fuel: u64) -> (r:
    Result<Value, VMError>)
    requires
        old(interp).wf(),
        env < old(interp)@.envs.len(),
        i <= ss.len(),
    ensures
        final(interp).wf(),
        st_extends(old(interp)@, final(interp)@),
        eval_stmts(old(interp)@, env as int, ss@.skip(i as int), fuel as nat) == (
            final(interp)@,
            r,
        ),
        outcome_wf(final(interp)@, r),
    decreases fuel as int, nodes_size(ss@.skip(i as int)),
{
    if i == ss.len() {
        proof {
            assert(ss@.skip(i as int) =~= Seq::<Node>::empty());
        }
        Ok(Value::Nothing)
    } else {
        proof {
            assert(ss@.skip(i as int)[0] == ss@[i as int]);
            assert(ss@.skip(i as int).drop_first() =~= ss@.skip(i as int + 1));
        }
        let v = match execute_node(interp, env, &ss[i], fuel) {
            Ok(v) => v,
            Err(e) => return Err(e),
        };
        if i + 1 == ss.len() {
            Ok(v)
        } else {
            execute_stmts(interp, env, ss, i + 1, fuel)
        }
    }
}

/// Executes one statement in the scope chain starting at `env`.
///
/// This is the evaluator's entry point: the host hands it the parsed root
/// statement list, the root scope (0) of an `Interp` into which it has
/// registered its native bindings, and a step budget bounding call depth
/// and loop iterations.
#[verifier::loop_isolation(false)]
pub fn execute_node(interp: &mut Interp, env: usize, node: &Node, fuel: u64) -> (r: Result<
    Value,
    VMError,
>)
    requires
        old(interp).wf(),
        env < old(interp)@.envs.len(),
    ensures
        final(interp).wf(),
        st_extends(old(interp)@, final(interp)@),
        eval_node(old(interp)@, env as int, *node, fuel as nat) == (final(interp)@, r),
        outcome_wf(final(interp)@, r),
    decreases fuel as int, node_size(*node),
{
    match node {
        Node::Statements(ss) => {
            proof {
                assert(ss@.skip(0) =~= ss@);
            }
            execute_stmts(interp, env, ss, 0, fuel)
        },
        Node::Block(ss) => {
            proof {
                lemma_wf_push_node(interp@, env, Seq::empty());
                assert(ss@.skip(0) =~= ss@);
            }
            let local = interp.env.new_enclosing(env);
            proof {
                assert(interp@ =~~= (StateV {
                    envs: old(interp)@.envs.push(
                        EnvNodeV { enclosing: Some(env), bindings: Seq::empty() },
                    ),
                    ..old(interp)@
                }));
            }
            execute_stmts(interp, local, ss, 0, fuel)
        },
        Node::ExpressionStatement(e) => execute_expr(interp, env, &**e, fuel),
        Node::Var(name, init) => {
            let value = match init {
                Some(e) => match execute_expr(interp, env, &**e, fuel) {
                    Ok(v) => v,
                    Err(er) => return Err(er),
                },
                None => Value::Nothing,
            };
            proof {
                lemma_wf_define(interp@, env as int, *name, value);
            }
            interp.env.define(env, name.clone(), clone_value(&value));
            Ok(value)
        },
        Node::Fun(name, params, body) => {
            let f = Value::Function(rc_clone(params), rc_clone(body), env);
            proof {
                lemma_wf_define(interp@, env as int, *name, f);
            }
            interp.env.define(env, name.clone(), f);
            Ok(Value::Nothing)
        },
        Node::Return(e) => {
            let v = match execute_expr(interp, env, &**e, fuel) {
                Ok(v) => v,
                Err(er) => return Err(er),
            };
            Err(VMError::Return(v))
        },
        Node::Print(e) => {
            let v = match execute_expr(interp, env, &**e, fuel) {
                Ok(v) => v,
                Err(er) => return Err(er),
            };
            proof {
                crate::semantics::lemma_wf_output(interp@, interp@.output.push(v));
            }
            interp.output_push(clone_value(&v));
            Ok(v)
        },
        Node::While(c, b) => {
            // The loop below is the spec's recursive unrolling, one fuel
            // unit per iteration, run in constant host stack.
            let mut fuel_cur: u64 = fuel;
            loop
                invariant
                    state_wf(interp@),
                    env < interp@.envs.len(),
                    st_extends(old(interp)@, interp@),
                    fuel_cur <= fuel,
                    eval_node(old(interp)@, env as int, *node, fuel as nat) == eval_node(
                        interp@,
                        env as int,
                        *node,
                        fuel_cur as nat,
                    ),
                decreases fuel_cur,
            {
                let cond = match execute_expr(interp, env, &**c, fuel_cur) {
                    Ok(v) => v,
                    Err(er) => return Err(er),
                };
                match cond {
                    Value::Boolean(true) => {
                        match execute_node(interp, env, &**b, fuel_cur) {
                            Ok(_) => {},
                            Err(er) => return Err(er),
                        };
                        if fuel_cur == 0 {
                            return Err(VMError::ResourceExhausted);
                        }
                        fuel_cur = fuel_cur - 1;
                    },
                    Value::Boolean(false) => {
                        return Ok(Value::Nothing);
                    },
                    _ => {
                        return Err(VMError::TypeMismatch(OpKind::WhileCondition));
                    },
                }
            }
        },
        Node::If(c, t, o) => {
            let cond = match execute_expr(interp, env, &**c, fuel) {
                Ok(v) => v,
                Err(er) => return Err(er),
            };
            match cond {
                Value::Boolean(true) => execute_node(interp, env, &**t, fuel),
                Value::Boolean(false) => execute_node(interp, env, &**o, fuel),
                _ => Err(VMError::TypeMismatch(OpKind::IfCondition)),
            }
        },
    }
}

} // verus!
