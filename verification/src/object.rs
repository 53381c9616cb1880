//! Key/value records.
//!
//! An `Object` maps string keys to values. Fields are kept as a list of
//! pairs read from the end, so setting an existing key overwrites it for
//! every later read; insertion order carries no meaning beyond that.

use vstd::prelude::*;

use crate::environment::lookup;
use crate::execute::VMError;
use crate::value::Value;

verus! {

pub struct Object {
    pub fields: Vec<(String, Value)>,
}

impl View for Object {
    type V = Seq<(String, Value)>;

    open spec fn view(&self) -> Seq<(String, Value)> {
        self.fields@
    }
}

impl Object {
    /// A record with no fields.
    pub fn new() -> (r: Object)
        ensures
            r@ == Seq::<(String, Value)>::empty(),
    {
        Object { fields: Vec::new() }
    }

    /// Upserts: binds `name` to `value`, overwriting any earlier binding of
    /// the same key for every later read.
    pub fn set(&mut self, name: String, value: Value)
        ensures
            final(self)@ == old(self)@.push((name, value)),
    {
        self.fields.push((name, value));
    }

    /// Reads the field named `name`; fails with `NoSuchProperty` exactly
    /// when no field has that key.
    pub fn get(&self, name: &String) -> (r: Result<Value, VMError>)
        ensures
            match lookup(self@, name@) {
                Some(v) => r == Ok::<Value, VMError>(v),
                None => r == Err::<Value, VMError>(VMError::NoSuchProperty(*name)),
            },
    {
        let found = crate::environment::lookup_binding(&self.fields, name);
        match found {
            Some(v) => Ok(v),
            None => Err(VMError::NoSuchProperty(name.clone())),
        }
    }
}

} // verus!
