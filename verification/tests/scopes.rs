use treewalk::environment::Environment;
use treewalk::execute::VMError;
use treewalk::object::Object;
use treewalk::value::Value;

#[test]
fn define_then_get() {
    let mut env = Environment::new();
    env.define(0, "x".to_string(), Value::Number(1));
    let r = env.get(0, &"x".to_string());
    assert!(matches!(r, Ok(Value::Number(1))));
}

#[test]
fn redefining_overwrites() {
    let mut env = Environment::new();
    env.define(0, "x".to_string(), Value::Number(1));
    env.define(0, "x".to_string(), Value::Number(2));
    let r = env.get(0, &"x".to_string());
    assert!(matches!(r, Ok(Value::Number(2))));
}

#[test]
fn get_of_undeclared_name_fails() {
    let env = Environment::new();
    let r = env.get(0, &"x".to_string());
    match r {
        Err(VMError::UnknownName(name)) => assert_eq!(name, "x"),
        _ => panic!("expected UnknownName"),
    }
}

#[test]
fn get_searches_the_chain_outward() {
    let mut env = Environment::new();
    env.define(0, "x".to_string(), Value::Number(1));
    let child = env.new_enclosing(0);
    let r = env.get(child, &"x".to_string());
    assert!(matches!(r, Ok(Value::Number(1))));
}

#[test]
fn set_mutates_through_the_chain() {
    let mut env = Environment::new();
    env.define(0, "x".to_string(), Value::Number(1));
    let child = env.new_enclosing(0);
    let r = env.set(child, "x".to_string(), Value::Number(2));
    assert!(matches!(r, Ok(Value::Number(2))));
    let r = env.get(0, &"x".to_string());
    assert!(matches!(r, Ok(Value::Number(2))));
}

#[test]
fn set_of_undeclared_name_creates_no_binding() {
    let mut env = Environment::new();
    let r = env.set(0, "x".to_string(), Value::Number(1));
    assert!(matches!(r, Err(VMError::UnknownName(_))));
    let r = env.get(0, &"x".to_string());
    assert!(matches!(r, Err(VMError::UnknownName(_))));
}

#[test]
fn inner_declaration_shadows_and_shields_outer() {
    let mut env = Environment::new();
    env.define(0, "x".to_string(), Value::Number(1));
    let child = env.new_enclosing(0);
    env.define(child, "x".to_string(), Value::Number(2));
    let r = env.get(child, &"x".to_string());
    assert!(matches!(r, Ok(Value::Number(2))));
    // assignment through the child rebinds the shadowing declaration only
    let r = env.set(child, "x".to_string(), Value::Number(3));
    assert!(matches!(r, Ok(Value::Number(3))));
    let r = env.get(0, &"x".to_string());
    assert!(matches!(r, Ok(Value::Number(1))));
}

#[test]
fn sibling_scopes_are_independent() {
    let mut env = Environment::new();
    let first = env.new_enclosing(0);
    let second = env.new_enclosing(0);
    env.define(first, "x".to_string(), Value::Number(1));
    let r = env.get(second, &"x".to_string());
    assert!(matches!(r, Err(VMError::UnknownName(_))));
}

#[test]
fn object_fields_upsert_and_read() {
    let mut o = Object::new();
    let r = o.get(&"a".to_string());
    match r {
        Err(VMError::NoSuchProperty(k)) => assert_eq!(k, "a"),
        _ => panic!("expected NoSuchProperty"),
    }
    o.set("a".to_string(), Value::Number(1));
    o.set("b".to_string(), Value::Boolean(true));
    o.set("a".to_string(), Value::Number(2));
    let r = o.get(&"a".to_string());
    assert!(matches!(r, Ok(Value::Number(2))));
    let r = o.get(&"b".to_string());
    assert!(matches!(r, Ok(Value::Boolean(true))));
}
