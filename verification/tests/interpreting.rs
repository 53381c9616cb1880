use treewalk::execute::{execute_node, Interp, OpKind, VMError};
use treewalk::parser::{Expr, Node, Parser};
use treewalk::scanner::scan;
use treewalk::value::{Native, Value};

// Bounds call depth and loop iterations; kept small enough that the
// budget runs out well before the host's own stack would.
const FUEL: u64 = 1_000;

fn run(source: &str) -> (Interp, Result<Value, VMError>) {
    let tokens = scan(source).expect("scan failed");
    let mut parser = Parser::new(tokens);
    let node = parser.parse().expect("parse failed");
    let mut interp = Interp::new();
    interp.env.define(
        0,
        "println".to_string(),
        Value::NativeFunction(Native::Println),
    );
    let r = execute_node(&mut interp, 0, &node, FUEL);
    (interp, r)
}

fn run_node(node: &Node) -> (Interp, Result<Value, VMError>) {
    let mut interp = Interp::new();
    let r = execute_node(&mut interp, 0, node, FUEL);
    (interp, r)
}

#[test]
fn block_scoping_shields_outer_binding() {
    // The inner declaration shadows; mutation inside the block resolves to
    // it, so the outer binding is unchanged after the block ends.
    let (_, r) = run("var x = 1; { var x = 2; x = 3; } print x;");
    assert!(matches!(r, Ok(Value::Number(1))));
}

#[test]
fn closure_captures_scope_by_reference() {
    // The closure observes a mutation made after its definition but before
    // its call, and keeps its defining scope alive after the block ends.
    let (_, r) = run("var h = 0; { var y = 1; fun g() { return y; } y = 2; h = g; } print h();");
    assert!(matches!(r, Ok(Value::Number(2))));
}

#[test]
fn closure_mutates_enclosing_scope() {
    let (_, r) = run("var n = 1; fun bump() { n = n + 10; } bump(); bump(); print n;");
    assert!(matches!(r, Ok(Value::Number(21))));
}

#[test]
fn arrays_share_backing_storage() {
    // Copying an array value copies a handle: a push through one alias is
    // seen through the other.
    let (_, r) = run("var a = [1, 2, 3]; var b = a; b.push(4); print a.length;");
    assert!(matches!(r, Ok(Value::Number(4))));
}

#[test]
fn call_locals_do_not_leak() {
    let (_, r) = run("fun f(x) { return x; } f(1); print x;");
    match r {
        Err(VMError::UnknownName(name)) => assert_eq!(name, "x"),
        other => panic!("expected UnknownName, got {:?}", discriminant_name(&other)),
    }
}

#[test]
fn recursive_calls_get_independent_locals() {
    let (_, r) = run(
        "fun fib(n) { if (n < 2) { return n; } return fib(n - 1) + fib(n - 2); } print fib(10);",
    );
    assert!(matches!(r, Ok(Value::Number(55))));
}

#[test]
fn no_implicit_return() {
    let (_, r) = run("fun f() { 1 + 1; } print f();");
    assert!(matches!(r, Ok(Value::Nothing)));
}

#[test]
fn return_is_consumed_at_the_call_boundary() {
    let (_, r) = run("fun f() { return 5; 9; } print f();");
    assert!(matches!(r, Ok(Value::Number(5))));
}

#[test]
fn top_level_return_surfaces_as_the_signal() {
    let (_, r) = run("return 3;");
    assert!(matches!(r, Err(VMError::Return(Value::Number(3)))));
}

#[test]
fn arithmetic_and_comparison() {
    let (_, r) = run("print 1 + 1 == 2;");
    assert!(matches!(r, Ok(Value::Boolean(true))));
    let (_, r) = run("print 2 * 3 - 1;");
    assert!(matches!(r, Ok(Value::Number(5))));
    let (_, r) = run("print 1 < 2;");
    assert!(matches!(r, Ok(Value::Boolean(true))));
    let (_, r) = run("print 1 >= 2;");
    assert!(matches!(r, Ok(Value::Boolean(false))));
    let (_, r) = run("print 3 != 4;");
    assert!(matches!(r, Ok(Value::Boolean(true))));
    let (_, r) = run("print 2 <= 2;");
    assert!(matches!(r, Ok(Value::Boolean(true))));
    let (_, r) = run("print 3 > 4;");
    assert!(matches!(r, Ok(Value::Boolean(false))));
    let (_, r) = run("print -1;");
    assert!(matches!(r, Ok(Value::Number(-1))));
}

#[test]
fn addition_wraps_in_twos_complement() {
    let (_, r) = run("print 2147483647 + 1;");
    assert!(matches!(r, Ok(Value::Number(-2147483648))));
}

#[test]
fn type_mismatch_names_the_operator() {
    let (_, r) = run("1 + true;");
    assert!(matches!(r, Err(VMError::TypeMismatch(OpKind::Plus))));
    let (_, r) = run("true == false;");
    assert!(matches!(r, Err(VMError::TypeMismatch(OpKind::Eq))));
    let (_, r) = run("while (1) { }");
    assert!(matches!(r, Err(VMError::TypeMismatch(OpKind::WhileCondition))));
    let (_, r) = run("if (1) { }");
    assert!(matches!(r, Err(VMError::TypeMismatch(OpKind::IfCondition))));
}

#[test]
fn index_errors() {
    let (_, r) = run("[1, 2][5];");
    assert!(matches!(r, Err(VMError::IndexOutOfRange)));
    let (_, r) = run("[1, 2][-1];");
    assert!(matches!(r, Err(VMError::InvalidIndex)));
    let (_, r) = run("[1, 2][1];");
    assert!(matches!(r, Ok(Value::Number(2))));
}

#[test]
fn assignment_to_undeclared_name_fails() {
    let (_, r) = run("y = 1;");
    match r {
        Err(VMError::UnknownName(name)) => assert_eq!(name, "y"),
        other => panic!("expected UnknownName, got {:?}", discriminant_name(&other)),
    }
}

#[test]
fn assignment_yields_the_assigned_value() {
    let (_, r) = run("var x = 0; print x = 5;");
    assert!(matches!(r, Ok(Value::Number(5))));
}

#[test]
fn while_loops_run_and_scope_per_iteration() {
    let (_, r) = run("var i = 0; while (i < 3) { i = i + 1; } print i;");
    assert!(matches!(r, Ok(Value::Number(3))));
}

#[test]
fn for_loops_desugar_to_while() {
    let (_, r) = run("var s = 0; for (var i = 0; i < 4; i = i + 1) { s = s + i; } print s;");
    assert!(matches!(r, Ok(Value::Number(6))));
}

#[test]
fn if_branches() {
    let (interp, r) = run("if (true) { print 1; } else { print 2; }");
    assert!(matches!(r, Ok(Value::Number(1))));
    assert_eq!(interp.output.len(), 1);
    assert!(matches!(interp.output[0], Value::Number(1)));
    let (_, r) = run("if (false) { print 1; } else { print 2; }");
    assert!(matches!(r, Ok(Value::Number(2))));
}

#[test]
fn print_and_println_emit_output() {
    let (interp, r) = run("print 1; println(2, 3);");
    assert!(matches!(r, Ok(Value::Nothing)));
    assert_eq!(interp.output.len(), 3);
    assert!(matches!(interp.output[0], Value::Number(1)));
    assert!(matches!(interp.output[1], Value::Number(2)));
    assert!(matches!(interp.output[2], Value::Number(3)));
}

#[test]
fn string_values_flow_through() {
    let (interp, r) = run("print \"hi\";");
    match r {
        Ok(Value::String(s)) => assert_eq!(s, "hi"),
        _ => panic!("expected a string"),
    }
    match &interp.output[0] {
        Value::String(s) => assert_eq!(s, "hi"),
        _ => panic!("expected a string in the output"),
    }
}

#[test]
fn array_length_and_push_members() {
    let (_, r) = run("print [].length;");
    assert!(matches!(r, Ok(Value::Number(0))));
    let (_, r) = run("var a = [1, 2]; print a[\"length\"];");
    assert!(matches!(r, Ok(Value::Number(2))));
    let (_, r) = run("var a = [1, 2]; a.push(3, 4); print a.length;");
    assert!(matches!(r, Ok(Value::Number(4))));
    let (_, r) = run("var a = [1]; print a.size;");
    assert!(matches!(r, Err(VMError::InvalidAccess)));
}

#[test]
fn push_without_a_receiver_does_nothing() {
    // Fetching the member unbinds it from the array: calling it without a
    // receiver is a no-op, as the host push primitive ignores other bases.
    let (_, r) = run("var a = [1]; var p = a.push; p(9); print a.length;");
    assert!(matches!(r, Ok(Value::Number(1))));
}

#[test]
fn array_element_replacement() {
    let (_, r) = run("var a = [1, 2]; a[0] = 9; print a[0];");
    assert!(matches!(r, Ok(Value::Number(9))));
    // replacement requires the index to exist: no auto-extension
    let (_, r) = run("var a = [1, 2]; a[5] = 9;");
    assert!(matches!(r, Err(VMError::IndexOutOfRange)));
    let (_, r) = run("var a = [1, 2]; a[-1] = 9;");
    assert!(matches!(r, Err(VMError::InvalidIndex)));
}

#[test]
fn calling_a_non_function_fails() {
    let (_, r) = run("var x = 1; x();");
    assert!(matches!(r, Err(VMError::NotCallable)));
    // the callee is checked before any argument is evaluated: the
    // undeclared argument never gets the chance to fail
    let (_, r) = run("var x = 1; x(y);");
    assert!(matches!(r, Err(VMError::NotCallable)));
}

#[test]
fn missing_arguments_bind_nothing_and_extras_are_ignored() {
    let (_, r) = run("fun f(x, y) { return y; } print f(1);");
    assert!(matches!(r, Ok(Value::Nothing)));
    let (_, r) = run("fun g(x) { return x; } print g(7, 8);");
    assert!(matches!(r, Ok(Value::Number(7))));
}

#[test]
fn runaway_recursion_exhausts_the_budget() {
    let (_, r) = run("fun f() { return f(); } f();");
    assert!(matches!(r, Err(VMError::ResourceExhausted)));
}

#[test]
fn runaway_loop_exhausts_the_budget() {
    let (_, r) = run("while (true) { }");
    assert!(matches!(r, Err(VMError::ResourceExhausted)));
}

#[test]
fn functions_are_first_class() {
    // storing a function in an array and calling it through the element
    let (_, r) = run("var fs = [0]; fun f() { return 1; } fs[0] = f; print fs[0]();");
    assert!(matches!(r, Ok(Value::Number(1))));
    // a call returning a function that is called again
    let (_, r) = run("fun f() { return f; } f()();");
    assert!(matches!(r, Ok(Value::Function(_, _, _))));
}

#[test]
fn empty_program_yields_nothing() {
    let (_, r) = run("");
    assert!(matches!(r, Ok(Value::Nothing)));
}

#[test]
fn record_literal_later_keys_overwrite() {
    // Records have no literal syntax in the grammar; the evaluator takes
    // the AST directly.
    let fields = vec![
        ("a".to_string(), Expr::Number(1)),
        ("a".to_string(), Expr::Number(2)),
    ];
    let node = Node::ExpressionStatement(Box::new(Expr::Get(
        Box::new(Expr::Object(fields)),
        Box::new(Expr::String("a".to_string())),
    )));
    let (_, r) = run_node(&node);
    assert!(matches!(r, Ok(Value::Number(2))));
}

#[test]
fn record_missing_key_and_invalid_access() {
    let node = Node::ExpressionStatement(Box::new(Expr::Get(
        Box::new(Expr::Object(Vec::new())),
        Box::new(Expr::String("missing".to_string())),
    )));
    let (_, r) = run_node(&node);
    match r {
        Err(VMError::NoSuchProperty(k)) => assert_eq!(k, "missing"),
        _ => panic!("expected NoSuchProperty"),
    }
    let node = Node::ExpressionStatement(Box::new(Expr::Get(
        Box::new(Expr::Number(1)),
        Box::new(Expr::String("a".to_string())),
    )));
    let (_, r) = run_node(&node);
    assert!(matches!(r, Err(VMError::InvalidAccess)));
    // a record read with a non-string key
    let node = Node::ExpressionStatement(Box::new(Expr::Get(
        Box::new(Expr::Object(Vec::new())),
        Box::new(Expr::Number(0)),
    )));
    let (_, r) = run_node(&node);
    assert!(matches!(r, Err(VMError::InvalidAccess)));
}

#[test]
fn record_field_upsert() {
    // { a: 1 } then o.a = 5; read back o.a
    let fields = vec![("a".to_string(), Expr::Number(1))];
    let body = vec![
        Node::Var(
            "o".to_string(),
            Some(Box::new(Expr::Object(fields))),
        ),
        Node::ExpressionStatement(Box::new(Expr::SetProperty(
            Box::new(Expr::Identifier("o".to_string())),
            Box::new(Expr::String("a".to_string())),
            Box::new(Expr::Number(5)),
        ))),
        Node::Print(Box::new(Expr::Get(
            Box::new(Expr::Identifier("o".to_string())),
            Box::new(Expr::String("a".to_string())),
        ))),
    ];
    let (_, r) = run_node(&Node::Statements(body));
    assert!(matches!(r, Ok(Value::Number(5))));
}

fn discriminant_name(r: &Result<Value, VMError>) -> &'static str {
    match r {
        Ok(_) => "Ok",
        Err(VMError::UnknownName(_)) => "UnknownName",
        Err(VMError::TypeMismatch(_)) => "TypeMismatch",
        Err(VMError::NotCallable) => "NotCallable",
        Err(VMError::IndexOutOfRange) => "IndexOutOfRange",
        Err(VMError::InvalidIndex) => "InvalidIndex",
        Err(VMError::NoSuchProperty(_)) => "NoSuchProperty",
        Err(VMError::InvalidAccess) => "InvalidAccess",
        Err(VMError::ResourceExhausted) => "ResourceExhausted",
        Err(VMError::Return(_)) => "Return",
    }
}
