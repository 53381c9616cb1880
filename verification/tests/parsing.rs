use treewalk::parser::{Node, Parser};
use treewalk::scanner::scan;

fn parse(source: &str) -> Result<Node, String> {
    let tokens = scan(source)?;
    let mut parser = Parser::new(tokens);
    parser.parse()
}

#[test]
fn simple_addition() {
    assert!(parse("1 + 1;").is_ok());

    assert!(parse("1 + 1").is_err());
}

#[test]
fn call_call() {
    assert!(parse("a()();").is_ok());

    assert!(parse("a()()").is_err());
}

#[test]
fn assignment() {
    assert!(parse("a = 1;").is_ok());
    assert!(parse("a = 1 + 1;").is_ok());
    assert!(parse("a = b = 1 + 1;").is_ok());

    assert!(parse("a = 1 + 1").is_err());
    assert!(parse("123 = 1 + 1;").is_err());
    assert!(parse("a = 123 = 1 + 1;").is_err());
}

#[test]
fn for_statement() {
    assert!(parse("for (a = 1; a < 10; i = i + 1) print i;").is_ok());
    assert!(parse("for (a = 1; a < 10; i = i + 1) { print i; }").is_ok());
    assert!(parse("for (var a = 1; a < 10; i = i + 1) print i;").is_ok());
    assert!(parse("for (var a = 1; a < 10; i = i + 1) { print i; }").is_ok());
}

#[test]
fn scan_rejects_malformed_input() {
    assert!(scan("1 + 1;").is_ok());
    assert!(scan("name_with_underscores").is_ok());
    assert!(scan("\"a string\" 12").is_ok());
    // a number literal too large for a 32-bit number
    assert!(scan("99999999999").is_err());
    // a lone ! pairs with nothing
    assert!(scan("!x").is_err());
    assert!(scan("!=").is_ok());
    // a character outside the language
    assert!(scan("#").is_err());
}

#[test]
fn method_call_parses_with_receiver() {
    assert!(parse("a.push(1);").is_ok());
    assert!(parse("a[0](1, 2);").is_ok());
    assert!(parse("var x = [1, 2, 3];").is_ok());
    assert!(parse("x[1] = 5;").is_ok());
    assert!(parse("if (a < 1) { print a; } else { print b; }").is_ok());
    assert!(parse("while (a < 1) { a = a + 1; }").is_ok());
    assert!(parse("fun f(a, b) { return a + b; }").is_ok());
    assert!(parse("-1;").is_ok());
}
