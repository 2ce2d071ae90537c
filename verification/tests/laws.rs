//! Scenario tests for the language's stated behavior: lexical scoping,
//! operator precedence, pretty-print round trips, and the exact semantics
//! of the integer operators.

use dlang::ast::Nodetrait;
use dlang::eval::errors::EvalError;
use dlang::eval::evaluate;
use dlang::lexer::Lexer;
use dlang::object::environment::Environment;
use dlang::object::Object;
use dlang::parser::Parser;
use dlang::token::Kind;

fn run(input: &str) -> Result<Option<Object>, EvalError> {
    let lex = Lexer::new(input.to_string());
    let mut parser = Parser::new(lex);
    let prog = parser.parse().ok().unwrap();
    let mut env = Environment::new();
    evaluate(prog.to_node(), &mut env)
}

fn run_int(input: &str) -> i64 {
    match run(input).unwrap().unwrap() {
        Object::Int(i) => i.value,
        other => panic!("{:?} is not an Int", other),
    }
}

fn first_statement_text(input: &str) -> String {
    let lex = Lexer::new(input.to_string());
    let mut parser = Parser::new(lex);
    let prog = parser.parse().ok().unwrap();
    prog.statements[0].to_str()
}

/// A closure captures the environment of its definition site and still
/// works after the defining call has returned.
#[test]
fn test_lexical_scoping_closure() {
    let v = run_int(
        "let outer = fn(x){ fn(y){ x + y } };
         let mid = outer(3);
         mid(4)",
    );
    assert_eq!(v, 7);
}

/// `a + b * c` groups as `a + (b * c)`; `a * b + c * d` as
/// `(a * b) + (c * d)` — both in the printed tree and in the value.
#[test]
fn test_precedence_sum_product() {
    assert_eq!(first_statement_text("2 + 3 * 4"), "(2 + (3 * 4))");
    assert_eq!(run_int("2 + 3 * 4"), 14);
    assert_eq!(first_statement_text("2 * 3 + 4 * 5"), "((2 * 3) + (4 * 5))");
    assert_eq!(run_int("2 * 3 + 4 * 5"), 26);
}

/// A parsed tree printed in canonical form parses again to a tree with the
/// same canonical form.
#[test]
fn test_pretty_print_reparses() {
    for input in [
        "10 * 10 + 20 * 20 + 100",
        "!(true&&!(10<20))",
        "if (x > 10) { return x; } else {return 0;}",
        "let hey = fn () { let hello = true; return hello; };",
        "call(foo, 1 + 2 * 3)",
    ] {
        let once = first_statement_text(input);
        let twice = first_statement_text(&once);
        assert_eq!(once, twice);
    }
}

/// Division truncates toward zero; the remainder follows the dividend.
#[test]
fn test_integer_division_semantics() {
    assert_eq!(run_int("7 / 2"), 3);
    assert_eq!(run_int("(0 - 7) / 2"), -3);
    assert_eq!(run_int("7 % 3"), 1);
    assert_eq!(run_int("(0 - 7) % 3"), -1);
}

/// `!` on an integer is bitwise complement; `&` and `|` are bitwise.
#[test]
fn test_integer_bitwise_semantics() {
    assert_eq!(run_int("!0"), -1);
    assert_eq!(run_int("!5"), -6);
    assert_eq!(run_int("6 & 3"), 2);
    assert_eq!(run_int("6 | 3"), 7);
}

/// Arithmetic wraps around on 64-bit overflow.
#[test]
fn test_integer_overflow_wraps() {
    assert_eq!(
        run_int("9223372036854775807 + 1"),
        i64::MIN,
    );
    assert_eq!(
        run_int("0 - 9223372036854775807 - 1"),
        i64::MIN,
    );
}

/// Remainder by zero is reported as a division error, never a crash.
#[test]
fn test_mod_by_zero_is_error() {
    assert_eq!(run("5 % 0").err().unwrap(), EvalError::DivideWithZero);
}

/// Calling a value that is not a function is reported as such.
#[test]
fn test_call_of_non_function() {
    match run("5(1)").err().unwrap() {
        EvalError::NotAFunction(Object::Int(i)) => assert_eq!(i.value, 5),
        other => panic!("unexpected error {:?}", other),
    }
}

/// A boolean operator on integers is rejected with the operator named.
#[test]
fn test_invalid_integer_operator() {
    assert_eq!(
        run("1 && 2").err().unwrap(),
        EvalError::InvalidIntegerInfixOperation(Kind::And),
    );
}

/// `&` and `&&` both mean logical and on booleans; `|` and `||` both mean
/// logical or.
#[test]
fn test_bool_operator_permissiveness() {
    for (input, expect) in [
        ("true & false", false),
        ("true && true", true),
        ("false | true", true),
        ("false || false", false),
    ] {
        match run(input).unwrap().unwrap() {
            Object::Bool(b) => assert_eq!(b.value, expect, "{}", input),
            other => panic!("{:?} is not a Bool", other),
        }
    }
}

/// The global environment persists across evaluations, as a shell session
/// expects.
#[test]
fn test_environment_persists_across_runs() {
    let mut env = Environment::new();
    for (input, expect) in [("let a = 41;", None), ("a + 1", Some(42))] {
        let lex = Lexer::new(input.to_string());
        let mut parser = Parser::new(lex);
        let prog = parser.parse().ok().unwrap();
        let res = evaluate(prog.to_node(), &mut env).unwrap();
        match (res, expect) {
            (None, None) => {}
            (Some(Object::Int(i)), Some(v)) => assert_eq!(i.value, v),
            (got, want) => panic!("{:?} not matched with {:?}", got, want),
        }
    }
}
