//! Unit tests of the smaller pieces: tokens, lexical error tokens, value
//! printing, and type tags.

use dlang::int_to_string;
use dlang::lexer::Lexer;
use dlang::object::{is_same_type, Array, Bool, Function, Int, Object, ObjectTrait, ObjectType,
    Return, StringObject};
use dlang::token::{get_token_kind, Kind, Token};

#[test]
fn test_token_new_uses_canonical_text() {
    let t = Token::new(Kind::LT_OR_EQ);
    assert_eq!(t.kind, Kind::LT_OR_EQ);
    assert_eq!(t.literal, "<=");
    assert_eq!(Kind::Function.to_str(), "fn");
}

#[test]
fn test_keyword_promotion() {
    assert_eq!(get_token_kind("fn"), Kind::Function);
    assert_eq!(get_token_kind("let"), Kind::Let);
    assert_eq!(get_token_kind("true"), Kind::True);
    assert_eq!(get_token_kind("false"), Kind::False);
    assert_eq!(get_token_kind("if"), Kind::If);
    assert_eq!(get_token_kind("else"), Kind::Else);
    assert_eq!(get_token_kind("return"), Kind::Return);
    assert_eq!(get_token_kind("letter"), Kind::Ident);
    assert_eq!(get_token_kind("x"), Kind::Ident);
}

#[test]
fn test_lexer_number_error_token() {
    let mut lex = Lexer::new("12ab".to_string());
    let t = lex.next();
    assert_eq!(t.kind, Kind::Illegal);
    assert_eq!(t.literal, "12 is not a numeric");
}

#[test]
fn test_lexer_unterminated_string() {
    let mut lex = Lexer::new("\"abc".to_string());
    let t = lex.next();
    assert_eq!(t.kind, Kind::Illegal);
    assert_eq!(t.literal, "closing (\") not found");
}

#[test]
fn test_lexer_eof_is_idempotent() {
    let mut lex = Lexer::new("1".to_string());
    assert_eq!(lex.next().kind, Kind::Int);
    assert_eq!(lex.next().kind, Kind::EOF);
    assert_eq!(lex.next().kind, Kind::EOF);
}

#[test]
fn test_int_to_string_edges() {
    assert_eq!(int_to_string(0), "0");
    assert_eq!(int_to_string(322), "322");
    assert_eq!(int_to_string(-1), "-1");
    assert_eq!(int_to_string(i64::MAX), "9223372036854775807");
    assert_eq!(int_to_string(i64::MIN), "-9223372036854775808");
}

#[test]
fn test_object_to_str() {
    assert_eq!(Object::Int(Int { value: -7 }).to_str(), "Int:-7");
    assert_eq!(Object::Bool(Bool { value: true }).to_str(), "Bool:true");
    assert_eq!(
        Object::String(StringObject { value: "hey".to_string() }).to_str(),
        "String:hey",
    );
    let arr = Object::Array(Array {
        elements: vec![Object::Int(Int { value: 1 }), Object::Bool(Bool { value: false })],
    });
    assert_eq!(arr.to_str(), "[Int:1, Bool:false]");
    let ret = Object::Return(Return {
        value: Some(Box::new(Object::Int(Int { value: 3 }))),
    });
    assert_eq!(ret.to_str(), "Return(Int:3)");
}

#[test]
fn test_object_type_tags() {
    let a = Object::Int(Int { value: 1 });
    let b = Object::Int(Int { value: 2 });
    let c = Object::Bool(Bool { value: true });
    assert!(is_same_type(&a, &b));
    assert!(!is_same_type(&a, &c));
    assert_eq!(a.get_type(), ObjectType::Int);
    let f = Function {
        identifier: None,
        args: Vec::new(),
        block: dlang::ast::BlockStatement {
            token: Token::new(Kind::LBRACE),
            statements: Vec::new(),
        },
        env: 0,
    };
    assert_eq!(f.get_type(), ObjectType::Function);
    assert_eq!(f.to_str(), "() {\n}");
}
