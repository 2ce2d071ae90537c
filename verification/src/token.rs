//! Token model: a closed set of token kinds, each with a canonical printable
//! form, plus the token itself carrying the literal text it was lexed from.

use vstd::prelude::*;

use crate::str_eq;

verus! {

#[allow(non_camel_case_types)]
#[derive(Debug, Clone, Copy, PartialEq, Eq, Hash, Structural)]
pub enum Kind {
    // Operators
    Assign,
    Plus,
    Minus,
    Product,
    Divide,
    Mod,
    Bang,
    // Compare
    LT,
    LT_OR_EQ,
    GT,
    GT_OR_EQ,
    EQ,
    NOT_EQ,
    // Boolean And, Or
    And,
    Or,
    // Bit And, Or
    Bit_And,
    Bit_Or,
    Comma,
    Semicolon,
    LPAREN,
    RPAREN,
    LBRACE,
    RBRACE,
    // keywords
    Illegal,
    EOF,
    Ident,
    Function,
    Let,
    True,
    False,
    If,
    Else,
    Return,
    Int,
    String,
}

/// Canonical printable form of each token kind.
pub open spec fn spec_kind_str(k: Kind) -> Seq<char> {
    match k {
        Kind::Assign => "="@,
        Kind::Plus => "+"@,
        Kind::Minus => "-"@,
        Kind::Product => "*"@,
        Kind::Divide => "/"@,
        Kind::Mod => "%"@,
        Kind::Bang => "!"@,
        Kind::LT => "<"@,
        Kind::LT_OR_EQ => "<="@,
        Kind::GT => ">"@,
        Kind::GT_OR_EQ => ">="@,
        Kind::EQ => "=="@,
        Kind::NOT_EQ => "!="@,
        Kind::And => "&&"@,
        Kind::Or => "||"@,
        Kind::Bit_And => "&"@,
        Kind::Bit_Or => "|"@,
        Kind::Comma => ","@,
        Kind::Semicolon => ";"@,
        Kind::LPAREN => "("@,
        Kind::RPAREN => ")"@,
        Kind::LBRACE => "{"@,
        Kind::RBRACE => "}"@,
        Kind::Illegal => "Illegal"@,
        Kind::EOF => "EOF"@,
        Kind::Function => "fn"@,
        Kind::Ident => "Ident"@,
        Kind::Let => "let"@,
        Kind::True => "true"@,
        Kind::False => "false"@,
        Kind::If => "if"@,
        Kind::Else => "else"@,
        Kind::Return => "return"@,
        Kind::Int => "Int"@,
        Kind::String => "String"@,
    }
}

impl Kind {
    pub fn to_str(&self) -> (r: &'static str)
        ensures
            r@ == spec_kind_str(*self),
    {
        match self {
            Kind::Assign => "=",
            Kind::Plus => "+",
            Kind::Minus => "-",
            Kind::Product => "*",
            Kind::Divide => "/",
            Kind::Mod => "%",
            Kind::Bang => "!",
            Kind::LT => "<",
            Kind::LT_OR_EQ => "<=",
            Kind::GT => ">",
            Kind::GT_OR_EQ => ">=",
            Kind::EQ => "==",
            Kind::NOT_EQ => "!=",
            Kind::And => "&&",
            Kind::Or => "||",
            Kind::Bit_And => "&",
            Kind::Bit_Or => "|",
            Kind::Comma => ",",
            Kind::Semicolon => ";",
            Kind::LPAREN => "(",
            Kind::RPAREN => ")",
            Kind::LBRACE => "{",
            Kind::RBRACE => "}",
            Kind::Illegal => "Illegal",
            Kind::EOF => "EOF",
            Kind::Function => "fn",
            Kind::Ident => "Ident",
            Kind::Let => "let",
            Kind::True => "true",
            Kind::False => "false",
            Kind::If => "if",
            Kind::Else => "else",
            Kind::Return => "return",
            Kind::Int => "Int",
            Kind::String => "String",
        }
    }
}

#[allow(dead_code)]
#[derive(Debug, Clone, PartialEq)]
pub struct Token {
    pub kind: Kind,
    pub literal: String,
}

/// Mathematical model of a [`Token`]: its kind and the literal as a
/// character sequence.
pub struct TokenModel {
    pub kind: Kind,
    pub literal: Seq<char>,
}

impl View for Token {
    type V = TokenModel;

    open spec fn view(&self) -> TokenModel {
        TokenModel { kind: self.kind, literal: self.literal@ }
    }
}

impl Token {
    pub fn new(kind: Kind) -> (t: Self)
        ensures
            t.kind == kind,
            t.literal@ == spec_kind_str(kind),
    {
        Token { kind, literal: kind.to_str().to_owned() }
    }

    pub fn with(kind: Kind, literal: &str) -> (t: Self)
        ensures
            t.kind == kind,
            t.literal@ == literal@,
    {
        Token { kind, literal: literal.to_owned() }
    }

    /// Structure-preserving copy of the token.
    pub fn duplicate(&self) -> (t: Self)
        ensures
            t@ == self@,
    {
        Token { kind: self.kind, literal: self.literal.clone() }
    }
}

/// The kind a lexed word denotes: a keyword kind where the word is one of
/// the keywords, otherwise an identifier.
pub open spec fn spec_word_kind(w: Seq<char>) -> Kind {
    if w == "fn"@ {
        Kind::Function
    } else if w == "let"@ {
        Kind::Let
    } else if w == "true"@ {
        Kind::True
    } else if w == "false"@ {
        Kind::False
    } else if w == "if"@ {
        Kind::If
    } else if w == "else"@ {
        Kind::Else
    } else if w == "return"@ {
        Kind::Return
    } else {
        Kind::Ident
    }
}

/// Promotes a lexed word to its keyword kind, or to `Kind::Ident` where it
/// is not a keyword.
pub fn get_token_kind(word: &str) -> (k: Kind)
    ensures
        k == spec_word_kind(word@),
{
    if str_eq(word, "fn") {
        Kind::Function
    } else if str_eq(word, "let") {
        Kind::Let
    } else if str_eq(word, "true") {
        Kind::True
    } else if str_eq(word, "false") {
        Kind::False
    } else if str_eq(word, "if") {
        Kind::If
    } else if str_eq(word, "else") {
        Kind::Else
    } else if str_eq(word, "return") {
        Kind::Return
    } else {
        Kind::Ident
    }
}

} // verus!
