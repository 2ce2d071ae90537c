//! Parse errors: each failure is reported as a stack of entries built from
//! the innermost failure outward, every entry carrying a detail message and
//! the source position it arose at.

use vstd::prelude::*;
use crate::lexer::Position;

verus! {

/// What a parse-error entry offers: its detail message and its position.
pub trait ParserError: Sized {
    spec fn spec_detail(&self) -> Seq<char>;

    spec fn spec_position(&self) -> Position;

    fn detail(&self) -> (r: String)
        ensures
            r@ == self.spec_detail(),
    ;

    fn position(&self) -> (p: Position)
        ensures
            p == self.spec_position(),
    ;
}

#[derive(Debug)]
pub struct ParseError {
    pub detail: String,
    pub position: Position,
}

impl ParserError for ParseError {
    open spec fn spec_detail(&self) -> Seq<char> {
        self.detail@
    }

    open spec fn spec_position(&self) -> Position {
        self.position
    }

    fn detail(&self) -> (r: String) {
        self.detail.clone()
    }

    fn position(&self) -> (p: Position) {
        self.position
    }
}

#[derive(Debug)]
pub struct PrefixFunctionError {
    pub detail: String,
    pub position: Position,
    pub kind: PrefixFunctionErrorKind,
}

impl ParserError for PrefixFunctionError {
    open spec fn spec_detail(&self) -> Seq<char> {
        self.detail@
    }

    open spec fn spec_position(&self) -> Position {
        self.position
    }

    fn detail(&self) -> (r: String) {
        self.detail.clone()
    }

    fn position(&self) -> (p: Position) {
        self.position
    }
}

#[derive(Debug)]
pub enum PrefixFunctionErrorKind {
    NoPrefixFunction,
    IntegerParseError,
    ParentheseError,
    PrefixExpressionError,
    IfExpressionError,
    GroupExpressionError,
    FunctionLiteralError,
}

#[derive(Debug)]
pub struct InfixFunctionError {
    pub detail: String,
    pub position: Position,
    pub kind: InfixFunctionErrorKind,
}

impl ParserError for InfixFunctionError {
    open spec fn spec_detail(&self) -> Seq<char> {
        self.detail@
    }

    open spec fn spec_position(&self) -> Position {
        self.position
    }

    fn detail(&self) -> (r: String) {
        self.detail.clone()
    }

    fn position(&self) -> (p: Position) {
        self.position
    }
}

#[derive(Debug)]
pub enum InfixFunctionErrorKind {
    PrecedenceNotFound,
    NoInfixFunction,
    ParseError,
}

/// One entry of a parse-error stack.
#[derive(Debug)]
pub enum ParserErrorEntry {
    Parse(ParseError),
    Prefix(PrefixFunctionError),
    Infix(InfixFunctionError),
}

impl ParserError for ParserErrorEntry {
    open spec fn spec_detail(&self) -> Seq<char> {
        match self {
            ParserErrorEntry::Parse(e) => e.detail@,
            ParserErrorEntry::Prefix(e) => e.detail@,
            ParserErrorEntry::Infix(e) => e.detail@,
        }
    }

    open spec fn spec_position(&self) -> Position {
        match self {
            ParserErrorEntry::Parse(e) => e.position,
            ParserErrorEntry::Prefix(e) => e.position,
            ParserErrorEntry::Infix(e) => e.position,
        }
    }

    fn detail(&self) -> (r: String) {
        match self {
            ParserErrorEntry::Parse(e) => e.detail.clone(),
            ParserErrorEntry::Prefix(e) => e.detail.clone(),
            ParserErrorEntry::Infix(e) => e.detail.clone(),
        }
    }

    fn position(&self) -> (p: Position) {
        match self {
            ParserErrorEntry::Parse(e) => e.position,
            ParserErrorEntry::Prefix(e) => e.position,
            ParserErrorEntry::Infix(e) => e.position,
        }
    }
}

} // verus!
