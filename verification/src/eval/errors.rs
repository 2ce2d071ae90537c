//! The closed taxonomy of evaluation errors. The first error aborts
//! evaluation and is surfaced intact to the caller.

use vstd::prelude::*;
use crate::ast::{Expression, ExpressionV};
use crate::object::{Object, ObjV, ObjectType};
use crate::token::Kind;

verus! {

#[derive(Debug, PartialEq)]
pub enum EvalError {
    BlankResult,
    EnvironmentHasDropped,
    LetStatementValueIsNone,
    EvaluationOfExpressionIsNone(Expression),
    LeftExpressionIsNone,
    RightExpressionIsNone,
    NotABoolean(Object),
    NotAFunction(Object),
    ConditionIsNone,
    FunctionIsNone,
    ElementIsNone,
    ArrayIsNone,
    IdentifierNotFound(String),
    NotSameType,
    NotArray,
    IndexIsNotAInt(Object),
    IndexIsNegative(Object),
    IndexOutOfRange(IndexErrorDetail),
    FunctionArgLengthNotMatched(ArgumentsLength),
    DivideWithZero,
    InvalidPrefixOperationTarget(ObjectType, Kind),
    InvalidInfixOperationTarget(ObjectType, Kind),
    InvalidStringInfixOperation(Kind),
    InvalidIntegerInfixOperation(Kind),
    InvalidIntegerPrefixOperation(Kind),
    InvalidBoolInfixOperation(Kind),
    InvalidBoolPrefixOperation(Kind),
    CallDepthLimitExceeded,
}

#[derive(Debug, Clone, Copy, PartialEq, Eq, Structural)]
pub struct ArgumentsLength {
    pub function_args: usize,
    pub called_with: usize,
}

#[derive(Debug, Clone, Copy, PartialEq, Eq, Structural)]
pub struct IndexErrorDetail {
    pub array_length: usize,
    pub called_with: usize,
}

/// Mathematical model of an evaluation error.
pub enum EvalErrV {
    BlankResult,
    EnvironmentHasDropped,
    LetStatementValueIsNone,
    EvaluationOfExpressionIsNone(ExpressionV),
    LeftExpressionIsNone,
    RightExpressionIsNone,
    NotABoolean(ObjV),
    NotAFunction(ObjV),
    ConditionIsNone,
    FunctionIsNone,
    ElementIsNone,
    ArrayIsNone,
    IdentifierNotFound(Seq<char>),
    NotSameType,
    NotArray,
    IndexIsNotAInt(ObjV),
    IndexIsNegative(ObjV),
    IndexOutOfRange { array_length: int, called_with: int },
    FunctionArgLengthNotMatched { function_args: int, called_with: int },
    DivideWithZero,
    InvalidPrefixOperationTarget(ObjectType, Kind),
    InvalidInfixOperationTarget(ObjectType, Kind),
    InvalidStringInfixOperation(Kind),
    InvalidIntegerInfixOperation(Kind),
    InvalidIntegerPrefixOperation(Kind),
    InvalidBoolInfixOperation(Kind),
    InvalidBoolPrefixOperation(Kind),
    CallDepthLimitExceeded,
}

pub open spec fn err_v(e: EvalError) -> EvalErrV {
    match e {
        EvalError::BlankResult => EvalErrV::BlankResult,
        EvalError::EnvironmentHasDropped => EvalErrV::EnvironmentHasDropped,
        EvalError::LetStatementValueIsNone => EvalErrV::LetStatementValueIsNone,
        EvalError::EvaluationOfExpressionIsNone(x) => EvalErrV::EvaluationOfExpressionIsNone(x@),
        EvalError::LeftExpressionIsNone => EvalErrV::LeftExpressionIsNone,
        EvalError::RightExpressionIsNone => EvalErrV::RightExpressionIsNone,
        EvalError::NotABoolean(o) => EvalErrV::NotABoolean(o@),
        EvalError::NotAFunction(o) => EvalErrV::NotAFunction(o@),
        EvalError::ConditionIsNone => EvalErrV::ConditionIsNone,
        EvalError::FunctionIsNone => EvalErrV::FunctionIsNone,
        EvalError::ElementIsNone => EvalErrV::ElementIsNone,
        EvalError::ArrayIsNone => EvalErrV::ArrayIsNone,
        EvalError::IdentifierNotFound(s) => EvalErrV::IdentifierNotFound(s@),
        EvalError::NotSameType => EvalErrV::NotSameType,
        EvalError::NotArray => EvalErrV::NotArray,
        EvalError::IndexIsNotAInt(o) => EvalErrV::IndexIsNotAInt(o@),
        EvalError::IndexIsNegative(o) => EvalErrV::IndexIsNegative(o@),
        EvalError::IndexOutOfRange(d) => EvalErrV::IndexOutOfRange {
            array_length: d.array_length as int,
            called_with: d.called_with as int,
        },
        EvalError::FunctionArgLengthNotMatched(a) => EvalErrV::FunctionArgLengthNotMatched {
            function_args: a.function_args as int,
            called_with: a.called_with as int,
        },
        EvalError::DivideWithZero => EvalErrV::DivideWithZero,
        EvalError::InvalidPrefixOperationTarget(t, k) => EvalErrV::InvalidPrefixOperationTarget(
            t,
            k,
        ),
        EvalError::InvalidInfixOperationTarget(t, k) => EvalErrV::InvalidInfixOperationTarget(
            t,
            k,
        ),
        EvalError::InvalidStringInfixOperation(k) => EvalErrV::InvalidStringInfixOperation(k),
        EvalError::InvalidIntegerInfixOperation(k) => EvalErrV::InvalidIntegerInfixOperation(k),
        EvalError::InvalidIntegerPrefixOperation(k) => EvalErrV::InvalidIntegerPrefixOperation(k),
        EvalError::InvalidBoolInfixOperation(k) => EvalErrV::InvalidBoolInfixOperation(k),
        EvalError::InvalidBoolPrefixOperation(k) => EvalErrV::InvalidBoolPrefixOperation(k),
        EvalError::CallDepthLimitExceeded => EvalErrV::CallDepthLimitExceeded,
    }
}

impl View for EvalError {
    type V = EvalErrV;

    open spec fn view(&self) -> EvalErrV {
        err_v(*self)
    }
}

} // verus!
