//! The evaluator: a recursive walk over the syntax tree against a chained
//! lexical environment, producing an optional value or an error.
//!
//! The meaning of every construct is given by the specification interpreter
//! (`spec_eval_*`), a mathematical function over the tree and environment
//! models. The executable evaluator is proved to return exactly what the
//! specification interpreter says, including every environment change.
//!
//! Function application is the one source of non-termination in the
//! language, so evaluation carries a call-depth budget (`fuel`); each
//! application spends one unit, and a program that nests deeper than the
//! budget fails with `CallDepthLimitExceeded`. All other recursion is
//! structural. Integer arithmetic wraps around on 64-bit overflow.

pub mod errors;

use vstd::prelude::*;
use crate::ast::{Expression, ExpressionV, Statement, StatementV, BlockStatement, BlockStatementV,
    InfixExpression, PrefixExpression, IfExpression, CallExpression, Node, NodeV, Program};
use crate::object::{Object, ObjV, ObjectType, ObjectTrait, Int, Bool, StringObject, Function,
    Return, obj_type, obj_v};
use crate::object::environment::{Environment, FrameV, env_wf, env_objs_wf, env_get, obj_wf,
    frame_objs_wf};
use crate::token::Kind;
use self::errors::{EvalError, EvalErrV, ArgumentsLength};

verus! {

/// The call-depth budget the public entry point evaluates with.
pub const DEFAULT_FUEL: u64 = 0xFFFF_FFFF;

/// Result and final environment of one specification-level evaluation.
pub struct EvalOut {
    pub res: Result<Option<ObjV>, EvalErrV>,
    pub env: Seq<FrameV>,
}

/// Result and final environment of evaluating an argument list.
pub struct ArgsOut {
    pub res: Result<Seq<ObjV>, EvalErrV>,
    pub env: Seq<FrameV>,
}

/// Binding a name in one frame of the arena.
pub open spec fn env_set(env: Seq<FrameV>, frame: int, key: Seq<char>, v: ObjV) -> Seq<FrameV> {
    env.update(
        frame,
        FrameV {
            binding: env[frame].binding.insert(key, v),
            outer: env[frame].outer,
            level: env[frame].level,
        },
    )
}

/// The frame the parameter names denote when bound to the argument values,
/// position by position.
pub open spec fn spec_bind_args(params: Seq<Seq<char>>, args: Seq<ObjV>) -> Map<Seq<char>, ObjV>
    decreases params,
{
    if params.len() == 0 || args.len() == 0 {
        Map::empty()
    } else {
        spec_bind_args(params.drop_last(), args.drop_last()).insert(params.last(), args.last())
    }
}

/// Unwraps a return marker one level; any other value passes through.
pub open spec fn spec_unwrap_return(o: Option<ObjV>) -> Option<ObjV> {
    match o {
        Some(ObjV::Return { value }) => match value {
            Some(b) => Some(*b),
            None => None,
        },
        Some(v) => Some(v),
        None => None,
    }
}

/// Truncating 64-bit division (the quotient is rounded toward zero),
/// wrapping on overflow: `i64::MIN / -1` is `i64::MIN`.
pub open spec fn spec_div_i64(l: i64, r: i64) -> i64 {
    let x = l as int;
    let d = r as int;
    let output = if x == 0 {
        0int
    } else if x > 0 && d > 0 {
        x / d
    } else if x < 0 && d < 0 {
        (x * -1) / (d * -1)
    } else if x < 0 {
        ((x * -1) / d) * -1
    } else {
        (x / (d * -1)) * -1
    };
    if output < i64::MIN || output > i64::MAX {
        i64::MIN
    } else {
        output as i64
    }
}

/// Truncating 64-bit remainder (the sign follows the dividend), wrapping
/// on overflow: `i64::MIN % -1` is 0.
pub open spec fn spec_rem_i64(l: i64, r: i64) -> i64 {
    let x = l as int;
    let d = r as int;
    let output = if x == 0 {
        0int
    } else if x > 0 && d > 0 {
        x % d
    } else if x < 0 && d < 0 {
        ((x * -1) % (d * -1)) * -1
    } else if x < 0 {
        ((x * -1) % d) * -1
    } else {
        x % (d * -1)
    };
    if output < i64::MIN || output > i64::MAX {
        0i64
    } else {
        output as i64
    }
}

/// 64-bit arithmetic negation, wrapping on overflow.
pub open spec fn spec_neg_i64(v: i64) -> i64 {
    if v == i64::MIN {
        i64::MIN
    } else {
        (-v) as i64
    }
}

/// 64-bit bitwise complement.
pub open spec fn spec_not_i64(v: i64) -> i64 {
    !v
}

/// 64-bit bitwise and.
pub open spec fn spec_and_i64(l: i64, r: i64) -> i64 {
    l & r
}

/// 64-bit bitwise or.
pub open spec fn spec_or_i64(l: i64, r: i64) -> i64 {
    l | r
}

/// Meaning of an infix operator on two integers.
pub open spec fn spec_infix_int(op: Kind, l: i64, r: i64) -> Result<ObjV, EvalErrV> {
    match op {
        Kind::Plus => Ok(ObjV::Int { value: vstd::wrapping::i64_specs::wrapping_add(l, r) }),
        Kind::Minus => Ok(ObjV::Int { value: vstd::wrapping::i64_specs::wrapping_sub(l, r) }),
        Kind::Product => Ok(ObjV::Int { value: vstd::wrapping::i64_specs::wrapping_mul(l, r) }),
        Kind::Divide => if r == 0 {
            Err(EvalErrV::DivideWithZero)
        } else {
            Ok(ObjV::Int { value: spec_div_i64(l, r) })
        },
        Kind::Mod => if r == 0 {
            Err(EvalErrV::DivideWithZero)
        } else {
            Ok(ObjV::Int { value: spec_rem_i64(l, r) })
        },
        Kind::LT => Ok(ObjV::Bool { value: l < r }),
        Kind::LT_OR_EQ => Ok(ObjV::Bool { value: l <= r }),
        Kind::GT => Ok(ObjV::Bool { value: l > r }),
        Kind::GT_OR_EQ => Ok(ObjV::Bool { value: l >= r }),
        Kind::EQ => Ok(ObjV::Bool { value: l == r }),
        Kind::NOT_EQ => Ok(ObjV::Bool { value: l != r }),
        Kind::Bit_And => Ok(ObjV::Int { value: spec_and_i64(l, r) }),
        Kind::Bit_Or => Ok(ObjV::Int { value: spec_or_i64(l, r) }),
        _ => Err(EvalErrV::InvalidIntegerInfixOperation(op)),
    }
}

/// Meaning of an infix operator on two booleans. `&&` and `&` both mean
/// logical and; `||` and `|` both mean logical or.
pub open spec fn spec_infix_bool(op: Kind, l: bool, r: bool) -> Result<ObjV, EvalErrV> {
    match op {
        Kind::And => Ok(ObjV::Bool { value: l && r }),
        Kind::Bit_And => Ok(ObjV::Bool { value: l && r }),
        Kind::Or => Ok(ObjV::Bool { value: l || r }),
        Kind::Bit_Or => Ok(ObjV::Bool { value: l || r }),
        Kind::EQ => Ok(ObjV::Bool { value: l == r }),
        Kind::NOT_EQ => Ok(ObjV::Bool { value: l != r }),
        _ => Err(EvalErrV::InvalidBoolInfixOperation(op)),
    }
}

/// Meaning of an infix operator on two strings: concatenation and equality.
pub open spec fn spec_infix_string(op: Kind, l: Seq<char>, r: Seq<char>) -> Result<
    ObjV,
    EvalErrV,
> {
    match op {
        Kind::EQ => Ok(ObjV::Bool { value: l == r }),
        Kind::NOT_EQ => Ok(ObjV::Bool { value: l != r }),
        Kind::Plus => Ok(ObjV::String { value: l + r }),
        _ => Err(EvalErrV::InvalidStringInfixOperation(op)),
    }
}

/// Meaning of a prefix operator on an integer: `!` is bitwise complement,
/// `-` is arithmetic negation.
pub open spec fn spec_prefix_int(op: Kind, v: i64) -> Result<ObjV, EvalErrV> {
    match op {
        Kind::Bang => Ok(ObjV::Int { value: spec_not_i64(v) }),
        Kind::Minus => Ok(ObjV::Int { value: spec_neg_i64(v) }),
        _ => Err(EvalErrV::InvalidIntegerPrefixOperation(op)),
    }
}

/// Meaning of a prefix operator on a boolean: `!` is logical negation.
pub open spec fn spec_prefix_bool(op: Kind, v: bool) -> Result<ObjV, EvalErrV> {
    match op {
        Kind::Bang => Ok(ObjV::Bool { value: !v }),
        _ => Err(EvalErrV::InvalidBoolPrefixOperation(op)),
    }
}

/// Evaluating a program: its statements in order; a return marker halts the
/// program with the unwrapped value; the last statement's result is the
/// program's; the empty program has no result.
pub open spec fn spec_eval_program(
    stmts: Seq<StatementV>,
    env: Seq<FrameV>,
    frame: int,
    fuel: nat,
) -> EvalOut
    decreases fuel, stmts, 0int,
{
    if stmts.len() == 0 {
        EvalOut { res: Err(EvalErrV::BlankResult), env }
    } else {
        let o = spec_eval_stmt(stmts[0], env, frame, fuel);
        match o.res {
            Err(e) => o,
            Ok(opt) => match opt {
                Some(ObjV::Return { value }) => EvalOut {
                    res: Ok(
                        match value {
                            Some(b) => Some(*b),
                            None => None,
                        },
                    ),
                    env: o.env,
                },
                _ => if stmts.len() == 1 {
                    o
                } else {
                    spec_eval_program(stmts.skip(1), o.env, frame, fuel)
                },
            },
        }
    }
}

/// Evaluating one statement against the given frame.
pub open spec fn spec_eval_stmt(st: StatementV, env: Seq<FrameV>, frame: int, fuel: nat) -> EvalOut
    decreases fuel, st, 0int,
{
    match st {
        StatementV::LetStatement(ls) => match ls.value {
            None => EvalOut { res: Err(EvalErrV::LetStatementValueIsNone), env },
            Some(e) => {
                let o = spec_eval_exp(e, env, frame, fuel);
                match o.res {
                    Err(err) => o,
                    Ok(None) => EvalOut {
                        res: Err(EvalErrV::EvaluationOfExpressionIsNone(e)),
                        env: o.env,
                    },
                    Ok(Some(v)) => {
                        let bound = match v {
                            ObjV::Function { identifier, args, block, env: fenv } => ObjV::Function {
                                identifier: Some(ls.identifier.value),
                                args,
                                block,
                                env: fenv,
                            },
                            other => other,
                        };
                        EvalOut {
                            res: Ok(None),
                            env: env_set(o.env, frame, ls.identifier.value, bound),
                        }
                    },
                }
            },
        },
        StatementV::ExpressionStatement(es) => match es.expression {
            Some(e) => spec_eval_exp(e, env, frame, fuel),
            None => EvalOut { res: Ok(None), env },
        },
        StatementV::BlockStatement(bs) => spec_eval_block_entry(bs, env, frame, fuel),
        StatementV::ReturnStatement(rs) => match rs.value {
            None => EvalOut { res: Ok(Some(ObjV::Return { value: None })), env },
            Some(e) => {
                let o = spec_eval_exp(e, env, frame, fuel);
                match o.res {
                    Err(err) => o,
                    Ok(None) => EvalOut {
                        res: Ok(Some(ObjV::Return { value: None })),
                        env: o.env,
                    },
                    Ok(Some(v)) => EvalOut {
                        res: Ok(Some(ObjV::Return { value: Some(Box::new(v)) })),
                        env: o.env,
                    },
                }
            },
        },
    }
}

/// Evaluating a block: a fresh child frame, then the statements in order; a
/// return marker leaves the block with its value, unwrapped one level.
pub open spec fn spec_eval_block_entry(
    bs: BlockStatementV,
    env: Seq<FrameV>,
    frame: int,
    fuel: nat,
) -> EvalOut
    decreases fuel, bs, 0int,
{
    let env1 = env.push(
        FrameV {
            binding: Map::empty(),
            outer: Some(frame),
            level: env[frame].level + 1,
        },
    );
    spec_eval_block_stmts(bs.statements, env1, env.len() as int, fuel)
}

/// Evaluating the statements of a block in order. The empty block has no
/// result; otherwise the last statement's result stands.
pub open spec fn spec_eval_block_stmts(
    stmts: Seq<StatementV>,
    env: Seq<FrameV>,
    frame: int,
    fuel: nat,
) -> EvalOut
    decreases fuel, stmts, 0int,
{
    if stmts.len() == 0 {
        EvalOut { res: Ok(None), env }
    } else {
        let o = spec_eval_stmt(stmts[0], env, frame, fuel);
        match o.res {
            Err(e) => o,
            Ok(opt) => match opt {
                Some(ObjV::Return { value }) => EvalOut {
                    res: Ok(
                        match value {
                            Some(b) => Some(*b),
                            None => None,
                        },
                    ),
                    env: o.env,
                },
                _ => if stmts.len() == 1 {
                    o
                } else {
                    spec_eval_block_stmts(stmts.skip(1), o.env, frame, fuel)
                },
            },
        }
    }
}

/// Evaluating one expression against the given frame.
pub open spec fn spec_eval_exp(e: ExpressionV, env: Seq<FrameV>, frame: int, fuel: nat) -> EvalOut
    decreases fuel, e, 0int,
{
    match e {
        ExpressionV::Identifier(id) => match env_get(env, frame, id.value) {
            Some(v) => EvalOut { res: Ok(Some(v)), env },
            None => EvalOut { res: Err(EvalErrV::IdentifierNotFound(id.value)), env },
        },
        ExpressionV::IntegerLiteral(il) => EvalOut {
            res: Ok(Some(ObjV::Int { value: il.value })),
            env,
        },
        ExpressionV::BooleanLiteral(bl) => EvalOut {
            res: Ok(Some(ObjV::Bool { value: bl.value })),
            env,
        },
        ExpressionV::StringLiteral(sl) => EvalOut {
            res: Ok(Some(ObjV::String { value: sl.value })),
            env,
        },
        ExpressionV::FunctionLiteral(fl) => {
            let f0 = ObjV::Function {
                identifier: match fl.ident {
                    Some(i) => Some(i.value),
                    None => None,
                },
                args: fl.parameters,
                block: fl.body,
                env: frame,
            };
            match fl.ident {
                Some(i) => EvalOut {
                    res: Ok(Some(f0)),
                    env: env_set(env, frame, i.value, f0),
                },
                None => EvalOut { res: Ok(Some(f0)), env },
            }
        },
        ExpressionV::InfixExpression(ie) => {
            let lo = spec_eval_exp(*ie.left, env, frame, fuel);
            match lo.res {
                Err(err) => lo,
                Ok(None) => EvalOut { res: Err(EvalErrV::LeftExpressionIsNone), env: lo.env },
                Ok(Some(lv)) => {
                    let ro = spec_eval_exp(*ie.right, lo.env, frame, fuel);
                    match ro.res {
                        Err(err) => ro,
                        Ok(None) => EvalOut {
                            res: Err(EvalErrV::RightExpressionIsNone),
                            env: ro.env,
                        },
                        Ok(Some(rv)) => {
                            if obj_type(lv) != obj_type(rv) {
                                EvalOut { res: Err(EvalErrV::NotSameType), env: ro.env }
                            } else {
                                let op = ie.operator.kind;
                                match lv {
                                    ObjV::Int { value: l } => match rv {
                                        ObjV::Int { value: r } => EvalOut {
                                            res: match spec_infix_int(op, l, r) {
                                                Ok(v) => Ok(Some(v)),
                                                Err(err) => Err(err),
                                            },
                                            env: ro.env,
                                        },
                                        _ => EvalOut { res: Err(EvalErrV::NotSameType), env: ro.env },
                                    },
                                    ObjV::Bool { value: l } => match rv {
                                        ObjV::Bool { value: r } => EvalOut {
                                            res: match spec_infix_bool(op, l, r) {
                                                Ok(v) => Ok(Some(v)),
                                                Err(err) => Err(err),
                                            },
                                            env: ro.env,
                                        },
                                        _ => EvalOut { res: Err(EvalErrV::NotSameType), env: ro.env },
                                    },
                                    ObjV::String { value: l } => match rv {
                                        ObjV::String { value: r } => EvalOut {
                                            res: match spec_infix_string(op, l, r) {
                                                Ok(v) => Ok(Some(v)),
                                                Err(err) => Err(err),
                                            },
                                            env: ro.env,
                                        },
                                        _ => EvalOut { res: Err(EvalErrV::NotSameType), env: ro.env },
                                    },
                                    _ => EvalOut {
                                        res: Err(
                                            EvalErrV::InvalidInfixOperationTarget(obj_type(lv), op),
                                        ),
                                        env: ro.env,
                                    },
                                }
                            }
                        },
                    }
                },
            }
        },
        ExpressionV::PrefixExpression(pe) => {
            let op = pe.token.kind;
            let o = spec_eval_exp(*pe.right, env, frame, fuel);
            match o.res {
                Err(err) => o,
                Ok(None) => EvalOut {
                    res: Err(EvalErrV::EvaluationOfExpressionIsNone(*pe.right)),
                    env: o.env,
                },
                Ok(Some(v)) => match v {
                    ObjV::Int { value } => EvalOut {
                        res: match spec_prefix_int(op, value) {
                            Ok(rv) => Ok(Some(rv)),
                            Err(err) => Err(err),
                        },
                        env: o.env,
                    },
                    ObjV::Bool { value } => EvalOut {
                        res: match spec_prefix_bool(op, value) {
                            Ok(rv) => Ok(Some(rv)),
                            Err(err) => Err(err),
                        },
                        env: o.env,
                    },
                    other => EvalOut {
                        res: Err(EvalErrV::InvalidPrefixOperationTarget(obj_type(other), op)),
                        env: o.env,
                    },
                },
            }
        },
        ExpressionV::IfExpression(ife) => {
            let co = spec_eval_exp(*ife.condition, env, frame, fuel);
            match co.res {
                Err(err) => co,
                Ok(None) => EvalOut { res: Err(EvalErrV::ConditionIsNone), env: co.env },
                Ok(Some(v)) => match v {
                    ObjV::Bool { value: flag } => if flag {
                        spec_eval_block_entry(ife.consequence, co.env, frame, fuel)
                    } else {
                        match ife.alternative {
                            Some(alt) => spec_eval_block_entry(alt, co.env, frame, fuel),
                            None => EvalOut { res: Ok(None), env: co.env },
                        }
                    },
                    other => EvalOut { res: Err(EvalErrV::NotABoolean(other)), env: co.env },
                },
            }
        },
        ExpressionV::CallExpression(ce) => {
            let fo = spec_eval_exp(*ce.function, env, frame, fuel);
            match fo.res {
                Err(err) => fo,
                Ok(None) => EvalOut { res: Err(EvalErrV::FunctionIsNone), env: fo.env },
                Ok(Some(fv)) => match fv {
                    ObjV::Function { args: params, block, env: fenv, .. } => {
                        let ao = spec_eval_args(ce.arguments, fo.env, frame, fuel);
                        match ao.res {
                            Err(err) => EvalOut { res: Err(err), env: ao.env },
                            Ok(argvals) => if fuel == 0 {
                                EvalOut {
                                    res: Err(EvalErrV::CallDepthLimitExceeded),
                                    env: ao.env,
                                }
                            } else {
                                spec_apply_function(
                                    params,
                                    block,
                                    fenv,
                                    argvals,
                                    ao.env,
                                    (fuel - 1) as nat,
                                )
                            },
                        }
                    },
                    other => EvalOut { res: Err(EvalErrV::NotAFunction(other)), env: fo.env },
                },
            }
        },
    }
}

/// Evaluating an argument list eagerly, left to right.
pub open spec fn spec_eval_args(
    es: Seq<ExpressionV>,
    env: Seq<FrameV>,
    frame: int,
    fuel: nat,
) -> ArgsOut
    decreases fuel, es, 0int,
{
    if es.len() == 0 {
        ArgsOut { res: Ok(Seq::empty()), env }
    } else {
        let o = spec_eval_exp(es[0], env, frame, fuel);
        match o.res {
            Err(err) => ArgsOut { res: Err(err), env: o.env },
            Ok(None) => ArgsOut {
                res: Err(EvalErrV::EvaluationOfExpressionIsNone(es[0])),
                env: o.env,
            },
            Ok(Some(v)) => {
                let rest = spec_eval_args(es.skip(1), o.env, frame, fuel);
                match rest.res {
                    Err(err) => rest,
                    Ok(vs) => ArgsOut { res: Ok(seq![v] + vs), env: rest.env },
                }
            },
        }
    }
}

/// Applying a closure, given by its parameter list, body block, and
/// captured frame handle: the argument count must match the parameter
/// count; the captured frame handle must point into the arena; a fresh
/// child of the captured frame binds parameters to arguments; the body's
/// result has any return marker unwrapped.
pub open spec fn spec_apply_function(
    params: Seq<crate::ast::IdentifierV>,
    block: BlockStatementV,
    fenv: int,
    args: Seq<ObjV>,
    env: Seq<FrameV>,
    fuel: nat,
) -> EvalOut
    decreases fuel, block, 1int,
{
    if args.len() != params.len() {
        EvalOut {
            res: Err(
                EvalErrV::FunctionArgLengthNotMatched {
                    function_args: params.len() as int,
                    called_with: args.len() as int,
                },
            ),
            env,
        }
    } else if !(0 <= fenv < env.len()) {
        EvalOut { res: Err(EvalErrV::EnvironmentHasDropped), env }
    } else {
        let env1 = env.push(
            FrameV {
                binding: spec_bind_args(
                    params.map_values(|i: crate::ast::IdentifierV| i.value),
                    args,
                ),
                outer: Some(fenv),
                level: env[fenv].level + 1,
            },
        );
        let o = spec_eval_block_entry(block, env1, env.len() as int, fuel);
        match o.res {
            Err(err) => o,
            Ok(opt) => EvalOut { res: Ok(spec_unwrap_return(opt)), env: o.env },
        }
    }
}

/// Evaluating a node of any of the three families against the global frame.
pub open spec fn spec_evaluate(n: NodeV, env: Seq<FrameV>, fuel: nat) -> EvalOut {
    match n {
        NodeV::Program(p) => spec_eval_program(p.statements, env, 0, fuel),
        NodeV::Statement(s) => spec_eval_stmt(s, env, 0, fuel),
        NodeV::Expression(e) => spec_eval_exp(e, env, 0, fuel),
    }
}

/// Evaluation is deterministic: one node, against equal environments and
/// with the same call-depth budget, has exactly one result and one final
/// environment. This holds because the meaning of evaluation is the
/// mathematical function [`spec_evaluate`], and the executable evaluator
/// is proved to return exactly what it describes; evaluation order beyond
/// the left-to-right order the specification fixes plays no part.
pub proof fn lemma_evaluate_deterministic(
    n1: NodeV,
    n2: NodeV,
    env1: Seq<FrameV>,
    env2: Seq<FrameV>,
    fuel: nat,
)
    requires
        n1 == n2,
        env1 == env2,
    ensures
        spec_evaluate(n1, env1, fuel) == spec_evaluate(n2, env2, fuel),
{
}

// ------------------------------------------------------------------
// The executable evaluator, proved equal to the specification
// interpreter.
// ------------------------------------------------------------------

/// Model of an optional value.
pub open spec fn opt_obj_v(o: Option<Object>) -> Option<ObjV> {
    match o {
        Some(x) => Some(obj_v(x)),
        None => None,
    }
}

/// Model of an evaluation result.
pub open spec fn res_v(r: Result<Option<Object>, EvalError>) -> Result<Option<ObjV>, EvalErrV> {
    match r {
        Ok(o) => Ok(opt_obj_v(o)),
        Err(e) => Err(errors::err_v(e)),
    }
}

/// Model of a single-value result.
pub open spec fn objres_v(r: Result<Object, EvalError>) -> Result<ObjV, EvalErrV> {
    match r {
        Ok(o) => Ok(obj_v(o)),
        Err(e) => Err(errors::err_v(e)),
    }
}

/// A well-formed optional value.
pub open spec fn opt_obj_wf(o: Option<ObjV>, n: nat) -> bool {
    match o {
        Some(v) => obj_wf(v, n),
        None => true,
    }
}

/// Evaluates an infix operator on two integer operands.
pub fn eval_infix_int_exp(left: Int, operator: Kind, right: Int) -> (r: Result<Object, EvalError>)
    ensures
        objres_v(r) == spec_infix_int(operator, left.value, right.value),
{
    match operator {
        Kind::Plus => Ok(Object::Int(Int { value: left.value.wrapping_add(right.value) })),
        Kind::Minus => Ok(Object::Int(Int { value: left.value.wrapping_sub(right.value) })),
        Kind::Product => Ok(Object::Int(Int { value: left.value.wrapping_mul(right.value) })),
        Kind::Divide => {
            if right.value == 0 {
                return Err(EvalError::DivideWithZero);
            }
            match left.value.checked_div(right.value) {
                Some(q) => Ok(Object::Int(Int { value: q })),
                None => Ok(Object::Int(Int { value: i64::MIN })),
            }
        },
        Kind::Mod => {
            if right.value == 0 {
                return Err(EvalError::DivideWithZero);
            }
            match left.value.checked_rem(right.value) {
                Some(m) => Ok(Object::Int(Int { value: m })),
                None => Ok(Object::Int(Int { value: 0 })),
            }
        },
        Kind::LT => Ok(Object::Bool(Bool { value: left.value < right.value })),
        Kind::LT_OR_EQ => Ok(Object::Bool(Bool { value: left.value <= right.value })),
        Kind::GT => Ok(Object::Bool(Bool { value: left.value > right.value })),
        Kind::GT_OR_EQ => Ok(Object::Bool(Bool { value: left.value >= right.value })),
        Kind::EQ => Ok(Object::Bool(Bool { value: left.value == right.value })),
        Kind::NOT_EQ => Ok(Object::Bool(Bool { value: left.value != right.value })),
        Kind::Bit_And => Ok(Object::Int(Int { value: left.value & right.value })),
        Kind::Bit_Or => Ok(Object::Int(Int { value: left.value | right.value })),
        oper => Err(EvalError::InvalidIntegerInfixOperation(oper)),
    }
}

/// Evaluates an infix operator on two boolean operands.
pub fn eval_infix_bool_exp(left: Bool, operator: Kind, right: Bool) -> (r: Result<
    Object,
    EvalError,
>)
    ensures
        objres_v(r) == spec_infix_bool(operator, left.value, right.value),
{
    match operator {
        Kind::And | Kind::Bit_And => Ok(Object::Bool(Bool { value: left.value && right.value })),
        Kind::Or | Kind::Bit_Or => Ok(Object::Bool(Bool { value: left.value || right.value })),
        Kind::EQ => Ok(Object::Bool(Bool { value: left.value == right.value })),
        Kind::NOT_EQ => Ok(Object::Bool(Bool { value: left.value != right.value })),
        oper => Err(EvalError::InvalidBoolInfixOperation(oper)),
    }
}

/// Evaluates an infix operator on two string operands.
pub fn eval_infix_string_exp(left: StringObject, operator: Kind, right: StringObject) -> (r:
    Result<Object, EvalError>)
    ensures
        objres_v(r) == spec_infix_string(operator, left.value@, right.value@),
{
    match operator {
        Kind::EQ => Ok(Object::Bool(Bool { value: left.value == right.value })),
        Kind::NOT_EQ => Ok(Object::Bool(Bool { value: left.value != right.value })),
        Kind::Plus => {
            let value = left.value.concat(right.value.as_str());
            Ok(Object::String(StringObject { value }))
        },
        oper => Err(EvalError::InvalidStringInfixOperation(oper)),
    }
}

/// Evaluates a prefix operator on an integer operand.
pub fn eval_prefix_int_exp(operator: Kind, right: Int) -> (r: Result<Object, EvalError>)
    ensures
        objres_v(r) == spec_prefix_int(operator, right.value),
{
    match operator {
        Kind::Bang => Ok(Object::Int(Int { value: !right.value })),
        Kind::Minus => {
            if right.value == i64::MIN {
                Ok(Object::Int(Int { value: i64::MIN }))
            } else {
                Ok(Object::Int(Int { value: -right.value }))
            }
        },
        oper => Err(EvalError::InvalidIntegerPrefixOperation(oper)),
    }
}

/// Evaluates a prefix operator on a boolean operand.
pub fn eval_prefix_bool_exp(operator: Kind, right: Bool) -> (r: Result<Object, EvalError>)
    ensures
        objres_v(r) == spec_prefix_bool(operator, right.value),
{
    match operator {
        Kind::Bang => Ok(Object::Bool(Bool { value: !right.value })),
        oper => Err(EvalError::InvalidBoolPrefixOperation(oper)),
    }
}

/// Unwraps a return marker one level; any other value passes through
/// unchanged.
pub fn unwrap_return_value(obj: Option<Object>) -> (r: Option<Object>)
    ensures
        opt_obj_v(r) == spec_unwrap_return(opt_obj_v(obj)),
{
    match obj {
        None => None,
        Some(o) => match o {
            Object::Return(rtv) => match rtv.value {
                Some(val) => Some(*val),
                None => None,
            },
            other => Some(other),
        },
    }
}

/// A value looked up in a well-formed arena is well formed.
proof fn lemma_env_get_wf(env: Seq<FrameV>, f: int, key: Seq<char>)
    requires
        env_wf(env),
        env_objs_wf(env),
    ensures
        match env_get(env, f, key) {
            Some(v) => obj_wf(v, env.len() as nat),
            None => true,
        },
    decreases f,
{
    if 0 <= f < env.len() {
        if env[f].binding.dom().contains(key) {
            assert(frame_objs_wf(env[f], env.len() as nat));
        } else {
            match env[f].outer {
                Some(j) => {
                    if 0 <= j < f {
                        lemma_env_get_wf(env, j, key);
                    }
                },
                None => {},
            }
        }
    }
}

/// Binding well-formed arguments gives a frame of well-formed values.
proof fn lemma_bind_args_wf(params: Seq<Seq<char>>, args: Seq<ObjV>, n: nat)
    requires
        forall|i: int| 0 <= i < args.len() ==> obj_wf(#[trigger] args[i], n),
    ensures
        forall|k: Seq<char>|
            spec_bind_args(params, args).dom().contains(k) ==> obj_wf(
                #[trigger] spec_bind_args(params, args)[k],
                n,
            ),
    decreases params.len(),
{
    if params.len() > 0 && args.len() > 0 {
        assert forall|i: int| 0 <= i < args.drop_last().len() implies obj_wf(
            #[trigger] args.drop_last()[i],
            n,
        ) by {
            assert(args.drop_last()[i] == args[i]);
        }
        lemma_bind_args_wf(params.drop_last(), args.drop_last(), n);
        let m = spec_bind_args(params, args);
        let m0 = spec_bind_args(params.drop_last(), args.drop_last());
        assert forall|k: Seq<char>| m.dom().contains(k) implies obj_wf(#[trigger] m[k], n) by {
            if k == params.last() {
                assert(m[k] == args.last());
                assert(args.last() == args[args.len() - 1]);
            } else {
                assert(m[k] == m0[k]);
            }
        }
    }
}

/// Binding one more well-formed value keeps every value in the arena well
/// formed.
proof fn lemma_objs_wf_set(env: Seq<FrameV>, frame: int, key: Seq<char>, v: ObjV)
    requires
        env_objs_wf(env),
        0 <= frame < env.len(),
        obj_wf(v, env.len() as nat),
    ensures
        env_objs_wf(env_set(env, frame, key, v)),
{
    let env2 = env_set(env, frame, key, v);
    assert(env2.len() == env.len());
    assert forall|i: int| 0 <= i < env2.len() implies frame_objs_wf(
        #[trigger] env2[i],
        env2.len() as nat,
    ) by {
        assert(frame_objs_wf(env[i], env.len() as nat));
        if i == frame {
            assert forall|k: Seq<char>| env2[i].binding.dom().contains(k) implies obj_wf(
                #[trigger] env2[i].binding[k],
                env2.len() as nat,
            ) by {
                if k != key {
                    assert(env2[i].binding[k] == env[i].binding[k]);
                }
            }
        }
    }
}

/// Pushing a frame of well-formed values keeps every value in the arena
/// well formed.
proof fn lemma_objs_wf_push(env: Seq<FrameV>, f: FrameV)
    requires
        env_objs_wf(env),
        forall|k: Seq<char>|
            f.binding.dom().contains(k) ==> obj_wf(#[trigger] f.binding[k], env.len() + 1),
    ensures
        env_objs_wf(env.push(f)),
{
    let env2 = env.push(f);
    assert forall|i: int| 0 <= i < env2.len() implies frame_objs_wf(
        #[trigger] env2[i],
        env2.len() as nat,
    ) by {
        if i < env.len() {
            assert(frame_objs_wf(env[i], env.len() as nat));
            assert forall|k: Seq<char>| env2[i].binding.dom().contains(k) implies obj_wf(
                #[trigger] env2[i].binding[k],
                env2.len() as nat,
            ) by {
                crate::object::environment::lemma_obj_wf_grow(
                    env[i].binding[k],
                    env.len() as nat,
                    env2.len() as nat,
                );
            }
        }
    }
}

/// Copies a parameter list.
fn dup_ident_vec(v: &Vec<crate::ast::Identifier>) -> (r: Vec<crate::ast::Identifier>)
    ensures
        r@.len() == v@.len(),
        forall|k: int| 0 <= k < v@.len() ==> r@[k]@ == v@[k]@,
{
    let mut r: Vec<crate::ast::Identifier> = Vec::new();
    let mut i: usize = 0;
    while i < v.len()
        invariant
            0 <= i <= v@.len(),
            r@.len() == i,
            forall|k: int| 0 <= k < i ==> r@[k]@ == v@[k]@,
        decreases v@.len() - i,
    {
        let d = v[i].duplicate();
        r.push(d);
        i = i + 1;
    }
    r
}

/// Evaluates a node of any of the three families against the global frame
/// of the environment, with the default call-depth budget.
pub fn evaluate(node: Node, env: &mut Environment) -> (r: Result<Option<Object>, EvalError>)
    requires
        env_wf(old(env)@),
        env_objs_wf(old(env)@),
        old(env)@.len() >= 1,
    ensures
        env_wf(final(env)@),
        env_objs_wf(final(env)@),
        final(env)@.len() >= old(env)@.len(),
        res_v(r) == spec_evaluate(node@, old(env)@, DEFAULT_FUEL as nat).res,
        final(env)@ == spec_evaluate(node@, old(env)@, DEFAULT_FUEL as nat).env,
{
    match node {
        Node::Program(pro) => eval_program(&pro, env, 0, DEFAULT_FUEL),
        Node::Statement(stm) => eval_stm(&stm, env, 0, DEFAULT_FUEL),
        Node::Expression(exp) => eval_exp(&exp, env, 0, DEFAULT_FUEL),
    }
}

/// Evaluates the statements of a program in order against the given frame.
#[verifier::rlimit(60)]
fn eval_program(pro: &Program, env: &mut Environment, frame: usize, fuel: u64) -> (r: Result<
    Option<Object>,
    EvalError,
>)
    requires
        env_wf(old(env)@),
        env_objs_wf(old(env)@),
        frame < old(env)@.len(),
    ensures
        env_wf(final(env)@),
        env_objs_wf(final(env)@),
        old(env)@.len() <= final(env)@.len(),
        res_v(r) == spec_eval_program((*pro)@.statements, old(env)@, frame as int, fuel as nat).res,
        final(env)@ == spec_eval_program(
            (*pro)@.statements,
            old(env)@,
            frame as int,
            fuel as nat,
        ).env,
        match r {
            Ok(Some(o)) => obj_wf(o@, final(env)@.len() as nat),
            _ => true,
        },
    decreases fuel, *pro, 0int,
{
    let ghost env0 = old(env)@;
    let ghost stmts = (*pro)@.statements;
    let ghost tg = spec_eval_program(stmts, env0, frame as int, fuel as nat);
    proof {
        crate::ast::lemma_stmt_seq_v(pro.statements@);
        assert(stmts.skip(0) =~= stmts);
    }
    let mut result: Result<Option<Object>, EvalError> = Err(EvalError::BlankResult);
    let n = pro.statements.len();
    let mut i: usize = 0;
    while i < n
        invariant
            env_wf(env@),
            env_objs_wf(env@),
            env0.len() <= env@.len(),
            frame < env@.len(),
            env0 == old(env)@,
            n == pro.statements@.len(),
            stmts == (*pro)@.statements,
            stmts.len() == n,
            forall|k: int| 0 <= k < n ==> stmts[k] == crate::ast::stmt_v(pro.statements@[k]),
            tg == spec_eval_program(stmts, env0, frame as int, fuel as nat),
            0 <= i <= n,
            i < n ==> tg == spec_eval_program(stmts.skip(i as int), env@, frame as int, fuel as nat),
            i == n ==> tg.res == res_v(result) && tg.env == env@,
            i == n ==> (match result {
                Ok(Some(o)) => obj_wf(o@, env@.len() as nat),
                _ => true,
            }),
        decreases n - i,
    {
        let ghost env_head = env@;
        let ghost cur = spec_eval_program(stmts.skip(i as int), env@, frame as int, fuel as nat);
        proof {
            assert(stmts.skip(i as int)[0] == stmts[i as int]);
            if i + 1 < n {
                assert(stmts.skip(i as int).skip(1) =~= stmts.skip(i + 1 as int));
            }
        }
        let sr = eval_stm(&pro.statements[i], env, frame, fuel);
        let ghost o = spec_eval_stmt(stmts[i as int], env_head, frame as int, fuel as nat);
        proof {
            assert(o.res == res_v(sr));
            assert(o.env == env@);
        }
        match sr {
            Err(e) => {
                proof {
                    assert(cur == o);
                    assert(tg.env == env@);
                }
                return Err(e);
            },
            Ok(opt) => {
                match opt {
                    Some(obj) => {
                        match obj {
                            Object::Return(rtv) => {
                                match rtv.value {
                                    Some(val) => {
                                        proof {
                                            assert(tg.env == env@);
                                            assert(tg.res == Ok::<Option<ObjV>, EvalErrV>(Some(obj_v(*val))));
                                            assert(obj_wf(obj_v(*val), env@.len() as nat));
                                        }
                                        return Ok(Some(*val));
                                    },
                                    None => {
                                        proof {
                                            assert(tg.env == env@);
                                            assert(tg.res == Ok::<Option<ObjV>, EvalErrV>(None));
                                        }
                                        return Ok(None);
                                    },
                                }
                            },
                            other => {
                                result = Ok(Some(other));
                            },
                        }
                    },
                    None => {
                        result = Ok(None);
                    },
                }
            },
        }
        proof {
            if i + 1 < n {
                assert(tg == spec_eval_program(
                    stmts.skip(i + 1 as int),
                    env@,
                    frame as int,
                    fuel as nat,
                ));
            } else {
                assert(tg.res == res_v(result));
                assert(tg.env == env@);
            }
        }
        i = i + 1;
    }
    result
}

/// Evaluates one statement against the given frame.
#[verifier::rlimit(100)]
fn eval_stm(stm: &Statement, env: &mut Environment, frame: usize, fuel: u64) -> (r: Result<
    Option<Object>,
    EvalError,
>)
    requires
        env_wf(old(env)@),
        env_objs_wf(old(env)@),
        frame < old(env)@.len(),
    ensures
        env_wf(final(env)@),
        env_objs_wf(final(env)@),
        old(env)@.len() <= final(env)@.len(),
        res_v(r) == spec_eval_stmt(stm@, old(env)@, frame as int, fuel as nat).res,
        final(env)@ == spec_eval_stmt(stm@, old(env)@, frame as int, fuel as nat).env,
        match r {
            Ok(Some(o)) => obj_wf(o@, final(env)@.len() as nat),
            _ => true,
        },
    decreases fuel, *stm, 1int,
{
    match stm {
        Statement::LetStatement(ls) => {
            match &ls.value {
                None => Err(EvalError::LetStatementValueIsNone),
                Some(e) => {
                    let res = eval_exp(e, env, frame, fuel);
                    match res {
                        Err(err) => Err(err),
                        Ok(None) => Err(EvalError::EvaluationOfExpressionIsNone(e.duplicate())),
                        Ok(Some(obj)) => {
                            let ghost env1 = env@;
                            let ghost objv = obj@;
                            let bound = match obj {
                                Object::Function(f) => {
                                    let mut f = f;
                                    f.identifier = Some(ls.identifier.value.clone());
                                    Object::Function(f)
                                },
                                other => other,
                            };
                            let key = ls.identifier.value.clone();
                            let ghost boundv = bound@;
                            proof {
                                assert(obj_wf(boundv, env1.len() as nat));
                                lemma_objs_wf_set(env1, frame as int, key@, boundv);
                            }
                            env.set(frame, key, bound);
                            proof {
                                assert(env@ =~= env_set(
                                    env1,
                                    frame as int,
                                    (*ls)@.identifier.value,
                                    boundv,
                                ));
                            }
                            Ok(None)
                        },
                    }
                },
            }
        },
        Statement::ExpressionStatement(es) => {
            match &es.expression {
                Some(e) => eval_exp(e, env, frame, fuel),
                None => Ok(None),
            }
        },
        Statement::BlockStatement(bs) => eval_block(bs, env, frame, fuel),
        Statement::ReturnStatement(rs) => {
            match &rs.value {
                None => Ok(Some(Object::Return(Return { value: None }))),
                Some(e) => {
                    let res = eval_exp(e, env, frame, fuel);
                    match res {
                        Err(err) => Err(err),
                        Ok(None) => Ok(Some(Object::Return(Return { value: None }))),
                        Ok(Some(v)) => Ok(
                            Some(Object::Return(Return { value: Some(Box::new(v)) })),
                        ),
                    }
                },
            }
        },
    }
}

/// Evaluates a block: a fresh child frame, then its statements in order.
#[verifier::rlimit(60)]
fn eval_block(bs: &BlockStatement, env: &mut Environment, frame: usize, fuel: u64) -> (r: Result<
    Option<Object>,
    EvalError,
>)
    requires
        env_wf(old(env)@),
        env_objs_wf(old(env)@),
        frame < old(env)@.len(),
    ensures
        env_wf(final(env)@),
        env_objs_wf(final(env)@),
        old(env)@.len() <= final(env)@.len(),
        res_v(r) == spec_eval_block_entry(
            crate::ast::block_v(*bs),
            old(env)@,
            frame as int,
            fuel as nat,
        ).res,
        final(env)@ == spec_eval_block_entry(
            crate::ast::block_v(*bs),
            old(env)@,
            frame as int,
            fuel as nat,
        ).env,
        match r {
            Ok(Some(o)) => obj_wf(o@, final(env)@.len() as nat),
            _ => true,
        },
    decreases fuel, *bs, 0int,
{
    let ghost env0 = old(env)@;
    let h = env.new_inner(frame);
    proof {
        assert(env@ =~= env0.push(
            FrameV {
                binding: Map::empty(),
                outer: Some(frame as int),
                level: env0[frame as int].level + 1,
            },
        ));
    }
    let ghost env1 = env@;
    let ghost stmts = crate::ast::block_v(*bs).statements;
    let ghost tg = spec_eval_block_stmts(stmts, env1, env0.len() as int, fuel as nat);
    proof {
        crate::ast::lemma_stmt_seq_v(bs.statements@);
        assert(stmts.skip(0) =~= stmts);
        assert(spec_eval_block_entry(crate::ast::block_v(*bs), env0, frame as int, fuel as nat)
            == tg);
    }
    let mut result: Result<Option<Object>, EvalError> = Ok(None);
    let n = bs.statements.len();
    let mut i: usize = 0;
    while i < n
        invariant
            env_wf(env@),
            env_objs_wf(env@),
            env0 == old(env)@,
            env1.len() == env0.len() + 1,
            env1.len() <= env@.len(),
            h < env1.len(),
            h == env0.len(),
            n == bs.statements@.len(),
            stmts == crate::ast::block_v(*bs).statements,
            stmts.len() == n,
            forall|k: int| 0 <= k < n ==> stmts[k] == crate::ast::stmt_v(bs.statements@[k]),
            tg == spec_eval_block_stmts(stmts, env1, env0.len() as int, fuel as nat),
            tg == spec_eval_block_entry(
                crate::ast::block_v(*bs),
                env0,
                frame as int,
                fuel as nat,
            ),
            0 <= i <= n,
            i < n ==> tg == spec_eval_block_stmts(
                stmts.skip(i as int),
                env@,
                env0.len() as int,
                fuel as nat,
            ),
            i == n ==> tg.res == res_v(result) && tg.env == env@,
            i == n ==> (match result {
                Ok(Some(o)) => obj_wf(o@, env@.len() as nat),
                _ => true,
            }),
        decreases n - i,
    {
        let ghost env_head = env@;
        let ghost cur = spec_eval_block_stmts(
            stmts.skip(i as int),
            env@,
            env0.len() as int,
            fuel as nat,
        );
        proof {
            assert(stmts.skip(i as int)[0] == stmts[i as int]);
            if i + 1 < n {
                assert(stmts.skip(i as int).skip(1) =~= stmts.skip(i + 1 as int));
            }
        }
        let sr = eval_stm(&bs.statements[i], env, h, fuel);
        let ghost o = spec_eval_stmt(stmts[i as int], env_head, env0.len() as int, fuel as nat);
        proof {
            assert(o.res == res_v(sr));
            assert(o.env == env@);
        }
        match sr {
            Err(e) => {
                return Err(e);
            },
            Ok(opt) => {
                match opt {
                    Some(o) => {
                        match o {
                            Object::Return(rt) => {
                                match rt.value {
                                    Some(val) => {
                                        return Ok(Some(*val));
                                    },
                                    None => {
                                        return Ok(None);
                                    },
                                }
                            },
                            other => {
                                result = Ok(Some(other));
                            },
                        }
                    },
                    None => {
                        result = Ok(None);
                    },
                }
            },
        }
        i = i + 1;
    }
    result
}

/// Evaluates one expression against the given frame.
fn eval_exp(exp: &Expression, env: &mut Environment, frame: usize, fuel: u64) -> (r: Result<
    Option<Object>,
    EvalError,
>)
    requires
        env_wf(old(env)@),
        env_objs_wf(old(env)@),
        frame < old(env)@.len(),
    ensures
        env_wf(final(env)@),
        env_objs_wf(final(env)@),
        old(env)@.len() <= final(env)@.len(),
        res_v(r) == spec_eval_exp(exp@, old(env)@, frame as int, fuel as nat).res,
        final(env)@ == spec_eval_exp(exp@, old(env)@, frame as int, fuel as nat).env,
        match r {
            Ok(Some(o)) => obj_wf(o@, final(env)@.len() as nat),
            _ => true,
        },
    decreases fuel, *exp, 1int,
{
    match exp {
        Expression::Identifier(id_exp) => {
            let obj = env.get_clone(frame, &id_exp.value);
            proof {
                lemma_env_get_wf(env@, frame as int, id_exp.value@);
            }
            match obj {
                Some(o) => Ok(Some(o)),
                None => Err(EvalError::IdentifierNotFound(id_exp.value.clone())),
            }
        },
        Expression::IntegerLiteral(lit) => Ok(Some(Object::Int(Int { value: lit.value }))),
        Expression::BooleanLiteral(lit) => Ok(Some(Object::Bool(Bool { value: lit.value }))),
        Expression::StringLiteral(lit) => Ok(
            Some(Object::String(StringObject { value: lit.value.clone() })),
        ),
        Expression::FunctionLiteral(func) => {
            let mut fun = Function {
                identifier: None,
                args: dup_ident_vec(&func.parameters),
                block: func.body.duplicate(),
                env: frame,
            };
            proof {
                assert(fun.args@.map_values(|ii: crate::ast::Identifier| crate::ast::ident_v(ii))
                    =~= func.parameters@.map_values(
                    |ii: crate::ast::Identifier| crate::ast::ident_v(ii),
                ));
            }
            match &func.ident {
                Some(ident) => {
                    fun.identifier = Some(ident.value.clone());
                    let fdup = fun.duplicate();
                    let ghost env1 = env@;
                    let key = ident.value.clone();
                    proof {
                        assert(obj_wf(obj_v(Object::Function(fdup)), env1.len() as nat));
                        lemma_objs_wf_set(env1, frame as int, key@, obj_v(Object::Function(fdup)));
                    }
                    env.set(frame, key, Object::Function(fdup));
                    proof {
                        assert(env@ =~= env_set(
                            env1,
                            frame as int,
                            (*ident)@.value,
                            crate::object::function_v(fun),
                        ));
                    }
                    Ok(Some(Object::Function(fun)))
                },
                None => Ok(Some(Object::Function(fun))),
            }
        },
        Expression::InfixExpression(ie) => eval_infix_exp(ie, env, frame, fuel),
        Expression::PrefixExpression(pe) => eval_prefix_exp(pe, env, frame, fuel),
        Expression::IfExpression(ife) => eval_if_exp(ife, env, frame, fuel),
        Expression::CallExpression(ce) => eval_call_exp(ce, env, frame, fuel),
    }
}

/// Evaluates an infix expression: both sides must resolve to values of the
/// same type, and the operator's meaning depends on that type.
#[verifier::rlimit(100)]
fn eval_infix_exp(ie: &InfixExpression, env: &mut Environment, frame: usize, fuel: u64) -> (r:
    Result<Option<Object>, EvalError>)
    requires
        env_wf(old(env)@),
        env_objs_wf(old(env)@),
        frame < old(env)@.len(),
    ensures
        env_wf(final(env)@),
        env_objs_wf(final(env)@),
        old(env)@.len() <= final(env)@.len(),
        res_v(r) == spec_eval_exp(
            ExpressionV::InfixExpression(crate::ast::infix_v(*ie)),
            old(env)@,
            frame as int,
            fuel as nat,
        ).res,
        final(env)@ == spec_eval_exp(
            ExpressionV::InfixExpression(crate::ast::infix_v(*ie)),
            old(env)@,
            frame as int,
            fuel as nat,
        ).env,
        match r {
            Ok(Some(o)) => obj_wf(o@, final(env)@.len() as nat),
            _ => true,
        },
    decreases fuel, *ie, 0int,
{
    let ghost env0 = old(env)@;
    let ghost tg = spec_eval_exp(
        ExpressionV::InfixExpression(crate::ast::infix_v(*ie)),
        env0,
        frame as int,
        fuel as nat,
    );
    let left_res = eval_exp(&ie.left, env, frame, fuel);
    let ghost lo = spec_eval_exp((*ie.left)@, env0, frame as int, fuel as nat);
    proof {
        assert(lo.res == res_v(left_res));
        assert(lo.env == env@);
    }
    let left = match left_res {
        Err(e) => {
            return Err(e);
        },
        Ok(None) => {
            return Err(EvalError::LeftExpressionIsNone);
        },
        Ok(Some(v)) => v,
    };
    let right_res = eval_exp(&ie.right, env, frame, fuel);
    let ghost ro = spec_eval_exp((*ie.right)@, lo.env, frame as int, fuel as nat);
    proof {
        assert(ro.res == res_v(right_res));
        assert(ro.env == env@);
    }
    let right = match right_res {
        Err(e) => {
            return Err(e);
        },
        Ok(None) => {
            return Err(EvalError::RightExpressionIsNone);
        },
        Ok(Some(v)) => v,
    };
    proof {
        assert(lo.res == Ok::<Option<ObjV>, EvalErrV>(Some(left@)));
        assert(ro.res == Ok::<Option<ObjV>, EvalErrV>(Some(right@)));
    }
    if !crate::object::is_same_type(&left, &right) {
        return Err(EvalError::NotSameType);
    }
    let op = ie.operator.kind;
    proof {
        assert(op == crate::ast::infix_v(*ie).operator.kind);
    }
    match (left, right) {
        (Object::Int(l), Object::Int(rr)) => {
            proof {
                assert(tg.env == env@);
                assert(tg.res == (match spec_infix_int(op, l.value, rr.value) {
                    Ok(v) => Ok::<Option<ObjV>, EvalErrV>(Some(v)),
                    Err(err) => Err(err),
                }));
            }
            match eval_infix_int_exp(l, op, rr) {
                Ok(v) => Ok(Some(v)),
                Err(e) => Err(e),
            }
        },
        (Object::Bool(l), Object::Bool(rr)) => {
            proof {
                assert(tg.env == env@);
                assert(tg.res == (match spec_infix_bool(op, l.value, rr.value) {
                    Ok(v) => Ok::<Option<ObjV>, EvalErrV>(Some(v)),
                    Err(err) => Err(err),
                }));
            }
            match eval_infix_bool_exp(l, op, rr) {
                Ok(v) => Ok(Some(v)),
                Err(e) => Err(e),
            }
        },
        (Object::String(l), Object::String(rr)) => {
            proof {
                assert(tg.env == env@);
                assert(tg.res == (match spec_infix_string(op, l.value@, rr.value@) {
                    Ok(v) => Ok::<Option<ObjV>, EvalErrV>(Some(v)),
                    Err(err) => Err(err),
                }));
            }
            match eval_infix_string_exp(l, op, rr) {
                Ok(v) => Ok(Some(v)),
                Err(e) => Err(e),
            }
        },
        (l, _) => {
            proof {
                assert(tg.env == env@);
                assert(tg.res == Err::<Option<ObjV>, EvalErrV>(
                    EvalErrV::InvalidInfixOperationTarget(obj_type(l@), op),
                ));
            }
            Err(EvalError::InvalidInfixOperationTarget(l.get_type(), op))
        },
    }
}

/// Evaluates a prefix expression.
fn eval_prefix_exp(pe: &PrefixExpression, env: &mut Environment, frame: usize, fuel: u64) -> (r:
    Result<Option<Object>, EvalError>)
    requires
        env_wf(old(env)@),
        env_objs_wf(old(env)@),
        frame < old(env)@.len(),
    ensures
        env_wf(final(env)@),
        env_objs_wf(final(env)@),
        old(env)@.len() <= final(env)@.len(),
        res_v(r) == spec_eval_exp(
            ExpressionV::PrefixExpression(crate::ast::prefix_v(*pe)),
            old(env)@,
            frame as int,
            fuel as nat,
        ).res,
        final(env)@ == spec_eval_exp(
            ExpressionV::PrefixExpression(crate::ast::prefix_v(*pe)),
            old(env)@,
            frame as int,
            fuel as nat,
        ).env,
        match r {
            Ok(Some(o)) => obj_wf(o@, final(env)@.len() as nat),
            _ => true,
        },
    decreases fuel, *pe, 0int,
{
    let operator = pe.token.kind;
    let res = eval_exp(&pe.right, env, frame, fuel);
    let obj = match res {
        Err(e) => {
            return Err(e);
        },
        Ok(None) => {
            return Err(EvalError::EvaluationOfExpressionIsNone(pe.right.duplicate()));
        },
        Ok(Some(v)) => v,
    };
    match obj {
        Object::Int(v) => {
            match eval_prefix_int_exp(operator, v) {
                Ok(r2) => Ok(Some(r2)),
                Err(e) => Err(e),
            }
        },
        Object::Bool(v) => {
            match eval_prefix_bool_exp(operator, v) {
                Ok(r2) => Ok(Some(r2)),
                Err(e) => Err(e),
            }
        },
        other => Err(EvalError::InvalidPrefixOperationTarget(other.get_type(), operator)),
    }
}

/// Evaluates an if expression: the condition must be a boolean; a false
/// condition with no alternative yields no value.
fn eval_if_exp(ife: &IfExpression, env: &mut Environment, frame: usize, fuel: u64) -> (r: Result<
    Option<Object>,
    EvalError,
>)
    requires
        env_wf(old(env)@),
        env_objs_wf(old(env)@),
        frame < old(env)@.len(),
    ensures
        env_wf(final(env)@),
        env_objs_wf(final(env)@),
        old(env)@.len() <= final(env)@.len(),
        res_v(r) == spec_eval_exp(
            ExpressionV::IfExpression(crate::ast::ifexpr_v(*ife)),
            old(env)@,
            frame as int,
            fuel as nat,
        ).res,
        final(env)@ == spec_eval_exp(
            ExpressionV::IfExpression(crate::ast::ifexpr_v(*ife)),
            old(env)@,
            frame as int,
            fuel as nat,
        ).env,
        match r {
            Ok(Some(o)) => obj_wf(o@, final(env)@.len() as nat),
            _ => true,
        },
    decreases fuel, *ife, 0int,
{
    let cond = eval_exp(&ife.condition, env, frame, fuel);
    let obj = match cond {
        Err(e) => {
            return Err(e);
        },
        Ok(None) => {
            return Err(EvalError::ConditionIsNone);
        },
        Ok(Some(v)) => v,
    };
    let flag = match obj {
        Object::Bool(b) => b,
        other => {
            return Err(EvalError::NotABoolean(other));
        },
    };
    if flag.value {
        return eval_block(&ife.consequence, env, frame, fuel);
    }
    match &ife.alternative {
        Some(alt) => eval_block(alt, env, frame, fuel),
        None => Ok(None),
    }
}

/// Evaluates a call expression: the callee must resolve to a closure, the
/// arguments are evaluated eagerly left to right, and the closure is
/// applied.
fn eval_call_exp(ce: &CallExpression, env: &mut Environment, frame: usize, fuel: u64) -> (r:
    Result<Option<Object>, EvalError>)
    requires
        env_wf(old(env)@),
        env_objs_wf(old(env)@),
        frame < old(env)@.len(),
    ensures
        env_wf(final(env)@),
        env_objs_wf(final(env)@),
        old(env)@.len() <= final(env)@.len(),
        res_v(r) == spec_eval_exp(
            ExpressionV::CallExpression(crate::ast::callexpr_v(*ce)),
            old(env)@,
            frame as int,
            fuel as nat,
        ).res,
        final(env)@ == spec_eval_exp(
            ExpressionV::CallExpression(crate::ast::callexpr_v(*ce)),
            old(env)@,
            frame as int,
            fuel as nat,
        ).env,
        match r {
            Ok(Some(o)) => obj_wf(o@, final(env)@.len() as nat),
            _ => true,
        },
    decreases fuel, *ce, 0int,
{
    let func_res = eval_exp(&ce.function, env, frame, fuel);
    let func = match func_res {
        Err(e) => {
            return Err(e);
        },
        Ok(None) => {
            return Err(EvalError::FunctionIsNone);
        },
        Ok(Some(v)) => v,
    };
    match func {
        Object::Function(fun) => {
            let args = match eval_function_parameters(&ce.arguments, env, frame, fuel) {
                Err(e) => {
                    return Err(e);
                },
                Ok(a) => a,
            };
            if fuel == 0 {
                return Err(EvalError::CallDepthLimitExceeded);
            }
            apply_function(fun, args, env, fuel - 1)
        },
        obj => Err(EvalError::NotAFunction(obj)),
    }
}

/// Evaluates each argument expression eagerly, left to right.
#[verifier::rlimit(60)]
fn eval_function_parameters(args: &Vec<Expression>, env: &mut Environment, frame: usize, fuel: u64)
    -> (r: Result<Vec<Object>, EvalError>)
    requires
        env_wf(old(env)@),
        env_objs_wf(old(env)@),
        frame < old(env)@.len(),
    ensures
        env_wf(final(env)@),
        env_objs_wf(final(env)@),
        old(env)@.len() <= final(env)@.len(),
        final(env)@ == spec_eval_args(
            crate::ast::expr_seq_v(args@),
            old(env)@,
            frame as int,
            fuel as nat,
        ).env,
        match r {
            Ok(v) => spec_eval_args(
                crate::ast::expr_seq_v(args@),
                old(env)@,
                frame as int,
                fuel as nat,
            ).res == Ok::<Seq<ObjV>, EvalErrV>(crate::object::obj_seq_v(v@)) && (forall|k: int|
                0 <= k < v@.len() ==> obj_wf(obj_v(#[trigger] v@[k]), final(env)@.len() as nat)),
            Err(e) => spec_eval_args(
                crate::ast::expr_seq_v(args@),
                old(env)@,
                frame as int,
                fuel as nat,
            ).res == Err::<Seq<ObjV>, EvalErrV>(e@),
        },
    decreases fuel, *args, 0int,
{
    let ghost env0 = old(env)@;
    let ghost es = crate::ast::expr_seq_v(args@);
    let ghost tg = spec_eval_args(es, env0, frame as int, fuel as nat);
    proof {
        crate::ast::lemma_expr_seq_v(args@);
        assert(es.skip(0) =~= es);
    }
    let mut result: Vec<Object> = Vec::new();
    let n = args.len();
    let mut i: usize = 0;
    while i < n
        invariant
            env_wf(env@),
            env_objs_wf(env@),
            env0.len() <= env@.len(),
            frame < env@.len(),
            env0 == old(env)@,
            n == args@.len(),
            es == crate::ast::expr_seq_v(args@),
            es.len() == n,
            forall|k: int| 0 <= k < n ==> es[k] == crate::ast::expr_v(args@[k]),
            tg == spec_eval_args(es, env0, frame as int, fuel as nat),
            0 <= i <= n,
            result@.len() == i,
            forall|k: int|
                0 <= k < i ==> obj_wf(obj_v(#[trigger] result@[k]), env@.len() as nat),
            tg.env == spec_eval_args(es.skip(i as int), env@, frame as int, fuel as nat).env,
            tg.res == (match spec_eval_args(es.skip(i as int), env@, frame as int, fuel as nat).res {
                Ok(vs) => Ok(crate::object::obj_seq_v(result@) + vs),
                Err(e) => Err(e),
            }),
        decreases n - i,
    {
        let ghost env_head = env@;
        let ghost cur = spec_eval_args(es.skip(i as int), env@, frame as int, fuel as nat);
        proof {
            assert(es.skip(i as int)[0] == es[i as int]);
            assert(es.skip(i as int).skip(1) =~= es.skip(i + 1 as int));
            crate::object::lemma_obj_seq_v(result@);
        }
        let evaluated = eval_exp(&args[i], env, frame, fuel);
        let ghost o = spec_eval_exp(es[i as int], env_head, frame as int, fuel as nat);
        proof {
            assert(o.res == res_v(evaluated));
            assert(o.env == env@);
        }
        match evaluated {
            Err(e) => {
                return Err(e);
            },
            Ok(None) => {
                return Err(EvalError::EvaluationOfExpressionIsNone(args[i].duplicate()));
            },
            Ok(Some(v)) => {
                let ghost old_result = result@;
                let ghost vv = v@;
                result.push(v);
                proof {
                    crate::object::lemma_obj_seq_v(result@);
                    crate::object::lemma_obj_seq_v(old_result);
                    assert(crate::object::obj_seq_v(result@) =~= crate::object::obj_seq_v(
                        old_result,
                    ).push(vv));
                    let rest_next = spec_eval_args(
                        es.skip(i + 1 as int),
                        env@,
                        frame as int,
                        fuel as nat,
                    );
                    match rest_next.res {
                        Ok(vs) => {
                            assert(crate::object::obj_seq_v(old_result) + (seq![vv] + vs)
                                =~= crate::object::obj_seq_v(result@) + vs);
                        },
                        Err(e) => {},
                    }
                    assert forall|k: int| 0 <= k < result@.len() implies obj_wf(
                        obj_v(#[trigger] result@[k]),
                        env@.len() as nat,
                    ) by {
                        if k < old_result.len() {
                            crate::object::environment::lemma_obj_wf_grow(
                                obj_v(old_result[k]),
                                env_head.len() as nat,
                                env@.len() as nat,
                            );
                        }
                    }
                }
            },
        }
        i = i + 1;
    }
    proof {
        assert(es.skip(n as int).len() == 0);
        assert(crate::object::obj_seq_v(result@) + Seq::<ObjV>::empty() =~= crate::object::obj_seq_v(
            result@,
        ));
    }
    Ok(result)
}

/// Applies a closure to already evaluated arguments.
fn apply_function(fun: Function, args: Vec<Object>, env: &mut Environment, fuel: u64) -> (r:
    Result<Option<Object>, EvalError>)
    requires
        env_wf(old(env)@),
        env_objs_wf(old(env)@),
        forall|k: int|
            0 <= k < args@.len() ==> obj_wf(obj_v(#[trigger] args@[k]), old(env)@.len() as nat),
    ensures
        env_wf(final(env)@),
        env_objs_wf(final(env)@),
        old(env)@.len() <= final(env)@.len(),
        res_v(r) == spec_apply_function(
            fun.args@.map_values(|ii: crate::ast::Identifier| crate::ast::ident_v(ii)),
            crate::ast::block_v(fun.block),
            fun.env as int,
            crate::object::obj_seq_v(args@),
            old(env)@,
            fuel as nat,
        ).res,
        final(env)@ == spec_apply_function(
            fun.args@.map_values(|ii: crate::ast::Identifier| crate::ast::ident_v(ii)),
            crate::ast::block_v(fun.block),
            fun.env as int,
            crate::object::obj_seq_v(args@),
            old(env)@,
            fuel as nat,
        ).env,
        match r {
            Ok(Some(o)) => obj_wf(o@, final(env)@.len() as nat),
            _ => true,
        },
    decreases fuel, fun.block, 1int,
{
    proof {
        crate::object::lemma_obj_seq_v(args@);
    }
    if args.len() != fun.args.len() {
        return Err(
            EvalError::FunctionArgLengthNotMatched(
                ArgumentsLength { function_args: fun.args.len(), called_with: args.len() },
            ),
        );
    }
    let h = match extend_function_env(&fun, &args, env) {
        Err(e) => {
            return Err(e);
        },
        Ok(h) => h,
    };
    let evaluated = eval_block(&fun.block, env, h, fuel);
    match evaluated {
        Err(e) => Err(e),
        Ok(opt) => Ok(unwrap_return_value(opt)),
    }
}

/// Creates the frame a call runs in: a fresh child of the closure's
/// captured frame, binding each parameter name to the corresponding
/// argument value.
fn extend_function_env(fun: &Function, args: &Vec<Object>, env: &mut Environment) -> (r: Result<
    usize,
    EvalError,
>)
    requires
        env_wf(old(env)@),
        env_objs_wf(old(env)@),
        fun.args@.len() == args@.len(),
        forall|k: int|
            0 <= k < args@.len() ==> obj_wf(obj_v(#[trigger] args@[k]), old(env)@.len() as nat),
    ensures
        env_wf(final(env)@),
        env_objs_wf(final(env)@),
        old(env)@.len() <= final(env)@.len(),
        match r {
            Ok(h) => {
                &&& (fun.env as int) < old(env)@.len()
                &&& h == old(env)@.len()
                &&& final(env)@ == old(env)@.push(
                    FrameV {
                        binding: spec_bind_args(
                            fun.args@.map_values(|ii: crate::ast::Identifier| crate::ast::ident_v(ii))
                                .map_values(|iv: crate::ast::IdentifierV| iv.value),
                            crate::object::obj_seq_v(args@),
                        ),
                        outer: Some(fun.env as int),
                        level: old(env)@[fun.env as int].level + 1,
                    },
                )
            },
            Err(e) => {
                &&& e == EvalError::EnvironmentHasDropped
                &&& (fun.env as int) >= old(env)@.len()
                &&& final(env)@ == old(env)@
            },
        },
{
    let ghost env0 = old(env)@;
    if fun.env >= env.frames.len() {
        proof {
            assert(env0.len() == env.frames@.len());
        }
        return Err(EvalError::EnvironmentHasDropped);
    }
    proof {
        assert(env0.len() == env.frames@.len());
    }
    let h = env.new_inner(fun.env);
    let ghost names = fun.args@.map_values(|ii: crate::ast::Identifier| crate::ast::ident_v(ii))
        .map_values(|iv: crate::ast::IdentifierV| iv.value);
    let ghost argvs = crate::object::obj_seq_v(args@);
    proof {
        crate::object::lemma_obj_seq_v(args@);
        assert(spec_bind_args(names.take(0), argvs.take(0)) =~= Map::<Seq<char>, ObjV>::empty());
        assert(env@ =~= env0.push(
            FrameV {
                binding: spec_bind_args(names.take(0), argvs.take(0)),
                outer: Some(fun.env as int),
                level: env0[fun.env as int].level + 1,
            },
        ));
    }
    let n = fun.args.len();
    let mut i: usize = 0;
    while i < n
        invariant
            env_wf(env@),
            env_objs_wf(env@),
            n == fun.args@.len(),
            n == args@.len(),
            names.len() == n,
            argvs.len() == n,
            forall|k: int| 0 <= k < n ==> names[k] == fun.args@[k]@.value,
            forall|k: int| 0 <= k < n ==> argvs[k] == obj_v(args@[k]),
            forall|k: int|
                0 <= k < args@.len() ==> obj_wf(obj_v(#[trigger] args@[k]), env0.len() as nat),
            h == env0.len(),
            env@.len() == env0.len() + 1,
            (fun.env as int) < env0.len(),
            0 <= i <= n,
            env@ == env0.push(
                FrameV {
                    binding: spec_bind_args(names.take(i as int), argvs.take(i as int)),
                    outer: Some(fun.env as int),
                    level: env0[fun.env as int].level + 1,
                },
            ),
        decreases n - i,
    {
        let ghost envi = env@;
        let key = fun.args[i].value.clone();
        let val = args[i].duplicate();
        proof {
            crate::object::environment::lemma_obj_wf_grow(
                obj_v(args@[i as int]),
                env0.len() as nat,
                env@.len() as nat,
            );
            lemma_objs_wf_set(envi, h as int, key@, obj_v(args@[i as int]));
        }
        env.set(h, key, val);
        proof {
            assert(names.take(i + 1 as int).drop_last() =~= names.take(i as int));
            assert(argvs.take(i + 1 as int).drop_last() =~= argvs.take(i as int));
            assert(names.take(i + 1 as int).last() == names[i as int]);
            assert(argvs.take(i + 1 as int).last() == argvs[i as int]);
            assert(spec_bind_args(names.take(i + 1 as int), argvs.take(i + 1 as int))
                == spec_bind_args(names.take(i as int), argvs.take(i as int)).insert(
                names[i as int],
                argvs[i as int],
            ));
            assert(env@ =~= env0.push(
                FrameV {
                    binding: spec_bind_args(names.take(i + 1 as int), argvs.take(i + 1 as int)),
                    outer: Some(fun.env as int),
                    level: env0[fun.env as int].level + 1,
                },
            ));
        }
        i = i + 1;
    }
    proof {
        assert(names.take(n as int) =~= names);
        assert(argvs.take(n as int) =~= argvs);
    }
    Ok(h)
}

} // verus!
