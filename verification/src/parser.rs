//! The Pratt parser: top-down operator precedence over a two-token window.
//!
//! The parser first runs the lexer to the end of the input, holding the
//! token stream with the lexer positions each token was produced at, and
//! then drives a current/next window over it. Every parsing routine is
//! proved to terminate, to consume tokens monotonically, and — where it
//! succeeds — to produce a well-formed tree: operator tokens stored in
//! infix and prefix nodes are always among the operators allowed there
//! (see [`crate::ast::wf_stmt`] and [`crate::ast::wf_expr`]).

use vstd::prelude::*;
use crate::ast::{BlockStatement, BooleanLiteral, CallExpression, Expression, ExpressionStatement,
    FunctionLiteral, Identifier, IfExpression, InfixExpression, IntegerLiteral, LetStatement,
    PrefixExpression, Program, ReturnStatement, Statement, StringLiteral};
use crate::ast::{StatementV, ExpressionV, LetStatementV, ReturnStatementV, ExpressionStatementV,
    BlockStatementV};
use crate::ast::{wf_expr, wf_stmt, wf_stmt_seq, wf_expr_seq, is_infix_op, is_prefix_op,
    lemma_stmt_seq_v, lemma_expr_seq_v, lemma_wf_stmt_seq_push, lemma_wf_expr_seq_push,
    stmt_seq_v, expr_seq_v, stmt_v, expr_v};
use crate::lexer::{Lexer, Position, lexer_wf, lemma_lexer_wf_bounds, lemma_next_token_bounds,
    spec_token_stream, parse_i64_digits, spec_digits_val, all_digits};
use crate::token::{Kind, Token, TokenModel, spec_kind_str};
use crate::str_eq;
use self::errors::{ParserError, ParseError, PrefixFunctionError, PrefixFunctionErrorKind,
    InfixFunctionError, InfixFunctionErrorKind, ParserErrorEntry};

pub mod errors;

verus! {

/// The precedence ladder, lowest to highest.
#[derive(Debug, Clone, Copy, PartialEq, Eq, Structural)]
pub enum Precedence {
    Lowest,
    Or,
    And,
    BitOr,
    BitAnd,
    Equals,
    Cmp,
    Sum,
    Product,
    Prefix,
    Call,
}

/// Numeric level of a precedence, for comparisons.
pub open spec fn spec_prec_level(p: Precedence) -> int {
    match p {
        Precedence::Lowest => 0,
        Precedence::Or => 1,
        Precedence::And => 2,
        Precedence::BitOr => 3,
        Precedence::BitAnd => 4,
        Precedence::Equals => 5,
        Precedence::Cmp => 6,
        Precedence::Sum => 7,
        Precedence::Product => 8,
        Precedence::Prefix => 9,
        Precedence::Call => 10,
    }
}

fn prec_level(p: Precedence) -> (r: u32)
    ensures
        r as int == spec_prec_level(p),
{
    match p {
        Precedence::Lowest => 0,
        Precedence::Or => 1,
        Precedence::And => 2,
        Precedence::BitOr => 3,
        Precedence::BitAnd => 4,
        Precedence::Equals => 5,
        Precedence::Cmp => 6,
        Precedence::Sum => 7,
        Precedence::Product => 8,
        Precedence::Prefix => 9,
        Precedence::Call => 10,
    }
}

/// The precedence a token kind binds with; `Lowest` for non-operators.
pub open spec fn spec_find_precedences(kind: Kind) -> Precedence {
    match kind {
        Kind::Or => Precedence::Or,
        Kind::And => Precedence::And,
        Kind::Bit_Or => Precedence::BitOr,
        Kind::Bit_And => Precedence::BitAnd,
        Kind::EQ => Precedence::Equals,
        Kind::NOT_EQ => Precedence::Equals,
        Kind::LT => Precedence::Cmp,
        Kind::LT_OR_EQ => Precedence::Cmp,
        Kind::GT => Precedence::Cmp,
        Kind::GT_OR_EQ => Precedence::Cmp,
        Kind::Plus => Precedence::Sum,
        Kind::Minus => Precedence::Sum,
        Kind::Product => Precedence::Product,
        Kind::Divide => Precedence::Product,
        Kind::Mod => Precedence::Product,
        Kind::LPAREN => Precedence::Call,
        _ => Precedence::Lowest,
    }
}

fn find_precedences(kind: Kind) -> (r: Precedence)
    ensures
        r == spec_find_precedences(kind),
{
    match kind {
        Kind::Or => Precedence::Or,
        Kind::And => Precedence::And,
        Kind::Bit_Or => Precedence::BitOr,
        Kind::Bit_And => Precedence::BitAnd,
        Kind::EQ | Kind::NOT_EQ => Precedence::Equals,
        Kind::LT | Kind::LT_OR_EQ | Kind::GT | Kind::GT_OR_EQ => Precedence::Cmp,
        Kind::Plus | Kind::Minus => Precedence::Sum,
        Kind::Product | Kind::Divide | Kind::Mod => Precedence::Product,
        Kind::LPAREN => Precedence::Call,
        _ => Precedence::Lowest,
    }
}

/// Whether a token kind may continue an expression: the binary operators,
/// plus `(`, which opens a call.
pub open spec fn spec_is_infix(kind: Kind) -> bool {
    is_infix_op(kind) || kind == Kind::LPAREN
}

fn is_infix(kind: &Kind) -> (r: bool)
    ensures
        r == spec_is_infix(*kind),
{
    match kind {
        Kind::Plus
        | Kind::Minus
        | Kind::Divide
        | Kind::Product
        | Kind::Mod
        | Kind::EQ
        | Kind::NOT_EQ
        | Kind::LT
        | Kind::LT_OR_EQ
        | Kind::GT
        | Kind::GT_OR_EQ
        | Kind::Bit_Or
        | Kind::Bit_And
        | Kind::Or
        | Kind::And
        | Kind::LPAREN => true,
        _ => false,
    }
}

// ------------------------------------------------------------------
// The specification parser: a mathematical Pratt parser over the token
// stream. Each function takes the stream and the index of the current
// token and returns the parsed node — `None` where parsing fails — and
// the index the window stands at afterwards. The executable routines
// below are proved to return exactly what these functions describe.
//
// The functions are total: on streams the executable parser can never
// hold (an end-of-input token out of place), index guards stop the
// recursion with a failure. On the parser's own stream the guards never
// fire, which the equivalence proofs show case by case.
// ------------------------------------------------------------------

/// The identifier models of a parsed parameter list.
pub open spec fn idents_v(v: Seq<Identifier>) -> Seq<crate::ast::IdentifierV> {
    v.map_values(|ii: Identifier| crate::ast::ident_v(ii))
}

/// The token at `i`; past the stream's end, the end-of-input token.
pub open spec fn sp_cur(toks: Seq<TokenModel>, i: int) -> TokenModel {
    if 0 <= i < toks.len() {
        toks[i]
    } else {
        TokenModel { kind: Kind::EOF, literal: spec_kind_str(Kind::EOF) }
    }
}

/// One window shift: the index moves forward unless it already stands on
/// the last token.
pub open spec fn sp_step(toks: Seq<TokenModel>, i: int) -> int {
    if i + 1 < toks.len() {
        i + 1
    } else {
        i
    }
}

/// The token after the window (the last token repeats).
pub open spec fn sp_peek(toks: Seq<TokenModel>, i: int) -> TokenModel {
    sp_cur(toks, sp_step(toks, i))
}

/// Shifting the window where the next token is of the expected kind:
/// whether it was, and the index afterwards.
pub open spec fn sp_expect(toks: Seq<TokenModel>, i: int, k: Kind) -> (bool, int) {
    if sp_peek(toks, i).kind == k {
        (true, sp_step(toks, i))
    } else {
        (false, i)
    }
}

/// Parsing the whole stream from `i`: statements in order until the
/// end-of-input token, stray separators skipped; the parse fails when any
/// statement fails, but still walks the rest.
pub open spec fn spec_parse_program(toks: Seq<TokenModel>, i: int) -> (
    Option<Seq<StatementV>>,
    int,
)
    decreases toks.len() - i, 10int,
{
    if sp_cur(toks, i).kind == Kind::EOF {
        (Some(Seq::empty()), i)
    } else if sp_cur(toks, i).kind == Kind::Semicolon {
        let k = sp_step(toks, i);
        if i < k < toks.len() {
            spec_parse_program(toks, k)
        } else {
            (None, k)
        }
    } else {
        let st = spec_parse_statement(toks, i);
        let k = sp_step(toks, st.1);
        if i < k < toks.len() {
            let rest = spec_parse_program(toks, k);
            match (st.0, rest.0) {
                (Some(s), Some(r)) => (Some(seq![s] + r), rest.1),
                _ => (None, rest.1),
            }
        } else {
            (None, k)
        }
    }
}

/// Parsing one statement, dispatched on the current token.
pub open spec fn spec_parse_statement(toks: Seq<TokenModel>, i: int) -> (Option<StatementV>, int)
    decreases toks.len() - i, 7int,
{
    if sp_cur(toks, i).kind == Kind::Let {
        let r = spec_parse_let_statement(toks, i);
        (
            match r.0 {
                Some(ls) => Some(StatementV::LetStatement(ls)),
                None => None,
            },
            r.1,
        )
    } else if sp_cur(toks, i).kind == Kind::Return {
        let r = spec_parse_return_statement(toks, i);
        (
            match r.0 {
                Some(rs) => Some(StatementV::ReturnStatement(rs)),
                None => None,
            },
            r.1,
        )
    } else {
        let r = spec_parse_expression_statement(toks, i);
        (
            match r.0 {
                Some(es) => Some(StatementV::ExpressionStatement(es)),
                None => None,
            },
            r.1,
        )
    }
}

/// Parsing `let <Ident> [= <expression>] [;]`.
pub open spec fn spec_parse_let_statement(toks: Seq<TokenModel>, i: int) -> (
    Option<LetStatementV>,
    int,
)
    decreases toks.len() - i, 6int,
{
    let t0 = sp_cur(toks, i);
    if sp_peek(toks, i).kind != Kind::Ident {
        (None, i)
    } else {
        let j = sp_step(toks, i);
        let ident = crate::ast::IdentifierV {
            token: sp_cur(toks, j),
            value: sp_cur(toks, j).literal,
        };
        if sp_peek(toks, j).kind == Kind::Assign {
            let j2 = sp_step(toks, sp_step(toks, j));
            if i <= j2 <= toks.len() {
                let e = spec_parse_expression(toks, j2, 0);
                match e.0 {
                    None => (None, e.1),
                    Some(ev) => {
                        let fin = if sp_peek(toks, e.1).kind == Kind::Semicolon {
                            sp_step(toks, e.1)
                        } else {
                            e.1
                        };
                        (
                            Some(
                                LetStatementV { token: t0, identifier: ident, value: Some(ev) },
                            ),
                            fin,
                        )
                    },
                }
            } else {
                (None, j2)
            }
        } else {
            let fin = if sp_peek(toks, j).kind == Kind::Semicolon {
                sp_step(toks, j)
            } else {
                j
            };
            (Some(LetStatementV { token: t0, identifier: ident, value: None }), fin)
        }
    }
}

/// Parsing `return [<expression>] [;]`.
pub open spec fn spec_parse_return_statement(toks: Seq<TokenModel>, i: int) -> (
    Option<ReturnStatementV>,
    int,
)
    decreases toks.len() - i, 6int,
{
    let t0 = sp_cur(toks, i);
    if sp_peek(toks, i).kind != Kind::Semicolon {
        let j = sp_step(toks, i);
        if i <= j <= toks.len() {
            let e = spec_parse_expression(toks, j, 0);
            match e.0 {
                None => (None, e.1),
                Some(ev) => {
                    let fin = if sp_peek(toks, e.1).kind == Kind::Semicolon {
                        sp_step(toks, e.1)
                    } else {
                        e.1
                    };
                    (Some(ReturnStatementV { token: t0, value: Some(ev) }), fin)
                },
            }
        } else {
            (None, j)
        }
    } else {
        (Some(ReturnStatementV { token: t0, value: None }), sp_step(toks, i))
    }
}

/// Parsing an expression statement.
pub open spec fn spec_parse_expression_statement(toks: Seq<TokenModel>, i: int) -> (
    Option<ExpressionStatementV>,
    int,
)
    decreases toks.len() - i, 6int,
{
    let t0 = sp_cur(toks, i);
    let e = spec_parse_expression(toks, i, 0);
    match e.0 {
        None => (None, e.1),
        Some(ev) => (
            Some(ExpressionStatementV { token: t0, expression: Some(ev) }),
            e.1,
        ),
    }
}

/// Parsing `{ <statements> }`, the window standing on `{`.
pub open spec fn spec_parse_block_statement(toks: Seq<TokenModel>, i: int) -> (
    Option<BlockStatementV>,
    int,
)
    decreases toks.len() - i, 9int,
{
    let t0 = sp_cur(toks, i);
    if t0.kind != Kind::LBRACE {
        (None, i)
    } else {
        let k = sp_step(toks, i);
        if i <= k <= toks.len() {
            let r = spec_parse_block_stmts(toks, k);
            match r.0 {
                None => (None, r.1),
                Some(ss) => if sp_cur(toks, r.1).kind == Kind::RBRACE {
                    (Some(BlockStatementV { token: t0, statements: ss }), r.1)
                } else {
                    (None, r.1)
                },
            }
        } else {
            (None, k)
        }
    }
}

/// The statements of a block, until `}` or the end of the input; stray
/// separators skipped.
pub open spec fn spec_parse_block_stmts(toks: Seq<TokenModel>, i: int) -> (
    Option<Seq<StatementV>>,
    int,
)
    decreases toks.len() - i, 8int,
{
    let c = sp_cur(toks, i).kind;
    if c == Kind::RBRACE || c == Kind::EOF {
        (Some(Seq::empty()), i)
    } else if c == Kind::Semicolon {
        let k = sp_step(toks, i);
        if i < k < toks.len() {
            spec_parse_block_stmts(toks, k)
        } else {
            (None, k)
        }
    } else {
        let st = spec_parse_statement(toks, i);
        match st.0 {
            None => (None, st.1),
            Some(s) => {
                let k = sp_step(toks, st.1);
                if i < k < toks.len() {
                    let rest = spec_parse_block_stmts(toks, k);
                    match rest.0 {
                        None => (None, rest.1),
                        Some(r) => (Some(seq![s] + r), rest.1),
                    }
                } else {
                    (None, k)
                }
            },
        }
    }
}

/// The Pratt core: a prefix head, then operators binding tighter than
/// `minprec`.
pub open spec fn spec_parse_expression(toks: Seq<TokenModel>, i: int, minprec: int) -> (
    Option<ExpressionV>,
    int,
)
    decreases toks.len() - i, 5int,
{
    let p = spec_parse_prefix(toks, i);
    match p.0 {
        None => (None, p.1),
        Some(e0) => if i <= p.1 <= toks.len() {
            spec_parse_expr_tail(toks, p.1, e0, minprec)
        } else {
            (None, p.1)
        },
    }
}

/// The operator loop of the Pratt core: while the next token is a binary
/// operator binding tighter than `minprec`, fold it into the left side.
pub open spec fn spec_parse_expr_tail(
    toks: Seq<TokenModel>,
    i: int,
    left: ExpressionV,
    minprec: int,
) -> (Option<ExpressionV>, int)
    decreases toks.len() - i, 4int,
{
    let pk = sp_peek(toks, i);
    if pk.kind == Kind::Semicolon || !(minprec < spec_prec_level(spec_find_precedences(pk.kind))) {
        (Some(left), i)
    } else if !spec_is_infix(pk.kind) {
        (Some(left), i)
    } else {
        let k = sp_step(toks, i);
        if i < k < toks.len() {
            let r = spec_parse_infix(toks, k, left);
            match r.0 {
                None => (None, r.1),
                Some(l2) => {
                    let k2 = if k <= r.1 < toks.len() {
                        r.1
                    } else {
                        k
                    };
                    spec_parse_expr_tail(toks, k2, l2, minprec)
                },
            }
        } else {
            (None, i)
        }
    }
}

/// One infix step: a binary operator applied to the left side, or a call
/// where the window stands on `(`.
pub open spec fn spec_parse_infix(toks: Seq<TokenModel>, i: int, left: ExpressionV) -> (
    Option<ExpressionV>,
    int,
)
    decreases toks.len() - i, 7int,
{
    let t0 = sp_cur(toks, i);
    if t0.kind != Kind::LPAREN {
        let cp = spec_prec_level(spec_find_precedences(t0.kind));
        let k = sp_step(toks, i);
        if i <= k <= toks.len() {
            let r = spec_parse_expression(toks, k, cp);
            match r.0 {
                None => (None, r.1),
                Some(rv) => (
                    Some(
                        ExpressionV::InfixExpression(
                            crate::ast::InfixExpressionV {
                                token: t0,
                                left: Box::new(left),
                                operator: t0,
                                right: Box::new(rv),
                            },
                        ),
                    ),
                    r.1,
                ),
            }
        } else {
            (None, k)
        }
    } else {
        let r = spec_parse_call_expression(toks, i, left);
        (
            match r.0 {
                Some(ce) => Some(ExpressionV::CallExpression(ce)),
                None => None,
            },
            r.1,
        )
    }
}

/// A call: the already parsed callee and a parenthesised argument list.
pub open spec fn spec_parse_call_expression(
    toks: Seq<TokenModel>,
    i: int,
    function: ExpressionV,
) -> (Option<crate::ast::CallExpressionV>, int)
    decreases toks.len() - i, 6int,
{
    let t0 = sp_cur(toks, i);
    let r = spec_parse_call_args(toks, i);
    match r.0 {
        None => (None, r.1),
        Some(args) => (
            Some(
                crate::ast::CallExpressionV {
                    token: t0,
                    function: Box::new(function),
                    arguments: args,
                },
            ),
            r.1,
        ),
    }
}

/// A comma-separated argument list, the window standing on `(`; ends on
/// the matching `)`.
pub open spec fn spec_parse_call_args(toks: Seq<TokenModel>, i: int) -> (
    Option<Seq<ExpressionV>>,
    int,
)
    decreases toks.len() - i, 5int,
{
    if sp_peek(toks, i).kind == Kind::RPAREN {
        (Some(Seq::empty()), sp_step(toks, i))
    } else {
        let k = sp_step(toks, i);
        if i < k < toks.len() {
            let e = spec_parse_expression(toks, k, 0);
            match e.0 {
                None => (None, e.1),
                Some(ev) => {
                    let k2 = if k <= e.1 <= toks.len() {
                        e.1
                    } else {
                        k
                    };
                    let rest = spec_parse_args_tail(toks, k2);
                    match rest.0 {
                        None => (None, rest.1),
                        Some(r) => {
                            let x = sp_expect(toks, rest.1, Kind::RPAREN);
                            if x.0 {
                                (Some(seq![ev] + r), x.1)
                            } else {
                                (None, rest.1)
                            }
                        },
                    }
                },
            }
        } else {
            (None, i)
        }
    }
}

/// Further `, <expression>` arguments.
pub open spec fn spec_parse_args_tail(toks: Seq<TokenModel>, i: int) -> (
    Option<Seq<ExpressionV>>,
    int,
)
    decreases toks.len() - i, 4int,
{
    if sp_peek(toks, i).kind != Kind::Comma {
        (Some(Seq::empty()), i)
    } else {
        let j1 = sp_step(toks, i);
        if i < j1 < toks.len() {
            let j2 = sp_step(toks, j1);
            let e = spec_parse_expression(toks, j2, 0);
            match e.0 {
                None => (None, e.1),
                Some(ev) => {
                    let k2 = if j1 < e.1 < toks.len() {
                        e.1
                    } else {
                        j2
                    };
                    let rest = spec_parse_args_tail(toks, k2);
                    match rest.0 {
                        None => (None, rest.1),
                        Some(r) => (Some(seq![ev] + r), rest.1),
                    }
                },
            }
        } else {
            (None, i)
        }
    }
}

/// The prefix dispatch of the Pratt core.
pub open spec fn spec_parse_prefix(toks: Seq<TokenModel>, i: int) -> (Option<ExpressionV>, int)
    decreases toks.len() - i, 4int,
{
    let t0 = sp_cur(toks, i);
    if t0.kind == Kind::Ident {
        (
            Some(
                ExpressionV::Identifier(
                    crate::ast::IdentifierV { token: t0, value: t0.literal },
                ),
            ),
            i,
        )
    } else if t0.kind == Kind::Int {
        if t0.literal.len() > 0 && all_digits(t0.literal) && spec_digits_val(t0.literal)
            <= i64::MAX {
            (
                Some(
                    ExpressionV::IntegerLiteral(
                        crate::ast::IntegerLiteralV {
                            token: t0,
                            value: spec_digits_val(t0.literal) as i64,
                        },
                    ),
                ),
                i,
            )
        } else {
            (None, i)
        }
    } else if t0.kind == Kind::String {
        (
            Some(
                ExpressionV::StringLiteral(
                    crate::ast::StringLiteralV { token: t0, value: t0.literal },
                ),
            ),
            i,
        )
    } else if t0.kind == Kind::LPAREN {
        spec_parse_group_expression(toks, i)
    } else if t0.kind == Kind::Bang || t0.kind == Kind::Minus {
        spec_parse_prefix_expression(toks, i)
    } else if t0.kind == Kind::True || t0.kind == Kind::False {
        (
            Some(
                ExpressionV::BooleanLiteral(
                    crate::ast::BooleanLiteralV { token: t0, value: t0.literal == "true"@ },
                ),
            ),
            i,
        )
    } else if t0.kind == Kind::If {
        let r = spec_parse_if_expression(toks, i);
        (
            match r.0 {
                Some(ife) => Some(ExpressionV::IfExpression(ife)),
                None => None,
            },
            r.1,
        )
    } else if t0.kind == Kind::Function {
        let r = spec_parse_function_literal(toks, i);
        (
            match r.0 {
                Some(fl) => Some(ExpressionV::FunctionLiteral(fl)),
                None => None,
            },
            r.1,
        )
    } else {
        (None, i)
    }
}

/// A parenthesised group: the inner expression at lowest precedence, then
/// the matching `)`.
pub open spec fn spec_parse_group_expression(toks: Seq<TokenModel>, i: int) -> (
    Option<ExpressionV>,
    int,
)
    decreases toks.len() - i, 3int,
{
    let j = sp_step(toks, i);
    if i < j < toks.len() {
        let e = spec_parse_expression(toks, j, 0);
        match e.0 {
            None => (None, e.1),
            Some(ev) => if sp_peek(toks, e.1).kind == Kind::RPAREN {
                (Some(ev), sp_step(toks, e.1))
            } else {
                (None, e.1)
            },
        }
    } else {
        (None, j)
    }
}

/// A prefix operator applied to its operand.
pub open spec fn spec_parse_prefix_expression(toks: Seq<TokenModel>, i: int) -> (
    Option<ExpressionV>,
    int,
)
    decreases toks.len() - i, 3int,
{
    let t0 = sp_cur(toks, i);
    let j = sp_step(toks, i);
    if i < j < toks.len() {
        let e = spec_parse_expression(toks, j, 9);
        match e.0 {
            None => (None, e.1),
            Some(ev) => (
                Some(
                    ExpressionV::PrefixExpression(
                        crate::ast::PrefixExpressionV { token: t0, right: Box::new(ev) },
                    ),
                ),
                e.1,
            ),
        }
    } else {
        (None, j)
    }
}

/// `if ( <condition> ) { <consequence> } [else { <alternative> }]`.
pub open spec fn spec_parse_if_expression(toks: Seq<TokenModel>, i: int) -> (
    Option<crate::ast::IfExpressionV>,
    int,
)
    decreases toks.len() - i, 3int,
{
    let t0 = sp_cur(toks, i);
    let x1 = sp_expect(toks, i, Kind::LPAREN);
    if !x1.0 {
        (None, i)
    } else {
        let j = sp_step(toks, x1.1);
        if i < j < toks.len() {
            let c = spec_parse_expression(toks, j, 0);
            match c.0 {
                None => (None, c.1),
                Some(cv) => {
                    let x2 = sp_expect(toks, c.1, Kind::RPAREN);
                    if !x2.0 {
                        (None, c.1)
                    } else {
                        let x3 = sp_expect(toks, x2.1, Kind::LBRACE);
                        if !x3.0 {
                            (None, x2.1)
                        } else if i < x3.1 < toks.len() {
                            let cons = spec_parse_block_statement(toks, x3.1);
                            match cons.0 {
                                None => (None, cons.1),
                                Some(consv) => {
                                    let xe = sp_expect(toks, cons.1, Kind::Else);
                                    if xe.0 {
                                        let xb = sp_expect(toks, xe.1, Kind::LBRACE);
                                        if !xb.0 {
                                            (None, xe.1)
                                        } else if i < xb.1 < toks.len() {
                                            let alt = spec_parse_block_statement(toks, xb.1);
                                            match alt.0 {
                                                None => (None, alt.1),
                                                Some(altv) => (
                                                    Some(
                                                        crate::ast::IfExpressionV {
                                                            token: t0,
                                                            condition: Box::new(cv),
                                                            consequence: consv,
                                                            alternative: Some(altv),
                                                        },
                                                    ),
                                                    alt.1,
                                                ),
                                            }
                                        } else {
                                            (None, xb.1)
                                        }
                                    } else {
                                        (
                                            Some(
                                                crate::ast::IfExpressionV {
                                                    token: t0,
                                                    condition: Box::new(cv),
                                                    consequence: consv,
                                                    alternative: None,
                                                },
                                            ),
                                            cons.1,
                                        )
                                    }
                                },
                            }
                        } else {
                            (None, x3.1)
                        }
                    }
                },
            }
        } else {
            (None, j)
        }
    }
}

/// `fn [<Ident>] ( <params> ) { <body> }`.
pub open spec fn spec_parse_function_literal(toks: Seq<TokenModel>, i: int) -> (
    Option<crate::ast::FunctionLiteralV>,
    int,
)
    decreases toks.len() - i, 3int,
{
    let t0 = sp_cur(toks, i);
    let xi = sp_expect(toks, i, Kind::Ident);
    let identv = if xi.0 {
        Some(
            crate::ast::IdentifierV {
                token: sp_cur(toks, xi.1),
                value: sp_cur(toks, xi.1).literal,
            },
        )
    } else {
        None
    };
    let xl = sp_expect(toks, xi.1, Kind::LPAREN);
    if !xl.0 {
        (None, xi.1)
    } else if i <= xl.1 <= toks.len() {
        let ps = spec_parse_function_parameters(toks, xl.1);
        match ps.0 {
            None => (None, ps.1),
            Some(psv) => {
                let xb = sp_expect(toks, ps.1, Kind::LBRACE);
                if !xb.0 {
                    (None, ps.1)
                } else if i < xb.1 < toks.len() {
                    let body = spec_parse_block_statement(toks, xb.1);
                    match body.0 {
                        None => (None, body.1),
                        Some(bv) => (
                            Some(
                                crate::ast::FunctionLiteralV {
                                    token: t0,
                                    ident: identv,
                                    parameters: psv,
                                    body: bv,
                                },
                            ),
                            body.1,
                        ),
                    }
                } else {
                    (None, xb.1)
                }
            },
        }
    } else {
        (None, xl.1)
    }
}

/// The parameter list of a function literal, the window standing on `(`.
pub open spec fn spec_parse_function_parameters(toks: Seq<TokenModel>, i: int) -> (
    Option<Seq<crate::ast::IdentifierV>>,
    int,
)
    decreases toks.len() - i, 2int,
{
    if sp_peek(toks, i).kind == Kind::RPAREN {
        (Some(Seq::empty()), sp_step(toks, i))
    } else {
        let x = sp_expect(toks, i, Kind::Ident);
        if !x.0 {
            (None, i)
        } else {
            let id0 = crate::ast::IdentifierV {
                token: sp_cur(toks, x.1),
                value: sp_cur(toks, x.1).literal,
            };
            if i <= x.1 <= toks.len() {
                let rest = spec_parse_params_tail(toks, x.1);
                match rest.0 {
                    None => (None, rest.1),
                    Some(r) => {
                        let xr = sp_expect(toks, rest.1, Kind::RPAREN);
                        if xr.0 {
                            (Some(seq![id0] + r), xr.1)
                        } else {
                            (None, rest.1)
                        }
                    },
                }
            } else {
                (None, x.1)
            }
        }
    }
}

/// Further `, <Ident>` parameters.
pub open spec fn spec_parse_params_tail(toks: Seq<TokenModel>, i: int) -> (
    Option<Seq<crate::ast::IdentifierV>>,
    int,
)
    decreases toks.len() - i, 1int,
{
    if sp_peek(toks, i).kind != Kind::Comma {
        (Some(Seq::empty()), i)
    } else {
        let j = sp_step(toks, i);
        if i < j < toks.len() {
            let x = sp_expect(toks, j, Kind::Ident);
            if !x.0 {
                (None, j)
            } else {
                let idn = crate::ast::IdentifierV {
                    token: sp_cur(toks, x.1),
                    value: sp_cur(toks, x.1).literal,
                };
                if j < x.1 < toks.len() {
                    let rest = spec_parse_params_tail(toks, x.1);
                    match rest.0 {
                        None => (None, rest.1),
                        Some(r) => (Some(seq![idn] + r), rest.1),
                    }
                } else {
                    (None, x.1)
                }
            }
        } else {
            (None, j)
        }
    }
}

pub struct Parser {
    tokens: Vec<Token>,
    positions: Vec<Position>,
    idx: usize,
}

/// A well-formed window agrees with the specification parser's view of the
/// stream: its current and next tokens are the ones at the cursor.
proof fn lemma_window(p: &Parser)
    requires
        p.wf(),
    ensures
        0 <= p.pos() < p.toks().len(),
        p.cur() == sp_cur(p.toks(), p.pos()),
        p.peek() == sp_peek(p.toks(), p.pos()),
        p.rem() == p.toks().len() - 1 - p.pos(),
{
}

impl Parser {
    /// The token stream the parser runs over.
    pub closed spec fn toks(&self) -> Seq<TokenModel> {
        self.tokens@.map_values(|t: Token| t@)
    }

    /// Well-formedness of the window: the stream is non-empty, exactly its
    /// last token is the end-of-input token, and the window is inside it.
    pub closed spec fn wf(&self) -> bool {
        &&& self.toks().len() >= 1
        &&& self.idx < self.toks().len()
        &&& self.toks()[self.toks().len() - 1].kind == Kind::EOF
        &&& forall|i: int|
            0 <= i < self.toks().len() - 1 ==> (#[trigger] self.toks()[i]).kind != Kind::EOF
        &&& self.positions@.len() == self.tokens@.len()
    }

    /// Tokens before the end-of-input token not yet consumed.
    pub closed spec fn rem(&self) -> int {
        self.toks().len() - 1 - self.idx
    }

    /// The index of the window's current token.
    pub closed spec fn pos(&self) -> int {
        self.idx as int
    }

    /// The current token of the window.
    pub closed spec fn cur(&self) -> TokenModel {
        self.toks()[self.idx as int]
    }

    /// The next token of the window (the end-of-input token repeats).
    pub closed spec fn peek(&self) -> TokenModel {
        if self.idx + 1 < self.toks().len() {
            self.toks()[self.idx + 1]
        } else {
            self.toks()[self.toks().len() - 1]
        }
    }

    /// Creates a parser by running the lexer to the end of its input: the
    /// parser's stream is exactly the scanner's token stream, and the
    /// window stands on the first token.
    pub fn new(lexer: Lexer) -> (p: Self)
        requires
            lexer_wf(lexer),
        ensures
            p.wf(),
            p.pos() == 0,
            p.toks() == spec_token_stream(lexer.src(), lexer.cursor()),
    {
        let ghost src0 = lexer.src();
        let ghost c0 = lexer.cursor();
        let mut lexer = lexer;
        proof {
            lemma_lexer_wf_bounds(lexer);
        }
        let mut tokens: Vec<Token> = Vec::new();
        let mut positions: Vec<Position> = Vec::new();
        loop
            invariant_except_break
                lexer_wf(lexer),
                lexer.src() == src0,
                0 <= lexer.cursor() <= lexer.src().len(),
                tokens@.len() == positions@.len(),
                forall|i: int|
                    0 <= i < tokens@.len() ==> (#[trigger] tokens@[i])@.kind != Kind::EOF,
                spec_token_stream(src0, c0) == tokens@.map_values(|t: Token| t@)
                    + spec_token_stream(src0, lexer.cursor()),
            ensures
                tokens@.len() == positions@.len(),
                tokens@.len() >= 1,
                tokens@[tokens@.len() - 1]@.kind == Kind::EOF,
                forall|i: int|
                    0 <= i < tokens@.len() - 1 ==> (#[trigger] tokens@[i])@.kind != Kind::EOF,
                tokens@.map_values(|t: Token| t@) == spec_token_stream(src0, c0),
            decreases lexer.src().len() - lexer.cursor(), 1int,
        {
            let ghost c = lexer.cursor();
            let ghost toks_before = tokens@;
            proof {
                lemma_next_token_bounds(lexer.src(), lexer.cursor());
            }
            let t = lexer.next();
            let ghost tv = t@;
            let p = lexer.get_pos();
            let is_eof = t.kind == Kind::EOF;
            tokens.push(t);
            positions.push(p);
            proof {
                assert(tokens@.map_values(|tt: Token| tt@) =~= toks_before.map_values(
                    |tt: Token| tt@,
                ).push(tv));
                if is_eof {
                    assert(spec_token_stream(src0, c) =~= seq![tv]);
                    assert(toks_before.map_values(|tt: Token| tt@) + spec_token_stream(src0, c)
                        =~= tokens@.map_values(|tt: Token| tt@));
                } else {
                    assert(spec_token_stream(src0, c) =~= seq![tv] + spec_token_stream(
                        src0,
                        lexer.cursor(),
                    ));
                    assert(toks_before.map_values(|tt: Token| tt@) + spec_token_stream(src0, c)
                        =~= tokens@.map_values(|tt: Token| tt@) + spec_token_stream(
                        src0,
                        lexer.cursor(),
                    ));
                }
            }
            if is_eof {
                break ;
            }
        }
        let p = Parser { tokens, positions, idx: 0 };
        proof {
            assert(p.toks().len() == p.tokens@.len());
        }
        p
    }

    /// Shifts the window forward one token; at the end it stays put.
    fn next(&mut self)
        requires
            old(self).wf(),
        ensures
            final(self).wf(),
            final(self).toks() == old(self).toks(),
            final(self).positions == old(self).positions,
            0 <= final(self).rem() <= old(self).rem(),
            old(self).cur().kind != Kind::EOF ==> final(self).rem() == old(self).rem() - 1,
            old(self).cur().kind == Kind::EOF ==> final(self).rem() == old(self).rem(),
            final(self).cur() == old(self).peek(),
            final(self).pos() == sp_step(old(self).toks(), old(self).pos()),
            old(self).pos() <= final(self).pos() < old(self).toks().len(),
    {
        proof {
            lemma_window(self);
        }
        proof {
            assert(self.toks().len() == self.tokens@.len());
        }
        let n = self.tokens.len();
        if self.idx < n - 1 {
            self.idx = self.idx + 1;
        }
    }

    fn cur_token(&self) -> (t: &Token)
        requires
            self.wf(),
        ensures
            t@ == self.cur(),
            t@ == sp_cur(self.toks(), self.pos()),
    {
        proof {
            lemma_window(self);
        }
        proof {
            assert(self.toks().len() == self.tokens@.len());
        }
        &self.tokens[self.idx]
    }

    fn peek_next(&self) -> (t: &Token)
        requires
            self.wf(),
        ensures
            t@ == self.peek(),
            t@ == sp_peek(self.toks(), self.pos()),
    {
        proof {
            lemma_window(self);
        }
        proof {
            assert(self.toks().len() == self.tokens@.len());
        }
        let n = self.tokens.len();
        if self.idx < n - 1 {
            &self.tokens[self.idx + 1]
        } else {
            &self.tokens[n - 1]
        }
    }

    fn peek_next_is(&self, kind: &Kind) -> (r: bool)
        requires
            self.wf(),
        ensures
            r == (self.peek().kind == *kind),
            r == (sp_peek(self.toks(), self.pos()).kind == *kind),
    {
        self.peek_next().kind == *kind
    }

    /// Shifts the window where the next token is of the expected kind.
    fn expect_next_is(&mut self, kind: &Kind) -> (r: bool)
        requires
            old(self).wf(),
        ensures
            final(self).wf(),
            final(self).toks() == old(self).toks(),
            final(self).positions == old(self).positions,
            0 <= final(self).rem() <= old(self).rem(),
            r == (old(self).peek().kind == *kind),
            r ==> final(self).cur() == old(self).peek(),
            r && *kind != Kind::EOF ==> final(self).rem() < old(self).rem(),
            !r ==> final(self).rem() == old(self).rem() && final(self).cur() == old(self).cur() && final(self).peek()
                == old(self).peek(),
            r == sp_expect(old(self).toks(), old(self).pos(), *kind).0,
            final(self).pos() == sp_expect(old(self).toks(), old(self).pos(), *kind).1,
            old(self).pos() <= final(self).pos() < old(self).toks().len(),
    {
        proof {
            lemma_window(self);
        }
        if self.peek_next().kind == *kind {
            proof {
                if *kind != Kind::EOF {
                    assert(self.cur().kind != Kind::EOF);
                }
            }
            self.next();
            true
        } else {
            false
        }
    }

    fn cur_precedence(&self) -> (r: Precedence)
        requires
            self.wf(),
        ensures
            r == spec_find_precedences(self.cur().kind),
            r == spec_find_precedences(sp_cur(self.toks(), self.pos()).kind),
    {
        proof {
            lemma_window(self);
        }
        find_precedences(self.cur_token().kind)
    }

    fn peek_precedence(&self) -> (r: Precedence)
        requires
            self.wf(),
        ensures
            r == spec_find_precedences(self.peek().kind),
            r == spec_find_precedences(sp_peek(self.toks(), self.pos()).kind),
    {
        proof {
            lemma_window(self);
        }
        find_precedences(self.peek_next().kind)
    }

    fn make_pos_error(&self, detail: &str) -> (e: ParseError)
        requires
            self.wf(),
        ensures
            e.detail@ == detail@,
    {
        proof {
            assert(self.toks().len() == self.tokens@.len());
        }
        let n = self.positions.len();
        let p = if self.idx < n - 1 {
            self.positions[self.idx + 1]
        } else {
            self.positions[n - 1]
        };
        ParseError { detail: detail.to_owned(), position: p }
    }

    /// Parses the whole token stream into a program, or collects the error
    /// stacks of the statements that failed.
    #[verifier::rlimit(100)]
    #[verifier::spinoff_prover]
    pub fn parse(&mut self) -> (r: Result<Program, Vec<Vec<ParserErrorEntry>>>)
        requires
            old(self).wf(),
        ensures
            final(self).wf(),
            match r {
                Ok(p) => spec_parse_program(old(self).toks(), old(self).pos()).0 == Some(
                    p@.statements,
                ) && wf_stmt_seq(p@.statements),
                Err(errs) => spec_parse_program(old(self).toks(), old(self).pos()).0 is None
                    && errs@.len() > 0,
            },
    {
        let ghost toks0 = old(self).toks();
        let ghost i0 = old(self).pos();
        let ghost tg = spec_parse_program(toks0, i0);
        let mut program = Program::new();
        let mut errs: Vec<Vec<ParserErrorEntry>> = Vec::new();

        proof {
            lemma_stmt_seq_v(program.statements@);
            lemma_window(self);
            assert(match spec_parse_program(toks0, i0).0 {
                Some(rr) => Some(program@.statements + rr) == spec_parse_program(toks0, i0).0,
                None => true,
            }) by {
                match spec_parse_program(toks0, i0).0 {
                    Some(rr) => {
                        assert(program@.statements + rr =~= rr);
                    },
                    None => {},
                }
            }
        }
        while self.cur_token().kind != Kind::EOF
            invariant
                self.wf(),
                wf_stmt_seq(program@.statements),
                toks0 == old(self).toks(),
                i0 == old(self).pos(),
                tg == spec_parse_program(toks0, i0),
                self.toks() == toks0,
                errs@.len() > 0 ==> tg.0 is None,
                errs@.len() == 0 ==> tg.0 == (
                match spec_parse_program(toks0, self.pos()).0 {
                    Some(rr) => Some(program@.statements + rr),
                    None => None::<Seq<StatementV>>,
                }),
            decreases self.rem(),
        {
            let ghost p = self.pos();
            proof {
                lemma_window(self);
            }
            // a statement's trailing `;` is optional: the driver consumes
            // stray separators between statements
            if self.cur_token().kind == Kind::Semicolon {
                proof {
                    assert(self.cur().kind != Kind::EOF);
                }
                self.next();
                continue ;
            }
            let cur_stm = self.parse_statement();
            let ghost st1 = self.pos();
            proof {
                lemma_window(self);
                assert(self.cur().kind != Kind::EOF ==> sp_step(toks0, st1) > st1);
                if st1 == p {
                    assert(self.cur() == sp_cur(toks0, p));
                }
            }
            match cur_stm {
                Ok(stm) => {
                    let ghost stmts0 = program@.statements;
                    let ghost stmv = stm@;
                    program.push_stm(stm);
                    proof {
                        lemma_wf_stmt_seq_push(stmts0, stmv);
                    }
                    self.next();
                    proof {
                        let ghost k = self.pos();
                        assert(p < k < toks0.len());
                        if errs@.len() == 0 {
                            assert(match spec_parse_program(toks0, k).0 {
                                Some(rr) => stmts0 + (seq![stmv] + rr) =~= program@.statements
                                    + rr,
                                None => true,
                            }) by {
                                match spec_parse_program(toks0, k).0 {
                                    Some(rr) => {
                                        assert(stmts0 + (seq![stmv] + rr) =~= program@.statements
                                            + rr);
                                    },
                                    None => {},
                                }
                            }
                        }
                    }
                },
                Err(err) => {
                    proof {
                        assert(spec_parse_program(toks0, p).0 is None);
                        assert(tg.0 is None);
                    }
                    errs.push(err);
                    self.next();
                },
            }
        }

        proof {
            lemma_window(self);
            if errs@.len() == 0 {
                assert(spec_parse_program(toks0, self.pos()).0 == Some(Seq::<
                    StatementV,
                >::empty()));
                assert(program@.statements + Seq::<StatementV>::empty() =~= program@.statements);
            }
        }
        if errs.is_empty() {
            Ok(program)
        } else {
            Err(errs)
        }
    }

    #[verifier::rlimit(100)]
    fn parse_statement(&mut self) -> (r: Result<Statement, Vec<ParserErrorEntry>>)
        requires
            old(self).wf(),
        ensures
            final(self).wf(),
            final(self).toks() == old(self).toks(),
            final(self).positions == old(self).positions,
            0 <= final(self).rem() <= old(self).rem(),
            old(self).pos() <= final(self).pos() < old(self).toks().len(),
            match r {
                Ok(stm) => spec_parse_statement(old(self).toks(), old(self).pos()).0 == Some(stm@)
                    && spec_parse_statement(old(self).toks(), old(self).pos()).1 == final(self).pos() && wf_stmt(stm@),
                Err(_) => spec_parse_statement(old(self).toks(), old(self).pos()).0 is None,
            },
        decreases old(self).rem(), 7int,
    {
        let k = self.cur_token().kind;
        if k == Kind::Let {
            let res = self.parse_let_statement();
            match res {
                Ok(stm) => Ok(Statement::LetStatement(stm)),
                Err(mut errs) => {
                    errs.push(
                        ParserErrorEntry::Parse(self.make_pos_error("faild to parse let statement")),
                    );
                    Err(errs)
                },
            }
        } else if k == Kind::Return {
            let res = self.parse_return_statement();
            match res {
                Ok(stm) => Ok(Statement::ReturnStatement(stm)),
                Err(e) => Err(e),
            }
        } else {
            let res = self.parse_expression_statement();
            match res {
                Ok(stm) => Ok(Statement::ExpressionStatement(stm)),
                Err(e) => Err(e),
            }
        }
    }

    #[verifier::rlimit(100)]
    fn parse_let_statement(&mut self) -> (r: Result<LetStatement, Vec<ParserErrorEntry>>)
        requires
            old(self).wf(),
        ensures
            final(self).wf(),
            final(self).toks() == old(self).toks(),
            final(self).positions == old(self).positions,
            0 <= final(self).rem() <= old(self).rem(),
            old(self).pos() <= final(self).pos() < old(self).toks().len(),
            match r {
                Ok(stm) => spec_parse_let_statement(old(self).toks(), old(self).pos()).0 == Some(
                    stm@,
                ) && spec_parse_let_statement(old(self).toks(), old(self).pos()).1 == final(self).pos() && wf_stmt(crate::ast::StatementV::LetStatement(stm@)),
                Err(_) => spec_parse_let_statement(old(self).toks(), old(self).pos()).0 is None,
            },
        decreases old(self).rem(), 6int,
    {
        let cur_token = self.cur_token().duplicate();

        if !self.peek_next_is(&Kind::Ident) {
            let mut errs: Vec<ParserErrorEntry> = Vec::new();
            errs.push(ParserErrorEntry::Parse(self.make_pos_error("next_token is not a Kind::Ident")));
            return Err(errs);
        }

        self.next();

        let mut stm = LetStatement {
            token: cur_token,
            identifier: Identifier {
                token: self.cur_token().duplicate(),
                value: self.cur_token().literal.clone(),
            },
            value: None,
        };
        if self.peek_next().kind == Kind::Assign {
            self.next();  // window moves onto `=`
            self.next();  // window moves onto the right side of `=`
            match self.parse_expression(Precedence::Lowest) {
                Ok(e) => {
                    stm.value = Some(e);
                },
                Err(mut errs) => {
                    errs.push(
                        ParserErrorEntry::Parse(
                            self.make_pos_error("faild on parsing value (on let statement)"),
                        ),
                    );
                    return Err(errs);
                },
            }
        }
        // The terminating `;` is consumed where present. A binding whose
        // value closes with a brace may omit it, so that one line can bind
        // a function and the next use it.
        if self.peek_next_is(&Kind::Semicolon) {
            self.next();
        }

        Ok(stm)
    }

    #[verifier::rlimit(100)]
    fn parse_return_statement(&mut self) -> (r: Result<ReturnStatement, Vec<ParserErrorEntry>>)
        requires
            old(self).wf(),
        ensures
            final(self).wf(),
            final(self).toks() == old(self).toks(),
            final(self).positions == old(self).positions,
            0 <= final(self).rem() <= old(self).rem(),
            old(self).pos() <= final(self).pos() < old(self).toks().len(),
            match r {
                Ok(stm) => spec_parse_return_statement(old(self).toks(), old(self).pos()).0
                    == Some(stm@) && spec_parse_return_statement(
                    old(self).toks(),
                    old(self).pos(),
                ).1 == final(self).pos() && wf_stmt(crate::ast::StatementV::ReturnStatement(stm@)),
                Err(_) => spec_parse_return_statement(
                    old(self).toks(),
                    old(self).pos(),
                ).0 is None,
            },
        decreases old(self).rem(), 6int,
    {
        let mut stm = ReturnStatement { token: self.cur_token().duplicate(), value: None };

        if self.peek_next().kind != Kind::Semicolon {
            self.next();
            let res = self.parse_expression(Precedence::Lowest);
            match res {
                Ok(e) => {
                    stm.value = Some(e);
                },
                Err(mut errs) => {
                    errs.push(
                        ParserErrorEntry::Parse(
                            self.make_pos_error("faild on parsing value (on return statement)"),
                        ),
                    );
                    return Err(errs);
                },
            }
            if self.peek_next_is(&Kind::Semicolon) {
                self.next();
            }
        } else {
            self.next();
        }

        Ok(stm)
    }

    #[verifier::rlimit(100)]
    fn parse_expression_statement(&mut self) -> (r: Result<
        ExpressionStatement,
        Vec<ParserErrorEntry>,
    >)
        requires
            old(self).wf(),
        ensures
            final(self).wf(),
            final(self).toks() == old(self).toks(),
            final(self).positions == old(self).positions,
            0 <= final(self).rem() <= old(self).rem(),
            old(self).pos() <= final(self).pos() < old(self).toks().len(),
            match r {
                Ok(stm) => spec_parse_expression_statement(old(self).toks(), old(self).pos()).0
                    == Some(stm@) && spec_parse_expression_statement(
                    old(self).toks(),
                    old(self).pos(),
                ).1 == final(self).pos() && wf_stmt(
                    crate::ast::StatementV::ExpressionStatement(stm@),
                ),
                Err(_) => spec_parse_expression_statement(
                    old(self).toks(),
                    old(self).pos(),
                ).0 is None,
            },
        decreases old(self).rem(), 6int,
    {
        let token = self.cur_token().duplicate();
        let expression = self.parse_expression(Precedence::Lowest);
        match expression {
            Err(e) => Err(e),
            Ok(e) => Ok(ExpressionStatement { token, expression: Some(e) }),
        }
    }

    fn parse_identifier(&mut self) -> (r: Identifier)
        requires
            old(self).wf(),
        ensures
            final(self).wf(),
            *final(self) == *old(self),
            r@ == (crate::ast::IdentifierV {
                token: old(self).cur(),
                value: old(self).cur().literal,
            }),
    {
        Identifier {
            token: self.cur_token().duplicate(),
            value: self.cur_token().literal.clone(),
        }
    }

    /// Reads the current token's literal as a 64-bit integer literal node.
    /// The node's value is exactly the decimal value of the literal text;
    /// a non-numeric or overflowing literal is rejected.
    fn parse_integer_literal(&mut self) -> (r: Result<IntegerLiteral, PrefixFunctionError>)
        requires
            old(self).wf(),
        ensures
            final(self).wf(),
            *final(self) == *old(self),
            match r {
                Ok(il) => il@.token == old(self).cur() && old(self).cur().literal.len() > 0
                    && all_digits(old(self).cur().literal) && spec_digits_val(
                    old(self).cur().literal,
                ) <= i64::MAX && il.value as int == spec_digits_val(old(self).cur().literal),
                Err(_) => !(old(self).cur().literal.len() > 0 && all_digits(
                    old(self).cur().literal,
                ) && spec_digits_val(old(self).cur().literal) <= i64::MAX),
            },
        decreases old(self).rem(), 0int,
    {
        proof {
            assert(self.toks().len() == self.tokens@.len());
        }
        let parsed = parse_i64_digits(self.cur_token().literal.as_str());
        match parsed {
            Some(value) => Ok(IntegerLiteral { token: self.cur_token().duplicate(), value }),
            None => Err(
                PrefixFunctionError {
                    detail: "faild to parse IntegerLiteral".to_owned(),
                    position: {
                        let n = self.positions.len();
                        if self.idx < n - 1 {
                            self.positions[self.idx + 1]
                        } else {
                            self.positions[n - 1]
                        }
                    },
                    kind: PrefixFunctionErrorKind::IntegerParseError,
                },
            ),
        }
    }

    /// Reads the current token's literal as a boolean literal node: the
    /// value is true exactly where the literal text is `true`.
    fn parse_bool_literal(&mut self) -> (r: BooleanLiteral)
        requires
            old(self).wf(),
        ensures
            final(self).wf(),
            *final(self) == *old(self),
            r@.token == old(self).cur(),
            r.value == (old(self).cur().literal == "true"@),
    {
        let value = str_eq(self.cur_token().literal.as_str(), "true");
        BooleanLiteral { token: self.cur_token().duplicate(), value }
    }

    fn parse_string_literal(&mut self) -> (r: StringLiteral)
        requires
            old(self).wf(),
        ensures
            final(self).wf(),
            *final(self) == *old(self),
            r@.token == old(self).cur(),
            r@.value == old(self).cur().literal,
    {
        StringLiteral {
            token: self.cur_token().duplicate(),
            value: self.cur_token().literal.clone(),
        }
    }

    #[verifier::rlimit(100)]
    fn parse_block_statement(&mut self) -> (r: Result<BlockStatement, Vec<ParserErrorEntry>>)
        requires
            old(self).wf(),
        ensures
            final(self).wf(),
            final(self).toks() == old(self).toks(),
            final(self).positions == old(self).positions,
            0 <= final(self).rem() <= old(self).rem(),
            old(self).pos() <= final(self).pos() < old(self).toks().len(),
            match r {
                Ok(bs) => spec_parse_block_statement(old(self).toks(), old(self).pos()).0 == Some(
                    crate::ast::block_v(bs),
                ) && spec_parse_block_statement(old(self).toks(), old(self).pos()).1 == final(self).pos() && wf_stmt_seq(crate::ast::block_v(bs).statements),
                Err(_) => spec_parse_block_statement(
                    old(self).toks(),
                    old(self).pos(),
                ).0 is None,
            },
        decreases old(self).rem(), 8int,
    {
        let token = self.cur_token().duplicate();

        if token.kind != Kind::LBRACE {
            let mut errs: Vec<ParserErrorEntry> = Vec::new();
            errs.push(
                ParserErrorEntry::Parse(
                    self.make_pos_error("LBRACE not found (on block Statement)"),
                ),
            );
            return Err(errs);
        }
        self.next();  // the window moves past `{`
        let ghost toks0 = old(self).toks();
        let ghost i0 = old(self).pos();
        let ghost tg = spec_parse_block_statement(toks0, i0);
        let ghost k0 = self.pos();

        let mut statements: Vec<Statement> = Vec::new();

        proof {
            lemma_stmt_seq_v(statements@);
            lemma_window(self);
            assert(k0 == sp_step(toks0, i0));
            assert(match spec_parse_block_stmts(toks0, k0).0 {
                Some(rr) => Some(stmt_seq_v(statements@) + rr) == spec_parse_block_stmts(
                    toks0,
                    k0,
                ).0,
                None => true,
            }) by {
                match spec_parse_block_stmts(toks0, k0).0 {
                    Some(rr) => {
                        assert(stmt_seq_v(statements@) + rr =~= rr);
                    },
                    None => {},
                }
            }
        }
        while self.cur_token().kind != Kind::RBRACE && self.cur_token().kind != Kind::EOF
            invariant
                self.wf(),
                self.toks() == old(self).toks(),
                self.positions == old(self).positions,
                0 <= self.rem() <= old(self).rem(),
                toks0 == old(self).toks(),
                i0 == old(self).pos(),
                tg == spec_parse_block_statement(toks0, i0),
                sp_cur(toks0, i0).kind == Kind::LBRACE,
                k0 == sp_step(toks0, i0),
                i0 <= k0 <= toks0.len(),
                k0 <= self.pos(),
                wf_stmt_seq(stmt_seq_v(statements@)),
                spec_parse_block_stmts(toks0, k0).0 == (
                match spec_parse_block_stmts(toks0, self.pos()).0 {
                    Some(rr) => Some(stmt_seq_v(statements@) + rr),
                    None => None::<Seq<StatementV>>,
                }),
                spec_parse_block_stmts(toks0, self.pos()).0 is Some ==> spec_parse_block_stmts(
                    toks0,
                    k0,
                ).1 == spec_parse_block_stmts(toks0, self.pos()).1,
            decreases self.rem(),
        {
            let ghost p = self.pos();
            proof {
                lemma_window(self);
            }
            // a statement's trailing `;` is optional: stray separators
            // between the statements of a block are consumed here
            if self.cur_token().kind == Kind::Semicolon {
                proof {
                    assert(self.cur().kind != Kind::EOF);
                }
                self.next();
                continue ;
            }
            let stm_res = self.parse_statement();
            let ghost st1 = self.pos();
            proof {
                lemma_window(self);
                if st1 == p {
                    assert(self.cur() == sp_cur(toks0, p));
                }
            }
            match stm_res {
                Err(mut errs) => {
                    proof {
                        assert(spec_parse_block_stmts(toks0, p).0 is None);
                        assert(tg.0 is None);
                    }
                    errs.push(
                        ParserErrorEntry::Parse(
                            self.make_pos_error("Parse faild in block statements"),
                        ),
                    );
                    return Err(errs);
                },
                Ok(stm) => {
                    let ghost stmts0 = statements@;
                    let ghost stmv = stm@;
                    statements.push(stm);
                    proof {
                        lemma_stmt_seq_v(stmts0);
                        lemma_stmt_seq_v(statements@);
                        assert(stmt_seq_v(statements@) =~= stmt_seq_v(stmts0).push(stmv));
                        lemma_wf_stmt_seq_push(stmt_seq_v(stmts0), stmv);
                    }
                    self.next();
                    proof {
                        let ghost k = self.pos();
                        assert(p < k < toks0.len());
                        assert(match spec_parse_block_stmts(toks0, k).0 {
                            Some(rr) => stmt_seq_v(stmts0) + (seq![stmv] + rr) =~= stmt_seq_v(
                                statements@,
                            ) + rr,
                            None => true,
                        }) by {
                            match spec_parse_block_stmts(toks0, k).0 {
                                Some(rr) => {
                                    assert(stmt_seq_v(stmts0) + (seq![stmv] + rr) =~= stmt_seq_v(
                                        statements@,
                                    ) + rr);
                                },
                                None => {},
                            }
                        }
                    }
                },
            }
        }

        proof {
            lemma_window(self);
            assert(spec_parse_block_stmts(toks0, self.pos()).0 == Some(Seq::<
                StatementV,
            >::empty()));
            assert(stmt_seq_v(statements@) + Seq::<StatementV>::empty() =~= stmt_seq_v(
                statements@,
            ));
        }
        if self.cur_token().kind != Kind::RBRACE {
            let mut errs: Vec<ParserErrorEntry> = Vec::new();
            errs.push(
                ParserErrorEntry::Parse(
                    self.make_pos_error("matching RBRACE not found (on block Statement)"),
                ),
            );
            return Err(errs);
        }

        Ok(BlockStatement { token, statements })
    }

    fn parse_prefix_expression(&mut self) -> (r: Result<Expression, Vec<ParserErrorEntry>>)
        requires
            old(self).wf(),
            is_prefix_op(old(self).cur().kind),
        ensures
            final(self).wf(),
            final(self).toks() == old(self).toks(),
            final(self).positions == old(self).positions,
            0 <= final(self).rem() <= old(self).rem(),
            old(self).pos() <= final(self).pos() < old(self).toks().len(),
            match r {
                Ok(e) => spec_parse_prefix_expression(old(self).toks(), old(self).pos()).0
                    == Some(e@) && spec_parse_prefix_expression(
                    old(self).toks(),
                    old(self).pos(),
                ).1 == final(self).pos() && wf_expr(e@),
                Err(_) => spec_parse_prefix_expression(
                    old(self).toks(),
                    old(self).pos(),
                ).0 is None,
            },
        decreases old(self).rem(), 3int,
    {
        let token = self.cur_token().duplicate();
        proof {
            assert(self.cur().kind != Kind::EOF);
        }
        self.next();
        let exp = self.parse_expression(Precedence::Prefix);
        match exp {
            Err(errs) => Err(errs),
            Ok(e) => {
                let right = Box::new(e);
                Ok(Expression::PrefixExpression(PrefixExpression { token, right }))
            },
        }
    }

    fn parse_group_expression(&mut self) -> (r: Result<Expression, Vec<ParserErrorEntry>>)
        requires
            old(self).wf(),
            old(self).cur().kind == Kind::LPAREN,
        ensures
            final(self).wf(),
            final(self).toks() == old(self).toks(),
            final(self).positions == old(self).positions,
            0 <= final(self).rem() <= old(self).rem(),
            old(self).pos() <= final(self).pos() < old(self).toks().len(),
            match r {
                Ok(e) => spec_parse_group_expression(old(self).toks(), old(self).pos()).0 == Some(
                    e@,
                ) && spec_parse_group_expression(old(self).toks(), old(self).pos()).1 == final(self).pos() && wf_expr(e@),
                Err(_) => spec_parse_group_expression(
                    old(self).toks(),
                    old(self).pos(),
                ).0 is None,
            },
        decreases old(self).rem(), 3int,
    {
        self.next();  // the window moves past `(`
        let exp = self.parse_expression(Precedence::Lowest);
        match exp {
            Err(errs) => Err(errs),
            Ok(e) => {
                if !self.peek_next_is(&Kind::RPAREN) {
                    let mut errs: Vec<ParserErrorEntry> = Vec::new();
                    errs.push(ParserErrorEntry::Parse(self.make_pos_error("RPAREN not found")));
                    return Err(errs);
                }
                self.next();  // the window moves onto `)`
                Ok(e)
            },
        }
    }

    #[verifier::rlimit(100)]
    fn parse_if_expression(&mut self) -> (r: Result<IfExpression, Vec<ParserErrorEntry>>)
        requires
            old(self).wf(),
        ensures
            final(self).wf(),
            final(self).toks() == old(self).toks(),
            final(self).positions == old(self).positions,
            0 <= final(self).rem() <= old(self).rem(),
            old(self).pos() <= final(self).pos() < old(self).toks().len(),
            match r {
                Ok(e) => spec_parse_if_expression(old(self).toks(), old(self).pos()).0 == Some(e@)
                    && spec_parse_if_expression(old(self).toks(), old(self).pos()).1 == final(self).pos() && wf_expr(crate::ast::ExpressionV::IfExpression(e@)),
                Err(_) => spec_parse_if_expression(old(self).toks(), old(self).pos()).0 is None,
            },
        decreases old(self).rem(), 3int,
    {
        let if_token = self.cur_token().duplicate();
        if !self.expect_next_is(&Kind::LPAREN) {
            let mut errs: Vec<ParserErrorEntry> = Vec::new();
            errs.push(
                ParserErrorEntry::Parse(self.make_pos_error("LPAREN not found (next of IF token)")),
            );
            return Err(errs);
        }

        self.next();

        let condition = match self.parse_expression(Precedence::Lowest) {
            Err(mut errs) => {
                errs.push(
                    ParserErrorEntry::Parse(
                        self.make_pos_error(
                            "Faild to parse inner condition expression (on If expression)",
                        ),
                    ),
                );
                return Err(errs);
            },
            Ok(c) => c,
        };

        if !self.expect_next_is(&Kind::RPAREN) {
            let mut errs: Vec<ParserErrorEntry> = Vec::new();
            errs.push(
                ParserErrorEntry::Parse(self.make_pos_error("Cannot found RPAREN in IfExpression")),
            );
            return Err(errs);
        }
        if !self.expect_next_is(&Kind::LBRACE) {
            let mut errs: Vec<ParserErrorEntry> = Vec::new();
            errs.push(
                ParserErrorEntry::Parse(
                    self.make_pos_error(
                        "Cannot found LBRACE on next side of condition (on IfExpression)",
                    ),
                ),
            );
            return Err(errs);
        }

        let consequence = match self.parse_block_statement() {
            Err(mut errs) => {
                errs.push(
                    ParserErrorEntry::Parse(
                        self.make_pos_error(
                            "Faild to parse consequence expression (on If expression)",
                        ),
                    ),
                );
                return Err(errs);
            },
            Ok(c) => c,
        };

        let mut alternative: Option<BlockStatement> = None;

        if self.expect_next_is(&Kind::Else) {
            if !self.expect_next_is(&Kind::LBRACE) {
                let mut errs: Vec<ParserErrorEntry> = Vec::new();
                errs.push(
                    ParserErrorEntry::Parse(
                        self.make_pos_error(
                            "Cannot found LBRACE on right side of else (on IfExpression)",
                        ),
                    ),
                );
                return Err(errs);
            }
            let res = match self.parse_block_statement() {
                Err(mut errs) => {
                    errs.push(
                        ParserErrorEntry::Parse(
                            self.make_pos_error(
                                "Faild to parse alternative block expression (on If expression)",
                            ),
                        ),
                    );
                    return Err(errs);
                },
                Ok(a) => a,
            };
            alternative = Some(res);
        }

        Ok(
            IfExpression {
                token: if_token,
                condition: Box::new(condition),
                consequence,
                alternative,
            },
        )
    }

    #[verifier::rlimit(100)]
    fn parse_function_literal(&mut self) -> (r: Result<FunctionLiteral, Vec<ParserErrorEntry>>)
        requires
            old(self).wf(),
        ensures
            final(self).wf(),
            final(self).toks() == old(self).toks(),
            final(self).positions == old(self).positions,
            0 <= final(self).rem() <= old(self).rem(),
            old(self).pos() <= final(self).pos() < old(self).toks().len(),
            match r {
                Ok(fl) => spec_parse_function_literal(old(self).toks(), old(self).pos()).0
                    == Some(crate::ast::fnlit_v(fl)) && spec_parse_function_literal(
                    old(self).toks(),
                    old(self).pos(),
                ).1 == final(self).pos() && wf_expr(
                    crate::ast::ExpressionV::FunctionLiteral(crate::ast::fnlit_v(fl)),
                ),
                Err(_) => spec_parse_function_literal(
                    old(self).toks(),
                    old(self).pos(),
                ).0 is None,
            },
        decreases old(self).rem(), 3int,
    {
        let token = self.cur_token().duplicate();
        let mut ident: Option<Identifier> = None;

        if self.expect_next_is(&Kind::Ident) {
            ident = Some(
                Identifier {
                    token: self.cur_token().duplicate(),
                    value: self.cur_token().literal.clone(),
                },
            );
        }
        if !self.expect_next_is(&Kind::LPAREN) {
            let mut errs: Vec<ParserErrorEntry> = Vec::new();
            errs.push(
                ParserErrorEntry::Parse(self.make_pos_error("LPAREN not found (on FunctionLiteral)")),
            );
            return Err(errs);
        }

        let parameters = match self.parse_function_parameters() {
            Err(e) => {
                let mut errs: Vec<ParserErrorEntry> = Vec::new();
                errs.push(ParserErrorEntry::Parse(e));
                errs.push(
                    ParserErrorEntry::Parse(
                        self.make_pos_error("Error while parsing parmams (on Function literal)"),
                    ),
                );
                return Err(errs);
            },
            Ok(p) => p,
        };

        if !self.expect_next_is(&Kind::LBRACE) {
            let mut errs: Vec<ParserErrorEntry> = Vec::new();
            errs.push(
                ParserErrorEntry::Parse(self.make_pos_error("LBRACE not found (on Function literal)")),
            );
            return Err(errs);
        }

        let body = match self.parse_block_statement() {
            Err(mut errs) => {
                errs.push(
                    ParserErrorEntry::Parse(
                        self.make_pos_error("Error occurs in innerblock (on Function literal)"),
                    ),
                );
                return Err(errs);
            },
            Ok(b) => b,
        };

        Ok(FunctionLiteral { token, ident, parameters, body })
    }

    #[verifier::rlimit(100)]
    fn parse_function_parameters(&mut self) -> (r: Result<Vec<Identifier>, ParseError>)
        requires
            old(self).wf(),
        ensures
            final(self).wf(),
            final(self).toks() == old(self).toks(),
            final(self).positions == old(self).positions,
            0 <= final(self).rem() <= old(self).rem(),
            match r {
                Ok(ids) => spec_parse_function_parameters(old(self).toks(), old(self).pos()).0
                    == Some(idents_v(ids@)) && spec_parse_function_parameters(
                    old(self).toks(),
                    old(self).pos(),
                ).1 == final(self).pos(),
                Err(_) => spec_parse_function_parameters(
                    old(self).toks(),
                    old(self).pos(),
                ).0 is None,
            },
        decreases old(self).rem(), 2int,
    {
        let ghost toks0 = old(self).toks();
        let ghost i0 = old(self).pos();
        let ghost tg = spec_parse_function_parameters(toks0, i0);
        proof {
            lemma_window(self);
        }
        let mut identifiers: Vec<Identifier> = Vec::new();

        if self.peek_next_is(&Kind::RPAREN) {
            self.next();
            proof {
                assert(idents_v(identifiers@) =~= Seq::<crate::ast::IdentifierV>::empty());
            }
            return Ok(identifiers);
        }
        if !self.expect_next_is(&Kind::Ident) {
            return Err(self.make_pos_error("Ident token not found (on parsing function params)"));
        }
        let ghost p0 = self.pos();
        proof {
            lemma_window(self);
        }
        let ghost id0v = crate::ast::IdentifierV {
            token: sp_cur(toks0, p0),
            value: sp_cur(toks0, p0).literal,
        };

        identifiers.push(
            Identifier {
                token: self.cur_token().duplicate(),
                value: self.cur_token().literal.clone(),
            },
        );
        proof {
            assert(idents_v(identifiers@) =~= seq![id0v]
                + Seq::<crate::ast::IdentifierV>::empty());
        }
        let ghost collected = Seq::<crate::ast::IdentifierV>::empty();
        proof {
            assert(match spec_parse_params_tail(toks0, p0).0 {
                Some(rr) => Some(collected + rr) == spec_parse_params_tail(toks0, p0).0,
                None => true,
            }) by {
                match spec_parse_params_tail(toks0, p0).0 {
                    Some(rr) => {
                        assert(collected + rr =~= rr);
                    },
                    None => {},
                }
            }
        }

        while self.peek_next_is(&Kind::Comma)
            invariant
                self.wf(),
                self.toks() == old(self).toks(),
                self.positions == old(self).positions,
                0 <= self.rem() <= old(self).rem(),
                toks0 == old(self).toks(),
                i0 == old(self).pos(),
                tg == spec_parse_function_parameters(toks0, i0),
                sp_peek(toks0, i0).kind != Kind::RPAREN,
                sp_expect(toks0, i0, Kind::Ident) == (true, p0),
                i0 <= p0 <= toks0.len(),
                id0v == (crate::ast::IdentifierV {
                    token: sp_cur(toks0, p0),
                    value: sp_cur(toks0, p0).literal,
                }),
                idents_v(identifiers@) == seq![id0v] + collected,
                spec_parse_params_tail(toks0, p0).0 == (
                match spec_parse_params_tail(toks0, self.pos()).0 {
                    Some(rr) => Some(collected + rr),
                    None => None::<Seq<crate::ast::IdentifierV>>,
                }),
                spec_parse_params_tail(toks0, self.pos()).0 is Some ==> spec_parse_params_tail(
                    toks0,
                    p0,
                ).1 == spec_parse_params_tail(toks0, self.pos()).1,
            decreases self.rem(),
        {
            let ghost p = self.pos();
            proof {
                lemma_window(self);
                assert(self.cur().kind != Kind::EOF);
            }
            self.next();
            if !self.expect_next_is(&Kind::Ident) {
                proof {
                    assert(spec_parse_params_tail(toks0, p).0 is None);
                    assert(tg.0 is None);
                }
                return Err(
                    self.make_pos_error("Ident token not found (on parsing function params)"),
                );
            }
            let ghost q = self.pos();
            proof {
                lemma_window(self);
            }
            let ghost idnv = crate::ast::IdentifierV {
                token: sp_cur(toks0, q),
                value: sp_cur(toks0, q).literal,
            };
            let ghost ids_before = identifiers@;
            identifiers.push(
                Identifier {
                    token: self.cur_token().duplicate(),
                    value: self.cur_token().literal.clone(),
                },
            );
            proof {
                assert(idents_v(identifiers@) =~= (seq![id0v] + collected).push(idnv));
                assert((seq![id0v] + collected).push(idnv) =~= seq![id0v] + collected.push(idnv));
                assert(match spec_parse_params_tail(toks0, q).0 {
                    Some(rr) => {
                        &&& spec_parse_params_tail(toks0, p).0 == Some(seq![idnv] + rr)
                        &&& collected + (seq![idnv] + rr) =~= collected.push(idnv) + rr
                    },
                    None => spec_parse_params_tail(toks0, p).0 is None,
                }) by {
                    match spec_parse_params_tail(toks0, q).0 {
                        Some(rr) => {
                            assert(collected + (seq![idnv] + rr) =~= collected.push(idnv) + rr);
                        },
                        None => {},
                    }
                }
            }
            proof {
                collected = collected.push(idnv);
            }
        }
        let ghost pend = self.pos();
        proof {
            lemma_window(self);
            assert(spec_parse_params_tail(toks0, pend).0 == Some(Seq::<
                crate::ast::IdentifierV,
            >::empty()));
            assert(spec_parse_params_tail(toks0, p0).0 == Some(collected)) by {
                assert(collected + Seq::<crate::ast::IdentifierV>::empty() =~= collected);
            }
        }
        if !self.expect_next_is(&Kind::RPAREN) {
            return Err(
                self.make_pos_error("matching RPAREN not found (on parsing function params)"),
            );
        }
        proof {
            assert(seq![id0v] + collected == idents_v(identifiers@));
        }
        Ok(identifiers)
    }

    #[verifier::rlimit(100)]
    fn parse_call_expression(&mut self, function: Expression) -> (r: Result<
        CallExpression,
        Vec<ParserErrorEntry>,
    >)
        requires
            old(self).wf(),
            old(self).cur().kind == Kind::LPAREN,
            wf_expr(function@),
        ensures
            final(self).wf(),
            final(self).toks() == old(self).toks(),
            final(self).positions == old(self).positions,
            0 <= final(self).rem() <= old(self).rem(),
            old(self).pos() <= final(self).pos() < old(self).toks().len(),
            match r {
                Ok(ce) => spec_parse_call_expression(
                    old(self).toks(),
                    old(self).pos(),
                    function@,
                ).0 == Some(crate::ast::callexpr_v(ce)) && spec_parse_call_expression(
                    old(self).toks(),
                    old(self).pos(),
                    function@,
                ).1 == final(self).pos() && wf_expr(
                    crate::ast::ExpressionV::CallExpression(crate::ast::callexpr_v(ce)),
                ),
                Err(_) => spec_parse_call_expression(
                    old(self).toks(),
                    old(self).pos(),
                    function@,
                ).0 is None,
            },
        decreases old(self).rem(), 6int,
    {
        let token = self.cur_token().duplicate();
        let arguments = match self.parse_call_args() {
            Err(mut errs) => {
                errs.push(
                    ParserErrorEntry::Parse(
                        self.make_pos_error("Error occurs in innerblock (on Function literal)"),
                    ),
                );
                return Err(errs);
            },
            Ok(a) => a,
        };
        let r = CallExpression { token, function: Box::new(function), arguments };
        Ok(r)
    }

    #[verifier::rlimit(100)]
    fn parse_call_args(&mut self) -> (r: Result<Vec<Expression>, Vec<ParserErrorEntry>>)
        requires
            old(self).wf(),
            old(self).cur().kind == Kind::LPAREN,
        ensures
            final(self).wf(),
            final(self).toks() == old(self).toks(),
            final(self).positions == old(self).positions,
            0 <= final(self).rem() <= old(self).rem(),
            old(self).pos() <= final(self).pos() < old(self).toks().len(),
            match r {
                Ok(args) => spec_parse_call_args(old(self).toks(), old(self).pos()).0 == Some(
                    expr_seq_v(args@),
                ) && spec_parse_call_args(old(self).toks(), old(self).pos()).1 == final(self).pos() && wf_expr_seq(expr_seq_v(args@)),
                Err(_) => spec_parse_call_args(old(self).toks(), old(self).pos()).0 is None,
            },
        decreases old(self).rem(), 5int,
    {
        let ghost toks0 = old(self).toks();
        let ghost i0 = old(self).pos();
        let ghost tg = spec_parse_call_args(toks0, i0);
        proof {
            lemma_window(self);
        }
        let mut args: Vec<Expression> = Vec::new();
        proof {
            lemma_expr_seq_v(args@);
        }
        if self.peek_next_is(&Kind::RPAREN) {
            self.next();
            proof {
                assert(expr_seq_v(args@) =~= Seq::<ExpressionV>::empty());
            }
            return Ok(args);
        }
        proof {
            assert(self.cur().kind != Kind::EOF);
        }
        self.next();
        let ghost k0 = self.pos();
        proof {
            assert(i0 < k0 < toks0.len());
        }

        let res = match self.parse_expression(Precedence::Lowest) {
            Err(mut errs) => {
                errs.push(
                    ParserErrorEntry::Parse(
                        self.make_pos_error("faild to parse inner expression (on parse call args)"),
                    ),
                );
                return Err(errs);
            },
            Ok(e) => e,
        };
        let ghost e1 = self.pos();
        let ghost first = res@;
        let ghost v0 = res@;
        let ghost args_empty = args@;
        args.push(res);
        proof {
            lemma_expr_seq_v(args_empty);
            lemma_expr_seq_v(args@);
            assert(expr_seq_v(args@) =~= expr_seq_v(args_empty).push(v0));
            lemma_wf_expr_seq_push(expr_seq_v(args_empty), v0);
            assert(expr_seq_v(args@) =~= seq![first] + Seq::<ExpressionV>::empty());
        }
        let ghost collected = Seq::<ExpressionV>::empty();
        proof {
            assert(match spec_parse_args_tail(toks0, e1).0 {
                Some(rr) => Some(collected + rr) == spec_parse_args_tail(toks0, e1).0,
                None => true,
            }) by {
                match spec_parse_args_tail(toks0, e1).0 {
                    Some(rr) => {
                        assert(collected + rr =~= rr);
                    },
                    None => {},
                }
            }
        }

        while self.peek_next_is(&Kind::Comma)
            invariant
                self.wf(),
                self.toks() == old(self).toks(),
                self.positions == old(self).positions,
                0 <= self.rem() <= old(self).rem(),
                toks0 == old(self).toks(),
                i0 == old(self).pos(),
                tg == spec_parse_call_args(toks0, i0),
                sp_peek(toks0, i0).kind != Kind::RPAREN,
                k0 == sp_step(toks0, i0),
                i0 < k0 < toks0.len(),
                spec_parse_expression(toks0, k0, 0).0 == Some(first),
                spec_parse_expression(toks0, k0, 0).1 == e1,
                k0 <= e1 <= toks0.len(),
                e1 <= self.pos(),
                wf_expr_seq(expr_seq_v(args@)),
                expr_seq_v(args@) == seq![first] + collected,
                spec_parse_args_tail(toks0, e1).0 == (
                match spec_parse_args_tail(toks0, self.pos()).0 {
                    Some(rr) => Some(collected + rr),
                    None => None::<Seq<ExpressionV>>,
                }),
                spec_parse_args_tail(toks0, self.pos()).0 is Some ==> spec_parse_args_tail(
                    toks0,
                    e1,
                ).1 == spec_parse_args_tail(toks0, self.pos()).1,
            decreases self.rem(),
        {
            let ghost p = self.pos();
            proof {
                lemma_window(self);
                assert(self.cur().kind != Kind::EOF);
            }
            self.next();
            let ghost j1 = self.pos();
            proof {
                assert(p < j1 < toks0.len());
            }
            self.next();
            let ghost j2 = self.pos();

            let res = match self.parse_expression(Precedence::Lowest) {
                Err(mut errs) => {
                    proof {
                        assert(spec_parse_args_tail(toks0, p).0 is None);
                        assert(tg.0 is None);
                    }
                    errs.push(
                        ParserErrorEntry::Parse(
                            self.make_pos_error(
                                "faild to parse inner expression (on parse call args)",
                            ),
                        ),
                    );
                    return Err(errs);
                },
                Ok(e) => e,
            };
            let ghost m = self.pos();
            proof {
                assert((if j1 < m < toks0.len() {
                    m
                } else {
                    j2
                }) == m);
            }
            let ghost args0 = args@;
            let ghost ev = res@;
            args.push(res);
            proof {
                lemma_expr_seq_v(args0);
                lemma_expr_seq_v(args@);
                assert(expr_seq_v(args@) =~= expr_seq_v(args0).push(ev));
                lemma_wf_expr_seq_push(expr_seq_v(args0), ev);
                assert(expr_seq_v(args@) =~= (seq![first] + collected).push(ev));
                assert((seq![first] + collected).push(ev) =~= seq![first] + collected.push(ev));
                assert(match spec_parse_args_tail(toks0, m).0 {
                    Some(rr) => collected + (seq![ev] + rr) =~= collected.push(ev) + rr,
                    None => true,
                }) by {
                    match spec_parse_args_tail(toks0, m).0 {
                        Some(rr) => {
                            assert(collected + (seq![ev] + rr) =~= collected.push(ev) + rr);
                        },
                        None => {},
                    }
                }
            }
            proof {
                collected = collected.push(ev);
            }
        }
        proof {
            lemma_window(self);
            assert(spec_parse_args_tail(toks0, self.pos()).0 == Some(Seq::<
                ExpressionV,
            >::empty()));
            assert(collected + Seq::<ExpressionV>::empty() =~= collected);
        }

        if !self.expect_next_is(&Kind::RPAREN) {
            let mut errs: Vec<ParserErrorEntry> = Vec::new();
            errs.push(
                ParserErrorEntry::Parse(
                    self.make_pos_error("matching RPAREN not found (on parse call args)"),
                ),
            );
            return Err(errs);
        }
        proof {
            assert(seq![first] + collected == expr_seq_v(args@));
        }

        Ok(args)
    }

    #[verifier::rlimit(100)]
    fn parse_prefix(&mut self) -> (r: Result<Expression, Vec<ParserErrorEntry>>)
        requires
            old(self).wf(),
        ensures
            final(self).wf(),
            final(self).toks() == old(self).toks(),
            final(self).positions == old(self).positions,
            0 <= final(self).rem() <= old(self).rem(),
            old(self).pos() <= final(self).pos() < old(self).toks().len(),
            match r {
                Ok(e) => spec_parse_prefix(old(self).toks(), old(self).pos()).0 == Some(e@)
                    && spec_parse_prefix(old(self).toks(), old(self).pos()).1 == final(self).pos() && wf_expr(e@),
                Err(_) => spec_parse_prefix(old(self).toks(), old(self).pos()).0 is None,
            },
        decreases old(self).rem(), 4int,
    {
        let kind = self.cur_token().kind;
        if kind == Kind::Ident {
            Ok(Expression::Identifier(self.parse_identifier()))
        } else if kind == Kind::Int {
            match self.parse_integer_literal() {
                Ok(il) => Ok(Expression::IntegerLiteral(il)),
                Err(e) => {
                    let mut errs: Vec<ParserErrorEntry> = Vec::new();
                    errs.push(ParserErrorEntry::Prefix(e));
                    Err(errs)
                },
            }
        } else if kind == Kind::String {
            Ok(Expression::StringLiteral(self.parse_string_literal()))
        } else if kind == Kind::LPAREN {
            match self.parse_group_expression() {
                Ok(e) => Ok(e),
                Err(mut errs) => {
                    errs.push(
                        ParserErrorEntry::Prefix(
                            PrefixFunctionError {
                                detail: "failed to parse group expression".to_owned(),
                                position: self.make_pos_error("").position,
                                kind: PrefixFunctionErrorKind::GroupExpressionError,
                            },
                        ),
                    );
                    Err(errs)
                },
            }
        } else if kind == Kind::Bang || kind == Kind::Minus {
            match self.parse_prefix_expression() {
                Ok(e) => Ok(e),
                Err(mut errs) => {
                    errs.push(
                        ParserErrorEntry::Prefix(
                            PrefixFunctionError {
                                detail: "failed to prefix expression".to_owned(),
                                position: self.make_pos_error("").position,
                                kind: PrefixFunctionErrorKind::PrefixExpressionError,
                            },
                        ),
                    );
                    Err(errs)
                },
            }
        } else if kind == Kind::True || kind == Kind::False {
            Ok(Expression::BooleanLiteral(self.parse_bool_literal()))
        } else if kind == Kind::If {
            match self.parse_if_expression() {
                Ok(e) => Ok(Expression::IfExpression(e)),
                Err(mut errs) => {
                    errs.push(
                        ParserErrorEntry::Prefix(
                            PrefixFunctionError {
                                detail: "failed to parse if expression".to_owned(),
                                position: self.make_pos_error("").position,
                                kind: PrefixFunctionErrorKind::IfExpressionError,
                            },
                        ),
                    );
                    Err(errs)
                },
            }
        } else if kind == Kind::Function {
            match self.parse_function_literal() {
                Ok(e) => Ok(Expression::FunctionLiteral(e)),
                Err(mut errs) => {
                    errs.push(
                        ParserErrorEntry::Prefix(
                            PrefixFunctionError {
                                detail: "failed to parse function literal".to_owned(),
                                position: self.make_pos_error("").position,
                                kind: PrefixFunctionErrorKind::FunctionLiteralError,
                            },
                        ),
                    );
                    Err(errs)
                },
            }
        } else {
            let mut errs: Vec<ParserErrorEntry> = Vec::new();
            errs.push(
                ParserErrorEntry::Prefix(
                    PrefixFunctionError {
                        detail: "failed to find matching parse function".to_owned(),
                        position: self.make_pos_error("").position,
                        kind: PrefixFunctionErrorKind::NoPrefixFunction,
                    },
                ),
            );
            Err(errs)
        }
    }

    #[verifier::rlimit(100)]
    fn parse_infix(&mut self, left: Expression) -> (r: Result<Expression, Vec<ParserErrorEntry>>)
        requires
            old(self).wf(),
            spec_is_infix(old(self).cur().kind),
            wf_expr(left@),
        ensures
            final(self).wf(),
            final(self).toks() == old(self).toks(),
            final(self).positions == old(self).positions,
            0 <= final(self).rem() <= old(self).rem(),
            old(self).pos() <= final(self).pos() < old(self).toks().len(),
            match r {
                Ok(e) => spec_parse_infix(old(self).toks(), old(self).pos(), left@).0 == Some(e@)
                    && spec_parse_infix(old(self).toks(), old(self).pos(), left@).1 == final(self).pos() && wf_expr(e@),
                Err(_) => spec_parse_infix(old(self).toks(), old(self).pos(), left@).0 is None,
            },
        decreases old(self).rem(), 7int,
    {
        let cur_token = self.cur_token().duplicate();

        if cur_token.kind != Kind::LPAREN {
            let operator = self.cur_token().duplicate();
            let cur_precedence = self.cur_precedence();

            proof {
                assert(self.cur().kind != Kind::EOF);
            }
            self.next();

            let right = match self.parse_expression(cur_precedence) {
                Err(mut errs) => {
                    errs.push(
                        ParserErrorEntry::Infix(
                            InfixFunctionError {
                                detail: "failed to parse on right expression (on parse infix)"
                                    .to_owned(),
                                position: self.make_pos_error("").position,
                                kind: InfixFunctionErrorKind::ParseError,
                            },
                        ),
                    );
                    return Err(errs);
                },
                Ok(e) => e,
            };
            let r = Expression::InfixExpression(
                InfixExpression {
                    token: cur_token,
                    left: Box::new(left),
                    operator,
                    right: Box::new(right),
                },
            );
            Ok(r)
        } else {
            match self.parse_call_expression(left) {
                Err(mut errs) => {
                    errs.push(
                        ParserErrorEntry::Infix(
                            InfixFunctionError {
                                detail: "failed to parse on call expression (on parse infix)"
                                    .to_owned(),
                                position: self.make_pos_error("").position,
                                kind: InfixFunctionErrorKind::ParseError,
                            },
                        ),
                    );
                    Err(errs)
                },
                Ok(ce) => Ok(Expression::CallExpression(ce)),
            }
        }
    }

    #[verifier::rlimit(100)]
    fn parse_expression(&mut self, precedence: Precedence) -> (r: Result<
        Expression,
        Vec<ParserErrorEntry>,
    >)
        requires
            old(self).wf(),
        ensures
            final(self).wf(),
            final(self).toks() == old(self).toks(),
            final(self).positions == old(self).positions,
            0 <= final(self).rem() <= old(self).rem(),
            old(self).pos() <= final(self).pos() < old(self).toks().len(),
            match r {
                Ok(e) => spec_parse_expression(
                    old(self).toks(),
                    old(self).pos(),
                    spec_prec_level(precedence),
                ).0 == Some(e@) && spec_parse_expression(
                    old(self).toks(),
                    old(self).pos(),
                    spec_prec_level(precedence),
                ).1 == final(self).pos() && wf_expr(e@),
                Err(_) => spec_parse_expression(
                    old(self).toks(),
                    old(self).pos(),
                    spec_prec_level(precedence),
                ).0 is None,
            },
        decreases old(self).rem(), 5int,
    {
        let ghost toks0 = old(self).toks();
        let ghost i0 = old(self).pos();
        let ghost lvlg = spec_prec_level(precedence);
        let ghost tg = spec_parse_expression(toks0, i0, lvlg);
        proof {
            lemma_window(self);
        }
        let exp = self.parse_prefix();

        let mut exp = match exp {
            Err(mut errs) => {
                errs.push(
                    ParserErrorEntry::Parse(
                        self.make_pos_error("error on parsing prefix expression (on parse expression)"),
                    ),
                );
                return Err(errs);
            },
            Ok(e) => e,
        };
        proof {
            lemma_window(self);
            assert(tg == spec_parse_expr_tail(toks0, self.pos(), exp@, lvlg));
        }

        let prec = prec_level(precedence);
        while !self.peek_next_is(&Kind::Semicolon) && prec < prec_level(self.peek_precedence())
            invariant
                self.wf(),
                self.toks() == old(self).toks(),
                self.positions == old(self).positions,
                0 <= self.rem() <= old(self).rem(),
                old(self).pos() <= self.pos(),
                toks0 == old(self).toks(),
                i0 == old(self).pos(),
                lvlg == spec_prec_level(precedence),
                tg == spec_parse_expression(toks0, i0, lvlg),
                prec == spec_prec_level(precedence),
                wf_expr(exp@),
                tg == spec_parse_expr_tail(toks0, self.pos(), exp@, lvlg),
            decreases self.rem(),
        {
            let ghost p = self.pos();
            proof {
                lemma_window(self);
            }
            if !is_infix(&self.peek_next().kind) {
                return Ok(exp);
            }
            proof {
                assert(spec_find_precedences(self.peek().kind) != Precedence::Lowest);
                assert(self.peek().kind != Kind::EOF);
                assert(self.cur().kind != Kind::EOF);
            }
            self.next();
            let ghost k = self.pos();
            proof {
                assert(p < k < toks0.len());
            }
            let ghost leftv = exp@;

            let infix = self.parse_infix(exp);

            exp = match infix {
                Err(mut errs) => {
                    proof {
                        assert(spec_parse_expr_tail(toks0, p, leftv, lvlg).0 is None);
                    }
                    errs.push(
                        ParserErrorEntry::Parse(
                            self.make_pos_error(
                                "error on parsing infix expression (on parse expression)",
                            ),
                        ),
                    );
                    return Err(errs);
                },
                Ok(e) => e,
            };
            proof {
                lemma_window(self);
                assert(k <= self.pos() < toks0.len());
                assert(tg == spec_parse_expr_tail(toks0, self.pos(), exp@, lvlg));
            }
        }
        proof {
            lemma_window(self);
        }
        Ok(exp)
    }
}

} // verus!
